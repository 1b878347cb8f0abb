//! A kernel: whether it can be compiled, and its entry point.
use crate::codegen::calls::{self, Site};
use crate::codegen::consts::{
    self, add_module_const_vars, bind_constants, int_array, Bound, ModuleConst,
};
use crate::codegen::tape::{
    self, ArrayConst, BoolConst, CompileError, CompileOptions, ConstKind, Halt, Hints, IntConst,
    Place, Reply, Request, Run, ScalarHint, SpecArg, StrideArg, Tape, TargetHints, TypedName,
};
use crate::codegen::typing::{self, find_types, Body, Typing};
use crate::codegen::value::{self, Context, Value};
use crate::env::{contains_name, GenericVars, TileType};
use crate::exprs::{self, dim_literals};
use crate::list::{self, share, List};
use crate::names::{self, Names};
use crate::results::{self, ResultsView, TypeckResults};
use crate::scalar::{self, bare_type};
use crate::specialization;
use crate::syntax::{Block, FnItem, Symbol, Type};
use crate::types::{self, shape_type};
use std::rc::Rc;
use vstd::prelude::*;

verus! {

/// What the `entry` attribute at a kernel says.
#[derive(Clone, Copy, Debug)]
pub struct EntryAttrs {
    pub unchecked_accesses: bool,
    pub print_ir: bool,
    /// The hints for optimization that it lists.
    pub hints: Option<u64>,
}

/// A function of the program.
pub struct KernelItem {
    pub name: Symbol,
    pub item: Rc<FnItem>,
    pub is_unsafe: bool,
    pub entry: Option<EntryAttrs>,
}

/// All modules, functions and constants of the program.
pub struct Program {
    pub typing: Rc<Typing>,
    pub modules: List<Symbol>,
    pub functions: List<KernelItem>,
    pub consts: List<ModuleConst>,
}

/// The names of a kernel: the one that callers use, and the one that its entry point gets.
#[derive(Clone, Copy, Debug)]
pub struct KernelNaming {
    pub public_name: Symbol,
    pub entry_name: Symbol,
}

/// How many blocks of a kernel run, in each of three dimensions.
#[derive(Clone, Copy, Debug, PartialEq, Eq, Structural)]
pub struct Grid {
    pub x: u32,
    pub y: u32,
    pub z: u32,
}

/// The function of a name.
pub open spec fn kernel_named(functions: List<KernelItem>, name: Symbol) -> Option<KernelItem>
    decreases functions,
{
    match functions {
        List::Nil => None,
        List::Cons(item, rest) => if item.name == name {
            Some(*item)
        } else {
            kernel_named(*rest, name)
        },
    }
}

fn find_kernel(functions: &List<KernelItem>, name: Symbol) -> (r: Option<Rc<KernelItem>>)
    ensures
        r == types::shared(kernel_named(*functions, name)),
    decreases functions,
{
    match functions {
        List::Nil => None,
        List::Cons(item, rest) => {
            if item.name == name {
                Some(share(item))
            } else {
                find_kernel(rest, name)
            }
        },
    }
}

/// The strides of a parameter; of two under one name the last count.
pub open spec fn strides_of(args: List<StrideArg>, name: Symbol) -> Option<List<i32>>
    decreases args,
{
    match args {
        List::Nil => None,
        List::Cons(arg, rest) => match strides_of(*rest, name) {
            Some(strides) => Some(strides),
            None => if arg.name == name {
                Some(arg.strides)
            } else {
                None
            },
        },
    }
}

fn find_strides(args: &List<StrideArg>, name: Symbol) -> (r: Option<List<i32>>)
    ensures
        r == strides_of(*args, name),
    decreases args,
{
    match args {
        List::Nil => None,
        List::Cons(arg, rest) => {
            let later = find_strides(rest, name);
            if later.is_some() {
                later
            } else if arg.name == name {
                Some(arg.strides.dup())
            } else {
                None
            }
        },
    }
}

/// A hint on a scalar under the largest divisor that is to be relied on.
pub open spec fn capped_hint(hint: ScalarHint, max: Option<i32>) -> ScalarHint {
    match max {
        Some(max) => ScalarHint { name: hint.name, hint: specialization::capped(hint.hint, max) },
        None => hint,
    }
}

/// All hints under the largest divisor.
pub open spec fn capped_hints(hints: List<ScalarHint>, max: Option<i32>) -> List<ScalarHint>
    decreases hints,
{
    match hints {
        List::Nil => List::Nil,
        List::Cons(hint, rest) => List::Cons(
            Rc::new(capped_hint(*hint, max)),
            Rc::new(capped_hints(*rest, max)),
        ),
    }
}

fn cap_hints(hints: &List<ScalarHint>, max: Option<i32>) -> (r: List<ScalarHint>)
    ensures
        r == capped_hints(*hints, max),
    decreases hints,
{
    match hints {
        List::Nil => List::Nil,
        List::Cons(hint, rest) => {
            let capped = match max {
                Some(max) => ScalarHint { name: hint.name, hint: hint.hint.with_max(max) },
                None => ScalarHint { name: hint.name, hint: hint.hint },
            };
            List::prepend(Rc::new(capped), cap_hints(rest, max))
        },
    }
}

/// What a kernel is compiled for.
pub struct KernelRequest {
    pub module_name: Symbol,
    pub naming: KernelNaming,
    pub generic_args: List<Symbol>,
    pub stride_args: List<StrideArg>,
    pub spec_args: List<SpecArg>,
    pub scalar_hints: List<ScalarHint>,
    pub const_grid: Option<Grid>,
    pub gpu_name: Symbol,
    pub options: CompileOptions,
}

/// The largest divisor that hints name for a device.
pub open spec fn target_max(targets: List<TargetHints>, name: Symbol) -> Option<i32>
    decreases targets,
{
    match targets {
        List::Nil => None,
        List::Cons(target, rest) => if target.name == name {
            target.max_divisibility
        } else {
            target_max(*rest, name)
        },
    }
}

fn find_target_max(targets: &List<TargetHints>, name: Symbol) -> (r: Option<i32>)
    ensures
        r == target_max(*targets, name),
    decreases targets,
{
    match targets {
        List::Nil => None,
        List::Cons(target, rest) => {
            if target.name == name {
                target.max_divisibility
            } else {
                find_target_max(rest, name)
            }
        },
    }
}

/// The largest divisor that is to be relied on: that of the options, or else the one that the hints
/// name for the device.
pub open spec fn largest_divisor(options: CompileOptions, hints: Hints) -> Option<i32> {
    match (options.max_divisibility, hints.target) {
        (Some(max), _) => Some(max),
        (None, Some(target)) => target_max(hints.targets, target),
        (None, None) => None,
    }
}

fn find_largest_divisor(options: CompileOptions, hints: &Hints) -> (r: Option<i32>)
    ensures
        r == largest_divisor(options, *hints),
{
    match (options.max_divisibility, hints.target) {
        (Some(max), _) => Some(max),
        (None, Some(target)) => find_target_max(&hints.targets, target),
        (None, None) => None,
    }
}

/// A kernel that can be compiled.
pub struct CUDATileFunctionCompiler {
    pub typing: Rc<Typing>,
    pub module_name: Symbol,
    pub function: Rc<FnItem>,
    pub entry: Rc<FnItem>,
    pub entry_attrs: EntryAttrs,
    pub const_grid: Option<Grid>,
    pub gpu_name: Symbol,
    pub hints: Rc<Hints>,
    pub stride_args: List<StrideArg>,
    pub generics: Bound,
    pub consts: List<ModuleConst>,
    /// What checks the arguments of a launch.
    pub validator: u64,
}

/// Why a kernel cannot be compiled as it is written, where it cannot.
pub open spec fn refusal(program: Program, wanted: KernelRequest) -> Option<CompileError> {
    if !crate::env::has_name(program.modules, wanted.module_name) {
        Some(CompileError::UndefinedModule)
    } else {
        match kernel_named(program.functions, wanted.naming.public_name) {
            None => Some(CompileError::UndefinedFunction),
            Some(kernel) => match kernel.entry {
                None => Some(CompileError::MissingEntryAttribute),
                Some(_) => None,
            },
        }
    }
}

/// The kernel from the point where its attributes were read.
pub open spec fn kernel_prepared(
    tape: List<Reply>,
    names: Names,
    program: Program,
    wanted: KernelRequest,
    kernel: KernelItem,
    attrs: EntryAttrs,
) -> Run<CUDATileFunctionCompiler> {
    match tape::emitted_reply(tape, Request::AnalyzeEntry(kernel.item)) {
        Err(halt) => Err(halt),
        Ok((tape, _)) => if attrs.unchecked_accesses && !kernel.is_unsafe {
            Err(Halt::Failed(CompileError::NotUnsafe))
        } else {
            match tape::hints_reply(
                tape,
                Request::Hints {
                    listed: attrs.hints,
                    gpu_name: wanted.gpu_name,
                    options: wanted.options,
                },
            ) {
                Err(halt) => Err(halt),
                Ok((tape, hints)) => match tape::vars_reply(
                    tape,
                    Request::FlatGenerics { callable: kernel.item.id, args: wanted.generic_args },
                ) {
                    Err(halt) => Err(halt),
                    Ok((tape, vars)) => match tape::constants_reply(
                        tape,
                        Request::Constants(vars),
                    ) {
                        Err(halt) => Err(halt),
                        Ok((tape, constants)) => entry_prepared(
                            tape,
                            program,
                            wanted,
                            kernel,
                            attrs,
                            hints,
                            consts::with_module_consts(
                                names,
                                Bound { vars, constants },
                                program.consts,
                            ),
                        ),
                    },
                },
            }
        },
    }
}

/// The kernel from the point where its generic names are known.
pub open spec fn entry_prepared(
    tape: List<Reply>,
    program: Program,
    wanted: KernelRequest,
    kernel: KernelItem,
    attrs: EntryAttrs,
    hints: Rc<Hints>,
    generics: Bound,
) -> Run<CUDATileFunctionCompiler> {
    match tape::entry_reply(
        tape,
        Request::GenerateEntry {
            item: kernel.item,
            generics: generics.vars,
            strides: wanted.stride_args,
            spec_args: wanted.spec_args,
            scalar_hints: capped_hints(
                wanted.scalar_hints,
                largest_divisor(wanted.options, *hints),
            ),
            hints,
        },
    ) {
        Err(halt) => Err(halt),
        Ok((tape, (entry, validator))) => if kernel_named(
            program.functions,
            wanted.naming.entry_name,
        ) is Some {
            Err(Halt::Failed(CompileError::NameCollision))
        } else {
            match entry_printed(tape, wanted, attrs, entry) {
                Err(halt) => Err(halt),
                Ok((tape, _)) => Ok(
                    (
                        tape,
                        CUDATileFunctionCompiler {
                            typing: program.typing,
                            module_name: wanted.module_name,
                            function: kernel.item,
                            entry,
                            entry_attrs: attrs,
                            const_grid: wanted.const_grid,
                            gpu_name: wanted.gpu_name,
                            hints,
                            stride_args: wanted.stride_args,
                            generics,
                            consts: program.consts,
                            validator,
                        },
                    ),
                ),
            }
        },
    }
}

/// The entry point printed, where the kernel asks for it.
pub open spec fn entry_printed(
    tape: List<Reply>,
    wanted: KernelRequest,
    attrs: EntryAttrs,
    entry: Rc<FnItem>,
) -> Run<()> {
    if attrs.print_ir {
        tape::done_reply(
            tape,
            Request::PrintEntry {
                module: wanted.module_name,
                function: wanted.naming.public_name,
                entry,
            },
        )
    } else {
        Ok((tape, ()))
    }
}

/// The kernel that is asked for.
pub open spec fn kernel_for(
    tape: List<Reply>,
    names: Names,
    program: Program,
    wanted: KernelRequest,
) -> Run<CUDATileFunctionCompiler> {
    match refusal(program, wanted) {
        Some(error) => Err(Halt::Failed(error)),
        None => {
            let kernel = kernel_named(program.functions, wanted.naming.public_name)->0;
            kernel_prepared(tape, names, program, wanted, kernel, kernel.entry->0)
        },
    }
}

/// Accesses go unchecked only in a kernel that says that it is `unsafe`.
pub proof fn unchecked_kernels_are_unsafe(
    tape: List<Reply>,
    names: Names,
    program: Program,
    wanted: KernelRequest,
)
    requires
        kernel_for(tape, names, program, wanted) is Ok,
    ensures
        kernel_for(tape, names, program, wanted)->Ok_0.1.entry_attrs.unchecked_accesses ==> (
        kernel_named(program.functions, wanted.naming.public_name) matches Some(kernel)
            && kernel.is_unsafe),
{
}

/// The options of a compilation come before what a kernel lists: no hint on a scalar is larger than
/// the divisor that they name.
pub proof fn options_cap_the_hints(options: CompileOptions, hints: Hints, hint: ScalarHint)
    ensures
        options.max_divisibility matches Some(max) ==> {
            &&& largest_divisor(options, hints) == Some(max)
            &&& capped_hint(hint, largest_divisor(options, hints)).hint == specialization::capped(
                hint.hint,
                max,
            )
        },
{
}

/// The entry point of a kernel takes no name that a function has.
pub proof fn entry_names_are_free(
    tape: List<Reply>,
    names: Names,
    program: Program,
    wanted: KernelRequest,
)
    requires
        kernel_for(tape, names, program, wanted) is Ok,
    ensures
        kernel_named(program.functions, wanted.naming.entry_name) is None,
{
}

// Types of parameters.

/// The type that carries the strides of a parameter.
pub open spec fn strides_type(strides: List<i32>) -> Type {
    types::shaped_type(names::ARRAY, exprs::dim_exprs(strides))
}

/// The compiled types of parameters, from a position on.
pub open spec fn param_types(
    tape: List<Reply>,
    generics: Rc<GenericVars>,
    strides: List<StrideArg>,
    names: List<Symbol>,
    types: List<Type>,
    at: usize,
) -> Run<List<TileType>>
    decreases types,
{
    match types {
        List::Nil => Ok((tape, List::Nil)),
        List::Cons(ty, rest) => {
            let known = match names {
                List::Cons(name, _) => match strides_of(strides, *name) {
                    Some(strides) => Some(Rc::new(strides_type(strides))),
                    None => None,
                },
                List::Nil => None,
            };
            match tape::type_reply(
                tape,
                Request::CompileParam { ty, generics, strides: known },
            ) {
                Err(halt) => Err(halt),
                Ok((_, None)) => Err(Halt::Failed(CompileError::UncompiledParam(Place::Param(at)))),
                Ok((tape, Some(tile))) => match param_types(
                    tape,
                    generics,
                    strides,
                    calls::behind(names),
                    *rest,
                    calls::after(at),
                ) {
                    Err(halt) => Err(halt),
                    Ok((tape, more)) => Ok((tape, List::Cons(tile, Rc::new(more)))),
                },
            }
        },
    }
}

fn compile_function_param_types(
    tape: &mut Tape,
    generics: &Rc<GenericVars>,
    strides: &List<StrideArg>,
    names: &List<Symbol>,
    types: &List<Type>,
    at: usize,
) -> (r: Result<List<TileType>, Halt>)
    ensures
        tape::follows(
            r,
            final(tape).left,
            param_types(old(tape).left, *generics, *strides, *names, *types, at),
        ),
    decreases types,
{
    match types {
        List::Nil => Ok(List::Nil),
        List::Cons(ty, rest) => {
            let known = match names {
                List::Cons(name, _) => match find_strides(strides, **name) {
                    Some(strides) => Some(shape_type(names::ARRAY, dim_literals(&strides))),
                    None => None,
                },
                List::Nil => None,
            };
            let more_names = match names {
                List::Cons(_, more) => more.dup(),
                List::Nil => List::Nil,
            };
            let request = Request::CompileParam {
                ty: share(ty),
                generics: share(generics),
                strides: known,
            };
            let tile = match tape.ask_type(request)? {
                Some(tile) => tile,
                None => {
                    return Err(Halt::Failed(CompileError::UncompiledParam(Place::Param(at))));
                },
            };
            let next = if at == usize::MAX {
                at
            } else {
                at + 1
            };
            let more = compile_function_param_types(
                tape,
                generics,
                strides,
                &more_names,
                rest,
                next,
            )?;
            Ok(List::prepend(tile, more))
        },
    }
}

// Types that inference starts with.

/// Names paired with types, as far as there are both.
pub open spec fn paired(names: List<Symbol>, types: List<TileType>) -> List<TypedName>
    decreases names,
{
    match (names, types) {
        (List::Cons(name, names), List::Cons(ty, types)) => List::Cons(
            Rc::new(TypedName { name: *name, ty }),
            Rc::new(paired(*names, *types)),
        ),
        _ => List::Nil,
    }
}

fn pair(names: &List<Symbol>, types: &List<TileType>) -> (r: List<TypedName>)
    ensures
        r == paired(*names, *types),
    decreases names,
{
    match (names, types) {
        (List::Cons(name, names), List::Cons(ty, types)) => List::prepend(
            Rc::new(TypedName { name: **name, ty: share(ty) }),
            pair(names, types),
        ),
        _ => List::Nil,
    }
}

/// Names with one more in front, whose type is compiled; a type that does not compile is an error.
pub open spec fn with_type(
    tape: List<Reply>,
    generics: Rc<GenericVars>,
    known: List<TypedName>,
    name: Symbol,
    ty: Type,
    kind: ConstKind,
) -> Run<List<TypedName>> {
    match tape::type_reply(
        tape,
        Request::CompileType { ty: Rc::new(ty), generics, params: List::Nil },
    ) {
        Err(halt) => Err(halt),
        Ok((_, None)) => Err(
            Halt::Failed(CompileError::UncompiledConstType { place: Place::Nowhere, kind }),
        ),
        Ok((tape, Some(tile))) => Ok(
            (tape, List::Cons(Rc::new(TypedName { name, ty: tile }), Rc::new(known))),
        ),
    }
}

fn add_type(
    tape: &mut Tape,
    generics: &Rc<GenericVars>,
    known: List<TypedName>,
    name: Symbol,
    ty: Rc<Type>,
    kind: ConstKind,
) -> (r: Result<List<TypedName>, Halt>)
    ensures
        tape::follows(
            r,
            final(tape).left,
            with_type(old(tape).left, *generics, known, name, *ty, kind),
        ),
{
    let request = Request::CompileType { ty, generics: share(generics), params: List::Nil };
    match tape.ask_type(request)? {
        Some(tile) => Ok(List::prepend(Rc::new(TypedName { name, ty: tile }), known)),
        None => Err(
            Halt::Failed(CompileError::UncompiledConstType { place: Place::Nowhere, kind }),
        ),
    }
}

pub open spec fn with_int_types(
    tape: List<Reply>,
    generics: Rc<GenericVars>,
    known: List<TypedName>,
    ints: List<IntConst>,
) -> Run<List<TypedName>>
    decreases ints,
{
    match ints {
        List::Nil => Ok((tape, known)),
        List::Cons(item, rest) => match with_type(
            tape,
            generics,
            known,
            item.name,
            scalar::named_type(names::I32),
            ConstKind::Number,
        ) {
            Err(halt) => Err(halt),
            Ok((tape, known)) => with_int_types(tape, generics, known, *rest),
        },
    }
}

fn add_int_types(
    tape: &mut Tape,
    generics: &Rc<GenericVars>,
    known: List<TypedName>,
    ints: &List<IntConst>,
) -> (r: Result<List<TypedName>, Halt>)
    ensures
        tape::follows(r, final(tape).left, with_int_types(old(tape).left, *generics, known, *ints)),
    decreases ints,
{
    match ints {
        List::Nil => Ok(known),
        List::Cons(item, rest) => {
            let known = add_type(
                tape,
                generics,
                known,
                item.name,
                bare_type(names::I32),
                ConstKind::Number,
            )?;
            add_int_types(tape, generics, known, rest)
        },
    }
}

pub open spec fn with_bool_types(
    tape: List<Reply>,
    generics: Rc<GenericVars>,
    known: List<TypedName>,
    bools: List<BoolConst>,
) -> Run<List<TypedName>>
    decreases bools,
{
    match bools {
        List::Nil => Ok((tape, known)),
        List::Cons(item, rest) => match with_type(
            tape,
            generics,
            known,
            item.name,
            scalar::named_type(names::BOOL),
            ConstKind::Bool,
        ) {
            Err(halt) => Err(halt),
            Ok((tape, known)) => with_bool_types(tape, generics, known, *rest),
        },
    }
}

fn add_bool_types(
    tape: &mut Tape,
    generics: &Rc<GenericVars>,
    known: List<TypedName>,
    bools: &List<BoolConst>,
) -> (r: Result<List<TypedName>, Halt>)
    ensures
        tape::follows(
            r,
            final(tape).left,
            with_bool_types(old(tape).left, *generics, known, *bools),
        ),
    decreases bools,
{
    match bools {
        List::Nil => Ok(known),
        List::Cons(item, rest) => {
            let known = add_type(
                tape,
                generics,
                known,
                item.name,
                bare_type(names::BOOL),
                ConstKind::Bool,
            )?;
            add_bool_types(tape, generics, known, rest)
        },
    }
}

pub open spec fn with_array_types(
    tape: List<Reply>,
    generics: Rc<GenericVars>,
    known: List<TypedName>,
    arrays: List<ArrayConst>,
) -> Run<List<TypedName>>
    decreases arrays,
{
    match arrays {
        List::Nil => Ok((tape, known)),
        List::Cons(item, rest) => match with_type(
            tape,
            generics,
            known,
            item.name,
            consts::int_array_type(exprs::length(item.dims)),
            ConstKind::Array,
        ) {
            Err(halt) => Err(halt),
            Ok((tape, known)) => with_array_types(tape, generics, known, *rest),
        },
    }
}

fn add_array_types(
    tape: &mut Tape,
    generics: &Rc<GenericVars>,
    known: List<TypedName>,
    arrays: &List<ArrayConst>,
) -> (r: Result<List<TypedName>, Halt>)
    ensures
        tape::follows(
            r,
            final(tape).left,
            with_array_types(old(tape).left, *generics, known, *arrays),
        ),
    decreases arrays,
{
    match arrays {
        List::Nil => Ok(known),
        List::Cons(item, rest) => {
            let known = add_type(
                tape,
                generics,
                known,
                item.name,
                int_array(item.dims.count()),
                ConstKind::Array,
            )?;
            add_array_types(tape, generics, known, rest)
        },
    }
}

/// The types that inference starts with: those of the parameters, hidden by those of the constants.
pub open spec fn initial_types(
    tape: List<Reply>,
    names: List<Symbol>,
    types: List<TileType>,
    generics: Bound,
) -> Run<List<TypedName>> {
    match with_int_types(tape, generics.vars, paired(names, types), generics.constants.ints) {
        Err(halt) => Err(halt),
        Ok((tape, known)) => match with_bool_types(
            tape,
            generics.vars,
            known,
            generics.constants.bools,
        ) {
            Err(halt) => Err(halt),
            Ok((tape, known)) => with_array_types(
                tape,
                generics.vars,
                known,
                generics.constants.arrays,
            ),
        },
    }
}

fn initial_typeck_types(
    tape: &mut Tape,
    names: &List<Symbol>,
    types: &List<TileType>,
    generics: &Bound,
) -> (r: Result<List<TypedName>, Halt>)
    ensures
        tape::follows(
            r,
            final(tape).left,
            initial_types(old(tape).left, *names, *types, *generics),
        ),
{
    let known = pair(names, types);
    let known = add_int_types(tape, &generics.vars, known, &generics.constants.ints)?;
    let known = add_bool_types(tape, &generics.vars, known, &generics.constants.bools)?;
    add_array_types(tape, &generics.vars, known, &generics.constants.arrays)
}

// The entry point.

/// A parameter as an argument of the entry block.
pub open spec fn entry_value(handle: u64, ty: Rc<TileType>, mutable: bool) -> Value {
    Value { handle, ty, mutable, variant: None, payload: None, meta: 0, bounds: None }
}

/// Parameters bound to the arguments of the entry block, as far as there are arguments.
pub open spec fn entry_scope(
    scope: Context,
    names: List<Symbol>,
    handles: List<u64>,
    types: List<TileType>,
    mutable: List<bool>,
) -> Context
    decreases names,
{
    match (names, handles, types, mutable) {
        (
            List::Cons(name, names),
            List::Cons(handle, handles),
            List::Cons(ty, types),
            List::Cons(is_mutable, mutable),
        ) => entry_scope(
            value::binding(scope, *name, Rc::new(entry_value(*handle, ty, *is_mutable))),
            *names,
            *handles,
            *types,
            *mutable,
        ),
        _ => scope,
    }
}

fn bind_entry_params(
    scope: Context,
    names: &List<Symbol>,
    handles: &List<u64>,
    types: &List<TileType>,
    mutable: &List<bool>,
) -> (r: Context)
    ensures
        r == entry_scope(scope, *names, *handles, *types, *mutable),
    decreases names,
{
    match (names, handles, types, mutable) {
        (
            List::Cons(name, names),
            List::Cons(handle, handles),
            List::Cons(ty, types),
            List::Cons(is_mutable, mutable),
        ) => {
            let mut scope = scope;
            let val = Value {
                handle: **handle,
                ty: share(ty),
                mutable: **is_mutable,
                variant: None,
                payload: None,
                meta: 0,
                bounds: None,
            };
            scope.insert(**name, Rc::new(val));
            bind_entry_params(scope, names, handles, types, mutable)
        },
        _ => scope,
    }
}

/// A scope without names, in no module.
pub open spec fn empty_scope() -> Context {
    Context { vars: List::Nil, modules: List::Nil, returns_at_end: false }
}

/// The compiled body of an entry point, from the point where its names are bound.
pub open spec fn entry_body(
    tape: List<Reply>,
    kernel: CUDATileFunctionCompiler,
    params: List<TileType>,
    initial: List<TypedName>,
    scope: Context,
) -> Run<u64> {
    match tape::item_reply(tape, Request::Number { item: kernel.entry, at_call: false }) {
        Err(halt) => Err(halt),
        Ok((tape, numbered)) => match typing::body_types(
            tape,
            *kernel.typing,
            kernel.generics.vars,
            Body { impl_item: None, item: numbered },
            initial,
        ) {
            Err(halt) => Err(halt),
            Ok((tape, found)) => match tape::item_reply(
                tape,
                Request::Lower { item: numbered, results: found },
            ) {
                Err(halt) => Err(halt),
                Ok((tape, lowered)) => match tape::value_reply(
                    tape,
                    Request::CompileBlock {
                        body: Rc::new(lowered.body),
                        generics: kernel.generics.vars,
                        scope: Rc::new(Context { returns_at_end: true, ..scope }),
                        expected: None,
                        results: found,
                    },
                ) {
                    Err(halt) => Err(halt),
                    Ok((_, (Some(_), _))) => Err(
                        Halt::Failed(CompileError::ReturnsValue(Place::Body)),
                    ),
                    Ok((tape, (None, _))) => tape::emitted_reply(
                        tape,
                        Request::CloseEntry {
                            name: kernel.entry.name,
                            params,
                            hints: kernel.hints,
                        },
                    ),
                },
            },
        },
    }
}

/// An entry point is compiled with the types that inference finds in the entry point as it is
/// numbered, under some book of answers.
pub proof fn entry_is_compiled_with_its_types(
    tape: List<Reply>,
    kernel: CUDATileFunctionCompiler,
    params: List<TileType>,
    initial: List<TypedName>,
    scope: Context,
    numbered: Rc<FnItem>,
    rest: List<Reply>,
    types: ResultsView,
)
    requires
        tape::item_reply(tape, Request::Number { item: kernel.entry, at_call: false }) == Ok::<
            (List<Reply>, Rc<FnItem>),
            Halt<ResultsView>,
        >((rest, numbered)),
        entry_body(tape, kernel, params, initial, scope) matches Err(
            Halt::Perform(Request::CompileBlock { results, .. }),
        ) && results == types,
    ensures
        typing::is_inferred(
            typing::env_for(*kernel.typing, kernel.generics.vars),
            Body { impl_item: None, item: numbered },
            typing::type_table(initial),
            types,
        ),
{
    let typing = list::held(&kernel.typing);
    let env = typing::env_for(typing, kernel.generics.vars);
    let body = Body { impl_item: None, item: numbered };
    let initial_types = typing::type_table(initial);
    typing::only_answers_are_asked(rest, env, body, initial_types);
    if typing::types_found(rest, env, body, initial_types) is Ok {
        typing::compiled_types_are_inferred(rest, env, body, initial_types);
    }
}

/// The compiled entry point of a kernel, in a module.
pub open spec fn entry_compiled(
    tape: List<Reply>,
    kernel: CUDATileFunctionCompiler,
    module: u64,
) -> Run<u64> {
    let item = kernel.entry;
    match param_types(
        tape,
        kernel.generics.vars,
        kernel.stride_args,
        item.param_names,
        item.param_types,
        0,
    ) {
        Err(halt) => Err(halt),
        Ok((tape, params)) => match tape::arguments_reply(
            tape,
            Request::OpenEntry { module, params },
        ) {
            Err(halt) => Err(halt),
            Ok((tape, handles)) => {
                let scope = entry_scope(
                    empty_scope(),
                    item.param_names,
                    handles,
                    params,
                    item.param_mutable,
                );
                match initial_types(tape, item.param_names, params, kernel.generics) {
                    Err(halt) => Err(halt),
                    Ok((tape, initial)) => match consts::with_constants(
                        tape,
                        kernel.generics.vars,
                        kernel.generics.vars,
                        *kernel.generics.constants,
                        scope,
                    ) {
                        Err(halt) => Err(halt),
                        Ok((tape, scope)) => entry_body(tape, kernel, params, initial, scope),
                    },
                }
            },
        },
    }
}

/// The module of a kernel: first the statics of the program, then the entry point, which is pushed
/// as its function.
pub open spec fn module_compiled(tape: List<Reply>, kernel: CUDATileFunctionCompiler) -> Run<u64> {
    match tape::emitted_reply(tape, Request::NewModule(kernel.module_name)) {
        Err(halt) => Err(halt),
        Ok((tape, module)) => match tape::done_reply(tape, Request::EmitGlobals(module)) {
            Err(halt) => Err(halt),
            Ok((tape, _)) => match entry_compiled(tape, kernel, module) {
                Err(halt) => Err(halt),
                Ok((tape, entry)) => match tape::done_reply(
                    tape,
                    Request::PushEntry { module, entry },
                ) {
                    Err(halt) => Err(halt),
                    Ok((tape, _)) => Ok((tape, module)),
                },
            },
        },
    }
}

impl CUDATileFunctionCompiler {
    pub fn new(
        tape: &mut Tape,
        names: &Names,
        program: &Program,
        wanted: &KernelRequest,
    ) -> (r: Result<CUDATileFunctionCompiler, Halt>)
        ensures
            tape::follows(
                r,
                final(tape).left,
                kernel_for(old(tape).left, *names, *program, *wanted),
            ),
    {
        if !contains_name(&program.modules, wanted.module_name) {
            return Err(Halt::Failed(CompileError::UndefinedModule));
        }
        let kernel = match find_kernel(&program.functions, wanted.naming.public_name) {
            Some(kernel) => kernel,
            None => return Err(Halt::Failed(CompileError::UndefinedFunction)),
        };
        let attrs = match kernel.entry {
            Some(attrs) => attrs,
            None => return Err(Halt::Failed(CompileError::MissingEntryAttribute)),
        };
        let _ = tape.ask_emitted(Request::AnalyzeEntry(share(&kernel.item)))?;
        if attrs.unchecked_accesses && !kernel.is_unsafe {
            return Err(Halt::Failed(CompileError::NotUnsafe));
        }
        let hints = tape.ask_hints(
            Request::Hints {
                listed: attrs.hints,
                gpu_name: wanted.gpu_name,
                options: wanted.options,
            },
        )?;
        let vars = tape.ask_vars(
            Request::FlatGenerics {
                callable: kernel.item.id,
                args: wanted.generic_args.dup(),
            },
        )?;
        let constants = tape.ask_constants(Request::Constants(share(&vars)))?;
        let generics = add_module_const_vars(names, Bound { vars, constants }, &program.consts);
        let (entry, validator) = tape.ask_entry(
            Request::GenerateEntry {
                item: share(&kernel.item),
                generics: share(&generics.vars),
                strides: wanted.stride_args.dup(),
                spec_args: wanted.spec_args.dup(),
                scalar_hints: cap_hints(
                    &wanted.scalar_hints,
                    find_largest_divisor(wanted.options, &hints),
                ),
                hints: share(&hints),
            },
        )?;
        if find_kernel(&program.functions, wanted.naming.entry_name).is_some() {
            return Err(Halt::Failed(CompileError::NameCollision));
        }
        if attrs.print_ir {
            tape.ask_done(
                Request::PrintEntry {
                    module: wanted.module_name,
                    function: wanted.naming.public_name,
                    entry: share(&entry),
                },
            )?;
        }
        Ok(
            CUDATileFunctionCompiler {
                typing: share(&program.typing),
                module_name: wanted.module_name,
                function: share(&kernel.item),
                entry,
                entry_attrs: attrs,
                const_grid: wanted.const_grid,
                gpu_name: wanted.gpu_name,
                hints,
                stride_args: wanted.stride_args.dup(),
                generics,
                consts: program.consts.dup(),
                validator,
            },
        )
    }

    fn compile_entry_body(
        &self,
        tape: &mut Tape,
        params: List<TileType>,
        initial: List<TypedName>,
        scope: Context,
    ) -> (r: Result<u64, Halt>)
        ensures
            tape::follows(
                r,
                final(tape).left,
                entry_body(old(tape).left, *self, params, initial, scope),
            ),
    {
        let numbered = tape.ask_item(
            Request::Number { item: share(&self.entry), at_call: false },
        )?;
        let body = Body { impl_item: None, item: share(&numbered) };
        let found = find_types(tape, &self.typing, &self.generics.vars, &body, &initial)?;
        let lowered = tape.ask_item(Request::Lower { item: numbered, results: share(&found) })?;
        let mut scope = scope;
        scope.returns_at_end = true;
        let request = Request::CompileBlock {
            body: Rc::new(Block { stmts: lowered.body.stmts.dup() }),
            generics: share(&self.generics.vars),
            scope: Rc::new(scope),
            expected: None,
            results: found,
        };
        let (value, _) = tape.ask_value(request)?;
        if value.is_some() {
            return Err(Halt::Failed(CompileError::ReturnsValue(Place::Body)));
        }
        tape.ask_emitted(
            Request::CloseEntry { name: self.entry.name, params, hints: share(&self.hints) },
        )
    }

    /// Compiles the kernel; the result is what the backend calls its module.
    pub fn compile(&self, tape: &mut Tape) -> (r: Result<u64, Halt>)
        ensures
            tape::follows(r, final(tape).left, module_compiled(old(tape).left, *self)),
    {
        let module = tape.ask_emitted(Request::NewModule(self.module_name))?;
        tape.ask_done(Request::EmitGlobals(module))?;
        let entry = self.compile_entry_function(tape, module)?;
        tape.ask_done(Request::PushEntry { module, entry })?;
        Ok(module)
    }

    /// Compiles the entry point in a module; the result is what the backend calls it.
    pub fn compile_entry_function(&self, tape: &mut Tape, module: u64) -> (r: Result<u64, Halt>)
        ensures
            tape::follows(r, final(tape).left, entry_compiled(old(tape).left, *self, module)),
    {
        let item = &self.entry;
        let params = compile_function_param_types(
            tape,
            &self.generics.vars,
            &self.stride_args,
            &item.param_names,
            &item.param_types,
            0,
        )?;
        let handles = tape.ask_arguments(Request::OpenEntry { module, params: params.dup() })?;
        let scope = Context { vars: List::Nil, modules: List::Nil, returns_at_end: false };
        let scope = bind_entry_params(
            scope,
            &item.param_names,
            &handles,
            &params,
            &item.param_mutable,
        );
        let initial = initial_typeck_types(tape, &item.param_names, &params, &self.generics)?;
        let scope = bind_constants(
            tape,
            &self.generics.vars,
            &self.generics.vars,
            &self.generics.constants,
            scope,
        )?;
        self.compile_entry_body(tape, params, initial, scope)
    }

    /// The types in the kernel's own body.
    pub fn typeck(&self, tape: &mut Tape) -> (r: Result<Rc<TypeckResults>, Halt>)
        ensures
            typing::gives(r, final(tape).left, kernel_types(old(tape).left, *self)),
    {
        let item = &self.function;
        let params = compile_function_param_types(
            tape,
            &self.generics.vars,
            &self.stride_args,
            &item.param_names,
            &item.param_types,
            0,
        )?;
        let initial = initial_typeck_types(tape, &item.param_names, &params, &self.generics)?;
        let numbered = tape.ask_item(Request::Number { item: share(item), at_call: false })?;
        let body = Body { impl_item: None, item: numbered };
        find_types(tape, &self.typing, &self.generics.vars, &body, &initial)
    }

    /// The types in the kernel's own body, as text.
    pub fn debug_typeck_dump(&self, tape: &mut Tape, names: &Names) -> (r: Result<String, Halt>)
        ensures
            match kernel_types(old(tape).left, *self) {
                Ok((left, found)) => final(tape).left == left && (r matches Ok(text)
                    && results::is_dump(*names, found, text@)),
                Err(halt) => r matches Err(stopped) && tape::halted(stopped) == halt,
            },
    {
        let found = self.typeck(tape)?;
        Ok(found.debug_dump(names))
    }

    /// What surrounds code that is compiled inside this kernel.
    pub fn site(&self, results: Option<Rc<TypeckResults>>) -> (r: Site)
        ensures
            r == (Site {
                typing: self.typing,
                module: self.module_name,
                consts: self.consts,
                generics: self.generics.vars,
                results,
            }),
    {
        Site {
            typing: share(&self.typing),
            module: self.module_name,
            consts: self.consts.dup(),
            generics: share(&self.generics.vars),
            results,
        }
    }

    pub fn get_validator(&self) -> (r: u64)
        ensures
            r == self.validator,
    {
        self.validator
    }

    pub fn gpu_name(&self) -> (r: Symbol)
        ensures
            r == self.gpu_name,
    {
        self.gpu_name
    }
}

/// A place in a source text.
pub struct SourceLocation {
    /// The file, where it is known.
    pub file: Option<Symbol>,
    pub line: usize,
    pub column: usize,
}

/// A place in a source text as the backend takes it.
#[derive(Clone, Copy, PartialEq, Eq, Structural, Debug)]
pub enum Location {
    FileLineCol { filename: Symbol, line: u32, column: u32 },
    Unknown,
}

pub fn ir_location(loc: &SourceLocation) -> (r: Location)
    ensures
        r == (match loc.file {
            Some(filename) => Location::FileLineCol {
                filename,
                line: loc.line as u32,
                column: loc.column as u32,
            },
            None => Location::Unknown,
        }),
{
    match loc.file {
        Some(filename) => Location::FileLineCol {
            filename,
            line: loc.line as u32,
            column: loc.column as u32,
        },
        None => Location::Unknown,
    }
}

/// The types in a kernel's own body.
pub open spec fn kernel_types(
    tape: List<Reply>,
    kernel: CUDATileFunctionCompiler,
) -> Run<ResultsView> {
    let item = kernel.function;
    match param_types(
        tape,
        kernel.generics.vars,
        kernel.stride_args,
        item.param_names,
        item.param_types,
        0,
    ) {
        Err(halt) => Err(halt),
        Ok((tape, params)) => match initial_types(
            tape,
            item.param_names,
            params,
            kernel.generics,
        ) {
            Err(halt) => Err(halt),
            Ok((tape, initial)) => match tape::item_reply(
                tape,
                Request::Number { item, at_call: false },
            ) {
                Err(halt) => Err(halt),
                Ok((tape, numbered)) => typing::body_types(
                    tape,
                    *kernel.typing,
                    kernel.generics.vars,
                    Body { impl_item: None, item: numbered },
                    initial,
                ),
            },
        },
    }
}

} // verus!
