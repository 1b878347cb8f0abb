//! What holds of a kernel: what it is made of, what its entry point is compiled under, and what is
//! asked for in its course.
use crate::codegen::calls;
use crate::codegen::consts::{self, Bound};
use crate::codegen::dialogue;
use crate::codegen::inlining;
use crate::codegen::kernel::{
    self, CUDATileFunctionCompiler, EntryAttrs, KernelItem, KernelRequest, Program,
};
use crate::codegen::tape::{
    self, ArrayConst, BoolConst, CompileError, CompileOptions, Constants, ConstKind, Halt, Hints,
    IntConst, Place, Reply, Request, ScalarHint, StrideArg, TargetHints, TypedName,
};
use crate::codegen::typing;
use crate::codegen::value::{self, Context, Value};
use crate::env::{self, GenericVars, TileType};
use crate::exprs;
use crate::list::{self, List};
use crate::names::{self, Names};
use crate::results::ResultsView;
use crate::scalar;
use crate::syntax::{FnItem, Symbol, Type};
use crate::types;
use std::rc::Rc;
use vstd::prelude::*;

verus! {

// Lookups.

/// A function is found under its name: the first of that name.
pub proof fn kernel_is_found(functions: List<KernelItem>, at: int)
    requires
        0 <= at < functions@.len(),
        forall|i: int| 0 <= i < at ==> (#[trigger] functions@[i]).name != functions@[at].name,
    ensures
        kernel::kernel_named(functions, functions@[at].name) == Some(functions@[at]),
    decreases functions,
{
    if let List::Cons(first, rest) = functions {
        assert(functions@ == seq![list::held(&first)] + rest@);
        assert(functions@[0] == list::held(&first));
        if at > 0 {
            assert(functions@[at] == rest@[at - 1]);
            assert forall|i: int| 0 <= i < at - 1 implies (#[trigger] rest@[i]).name != rest@[at
                - 1].name by {
                assert(functions@[i + 1] == rest@[i]);
            }
            kernel_is_found(list::held(&rest), at - 1);
        }
    }
}

/// No function is found under a name that none has.
pub proof fn missing_kernel_is_not_found(functions: List<KernelItem>, name: Symbol)
    requires
        forall|i: int| 0 <= i < functions@.len() ==> (#[trigger] functions@[i]).name != name,
    ensures
        kernel::kernel_named(functions, name) is None,
    decreases functions,
{
    if let List::Cons(first, rest) = functions {
        assert(functions@ == seq![list::held(&first)] + rest@);
        assert(functions@[0] == list::held(&first));
        assert forall|i: int| 0 <= i < rest@.len() implies (#[trigger] rest@[i]).name != name by {
            assert(functions@[i + 1] == rest@[i]);
        }
        missing_kernel_is_not_found(list::held(&rest), name);
    }
}

/// The strides of a parameter are the last ones under its name.
pub proof fn last_strides_count(args: List<StrideArg>, at: int)
    requires
        0 <= at < args@.len(),
        forall|i: int| at < i < args@.len() ==> (#[trigger] args@[i]).name != args@[at].name,
    ensures
        kernel::strides_of(args, args@[at].name) == Some(args@[at].strides),
    decreases args,
{
    if let List::Cons(first, rest) = args {
        assert(args@ == seq![list::held(&first)] + rest@);
        assert(args@[0] == list::held(&first));
        if at > 0 {
            assert(args@[at] == rest@[at - 1]);
            assert forall|i: int| at - 1 < i < rest@.len() implies (#[trigger] rest@[i]).name
                != rest@[at - 1].name by {
                assert(args@[i + 1] == rest@[i]);
            }
            last_strides_count(list::held(&rest), at - 1);
        } else {
            assert forall|i: int| 0 <= i < rest@.len() implies (#[trigger] rest@[i]).name
                != first.name by {
                assert(args@[i + 1] == rest@[i]);
            }
            no_strides_are_found(list::held(&rest), first.name);
        }
    }
}

/// A name without strides has none.
pub proof fn no_strides_are_found(args: List<StrideArg>, name: Symbol)
    requires
        forall|i: int| 0 <= i < args@.len() ==> (#[trigger] args@[i]).name != name,
    ensures
        kernel::strides_of(args, name) is None,
    decreases args,
{
    if let List::Cons(first, rest) = args {
        assert(args@ == seq![list::held(&first)] + rest@);
        assert(args@[0] == list::held(&first));
        assert forall|i: int| 0 <= i < rest@.len() implies (#[trigger] rest@[i]).name != name by {
            assert(args@[i + 1] == rest@[i]);
        }
        no_strides_are_found(list::held(&rest), name);
    }
}

/// Every hint on a scalar keeps its name and its place, and its divisor is the lesser of its own and
/// the largest that is to be relied on; where no largest is named, hints are as they were.
pub proof fn hints_are_capped_in_place(hints: List<ScalarHint>, max: Option<i32>, i: int)
    requires
        0 <= i < hints@.len(),
    ensures
        kernel::capped_hints(hints, max)@.len() == hints@.len(),
        kernel::capped_hints(hints, max)@[i].name == hints@[i].name,
        max is None ==> kernel::capped_hints(hints, max)@[i] == hints@[i],
        max matches Some(max) ==> {
            let hint = kernel::capped_hints(hints, Some(max))@[i].hint;
            &&& hint.max == max
            &&& hint.divisor <= max
            &&& hint.divisor <= hints@[i].hint.divisor
            &&& hint.divisor == max || hint.divisor == hints@[i].hint.divisor
        },
    decreases hints,
{
    if let List::Cons(hint, rest) = hints {
        assert(hints@ == seq![list::held(&hint)] + rest@);
        let tail = kernel::capped_hints(list::held(&rest), max);
        assert(kernel::capped_hints(hints, max)@ == seq![
            kernel::capped_hint(list::held(&hint), max),
        ] + tail@);
        capped_hints_are_as_many(list::held(&rest), max);
        if i > 0 {
            hints_are_capped_in_place(list::held(&rest), max, i - 1);
            assert(hints@[i] == rest@[i - 1]);
            assert(kernel::capped_hints(hints, max)@[i] == tail@[i - 1]);
        }
    }
}

proof fn capped_hints_are_as_many(hints: List<ScalarHint>, max: Option<i32>)
    ensures
        kernel::capped_hints(hints, max)@.len() == hints@.len(),
    decreases hints,
{
    if let List::Cons(hint, rest) = hints {
        assert(hints@ == seq![list::held(&hint)] + rest@);
        capped_hints_are_as_many(list::held(&rest), max);
    }
}

/// The largest divisor is the one that the options name, or else the one that the hints name for
/// the device that is compiled for, or else none.
pub proof fn largest_divisor_is_the_options_or_the_devices(
    options: CompileOptions,
    hints: Hints,
    at: int,
)
    requires
        0 <= at < hints.targets@.len(),
        forall|i: int|
            0 <= i < at ==> (#[trigger] hints.targets@[i]).name != hints.targets@[at].name,
        hints.target == Some(hints.targets@[at].name),
    ensures
        options.max_divisibility is Some ==> kernel::largest_divisor(options, hints)
            == options.max_divisibility,
        options.max_divisibility is None ==> kernel::largest_divisor(options, hints)
            == hints.targets@[at].max_divisibility,
{
    target_is_found(hints.targets, at);
}

proof fn target_is_found(targets: List<TargetHints>, at: int)
    requires
        0 <= at < targets@.len(),
        forall|i: int| 0 <= i < at ==> (#[trigger] targets@[i]).name != targets@[at].name,
    ensures
        kernel::target_max(targets, targets@[at].name) == targets@[at].max_divisibility,
    decreases targets,
{
    if let List::Cons(first, rest) = targets {
        assert(targets@ == seq![list::held(&first)] + rest@);
        assert(targets@[0] == list::held(&first));
        if at > 0 {
            assert(targets@[at] == rest@[at - 1]);
            assert forall|i: int| 0 <= i < at - 1 implies (#[trigger] rest@[i]).name != rest@[at
                - 1].name by {
                assert(targets@[i + 1] == rest@[i]);
            }
            target_is_found(list::held(&rest), at - 1);
        }
    }
}

// The kernel.

/// A kernel is refused for the first reason that holds: its module is not there, its function is not
/// there, or the function is no kernel.
pub proof fn kernel_is_refused_for_a_reason(
    tape: List<Reply>,
    names: Names,
    program: Program,
    wanted: KernelRequest,
    at: int,
)
    ensures
        !program.modules@.contains(wanted.module_name) ==> dialogue::fails(
            kernel::kernel_for(tape, names, program, wanted),
            CompileError::UndefinedModule,
        ),
        program.modules@.contains(wanted.module_name) && (forall|i: int|
            0 <= i < program.functions@.len() ==> (#[trigger] program.functions@[i]).name
                != wanted.naming.public_name) ==> dialogue::fails(
            kernel::kernel_for(tape, names, program, wanted),
            CompileError::UndefinedFunction,
        ),
        program.modules@.contains(wanted.module_name) && 0 <= at < program.functions@.len()
            && program.functions@[at].name == wanted.naming.public_name && (forall|i: int|
            0 <= i < at ==> (#[trigger] program.functions@[i]).name
                != wanted.naming.public_name) && program.functions@[at].entry is None
            ==> dialogue::fails(
            kernel::kernel_for(tape, names, program, wanted),
            CompileError::MissingEntryAttribute,
        ),
{
    name_is_there(program.modules, wanted.module_name);
    if forall|i: int|
        0 <= i < program.functions@.len() ==> (#[trigger] program.functions@[i]).name
            != wanted.naming.public_name {
        missing_kernel_is_not_found(program.functions, wanted.naming.public_name);
    }
    if 0 <= at < program.functions@.len() && program.functions@[at].name
        == wanted.naming.public_name && (forall|i: int|
        0 <= i < at ==> (#[trigger] program.functions@[i]).name != wanted.naming.public_name) {
        kernel_is_found(program.functions, at);
    }
}

/// A name is in a list where one of its items is that name.
pub proof fn name_is_there(list: List<Symbol>, name: Symbol)
    ensures
        env::has_name(list, name) == list@.contains(name),
    decreases list,
{
    if let List::Cons(first, rest) = list {
        assert(list@ == seq![list::held(&first)] + rest@);
        assert(list@[0] == list::held(&first));
        name_is_there(list::held(&rest), name);
        if rest@.contains(name) {
            let k = rest@.index_of(name);
            assert(list@[k + 1] == name);
        }
        if list@.contains(name) {
            let k = list@.index_of(name);
            if k > 0 {
                assert(rest@[k - 1] == name);
            }
        }
    }
}

/// What the backend is asked for before a kernel is there, one thing after the other: what is proved
/// of the kernel, its hints, its generic names, its constants, its entry point. The kernel holds what
/// was asked for and what was replied.
pub proof fn kernel_is_prepared_step_by_step(
    names: Names,
    program: Program,
    wanted: KernelRequest,
    item: KernelItem,
    attrs: EntryAttrs,
    proved: u64,
    hints: Rc<Hints>,
    vars: Rc<GenericVars>,
    constants: Rc<Constants>,
    entry: Rc<FnItem>,
    validator: u64,
    rest: List<Reply>,
)
    requires
        kernel::refusal(program, wanted) is None,
        kernel::kernel_named(program.functions, wanted.naming.public_name) == Some(item),
        kernel::kernel_named(program.functions, wanted.naming.entry_name) is None,
        item.entry == Some(attrs),
        !attrs.unchecked_accesses || item.is_unsafe,
        !attrs.print_ir,
    ensures
        ({
            let bound = consts::with_module_consts(
                names,
                Bound { vars, constants },
                program.consts,
            );
            let one = dialogue::replied(Reply::Emitted(proved), dialogue::end());
            let two = dialogue::replied(
                Reply::Emitted(proved),
                dialogue::replied(Reply::Hints(hints), dialogue::end()),
            );
            let three = dialogue::replied(
                Reply::Emitted(proved),
                dialogue::replied(
                    Reply::Hints(hints),
                    dialogue::replied(Reply::Vars(vars), dialogue::end()),
                ),
            );
            let four = dialogue::replied(
                Reply::Emitted(proved),
                dialogue::replied(
                    Reply::Hints(hints),
                    dialogue::replied(
                        Reply::Vars(vars),
                        dialogue::replied(Reply::Constants(constants), dialogue::end()),
                    ),
                ),
            );
            let five = dialogue::replied(
                Reply::Emitted(proved),
                dialogue::replied(
                    Reply::Hints(hints),
                    dialogue::replied(
                        Reply::Vars(vars),
                        dialogue::replied(
                            Reply::Constants(constants),
                            dialogue::replied(Reply::Entry { item: entry, validator }, rest),
                        ),
                    ),
                ),
            );
            &&& dialogue::asks(
                kernel::kernel_for(dialogue::end(), names, program, wanted),
                Request::AnalyzeEntry(item.item),
            )
            &&& dialogue::asks(
                kernel::kernel_for(one, names, program, wanted),
                Request::Hints {
                    listed: attrs.hints,
                    gpu_name: wanted.gpu_name,
                    options: wanted.options,
                },
            )
            &&& dialogue::asks(
                kernel::kernel_for(two, names, program, wanted),
                Request::FlatGenerics { callable: item.item.id, args: wanted.generic_args },
            )
            &&& dialogue::asks(
                kernel::kernel_for(three, names, program, wanted),
                Request::Constants(vars),
            )
            &&& dialogue::asks(
                kernel::kernel_for(four, names, program, wanted),
                Request::GenerateEntry {
                    item: item.item,
                    generics: bound.vars,
                    strides: wanted.stride_args,
                    spec_args: wanted.spec_args,
                    scalar_hints: kernel::capped_hints(
                        wanted.scalar_hints,
                        kernel::largest_divisor(wanted.options, *hints),
                    ),
                    hints,
                },
            )
            &&& kernel::kernel_for(five, names, program, wanted) matches Ok((left, made)) && {
                &&& left == rest
                &&& made.module_name == wanted.module_name
                &&& made.function == item.item
                &&& made.entry == entry
                &&& made.validator == validator
                &&& made.const_grid == wanted.const_grid
                &&& made.gpu_name == wanted.gpu_name
                &&& made.hints == hints
                &&& made.stride_args == wanted.stride_args
                &&& made.generics == bound
                &&& made.consts == program.consts
                &&& made.typing == program.typing
                &&& made.entry_attrs == attrs
            }
        }),
{
}

/// A kernel whose accesses are to go unchecked, and that is not `unsafe`, is refused once it was
/// looked at; one whose entry point would take the name of a function is refused once its entry
/// point is there.
pub proof fn kernel_is_refused_on_the_way(
    names: Names,
    program: Program,
    wanted: KernelRequest,
    item: KernelItem,
    attrs: EntryAttrs,
    proved: u64,
    hints: Rc<Hints>,
    vars: Rc<GenericVars>,
    constants: Rc<Constants>,
    entry: Rc<FnItem>,
    validator: u64,
    rest: List<Reply>,
)
    requires
        kernel::refusal(program, wanted) is None,
        kernel::kernel_named(program.functions, wanted.naming.public_name) == Some(item),
        item.entry == Some(attrs),
    ensures
        attrs.unchecked_accesses && !item.is_unsafe ==> dialogue::fails(
            kernel::kernel_for(
                dialogue::replied(Reply::Emitted(proved), rest),
                names,
                program,
                wanted,
            ),
            CompileError::NotUnsafe,
        ),
        (!attrs.unchecked_accesses || item.is_unsafe) && kernel::kernel_named(
            program.functions,
            wanted.naming.entry_name,
        ) is Some ==> dialogue::fails(
            kernel::kernel_for(
                dialogue::replied(
                    Reply::Emitted(proved),
                    dialogue::replied(
                        Reply::Hints(hints),
                        dialogue::replied(
                            Reply::Vars(vars),
                            dialogue::replied(
                                Reply::Constants(constants),
                                dialogue::replied(Reply::Entry { item: entry, validator }, rest),
                            ),
                        ),
                    ),
                ),
                names,
                program,
                wanted,
            ),
            CompileError::NameCollision,
        ),
{
}

// Parameters of the entry point.

/// Whether the first replies are compiled types.
pub open spec fn replies_are_types(tape: List<Reply>, tiles: Seq<Rc<TileType>>) -> bool {
    &&& tape@.len() >= tiles.len()
    &&& forall|i: int|
        0 <= i < tiles.len() ==> #[trigger] tape@[i] == Reply::CompiledType(Some(tiles[i]))
}

/// The type that carries the strides of the parameter in a place, where it has a name with strides.
pub open spec fn strides_at(
    strides: List<StrideArg>,
    names: List<Symbol>,
    i: int,
) -> Option<Rc<Type>> {
    if i < names@.len() {
        match kernel::strides_of(strides, names@[i]) {
            Some(own) => Some(
                Rc::new(types::shaped_type(names::ARRAY, exprs::dim_exprs(own))),
            ),
            None => None,
        }
    } else {
        None
    }
}

/// The types of parameters are compiled in their order, each with the strides under its own name.
pub proof fn parameters_are_compiled_in_order(
    tape: List<Reply>,
    generics: Rc<GenericVars>,
    strides: List<StrideArg>,
    names: List<Symbol>,
    types: List<Type>,
    at: usize,
    tiles: Seq<Rc<TileType>>,
)
    requires
        replies_are_types(tape, tiles),
        tiles.len() <= types@.len(),
    ensures
        tiles.len() == types@.len() ==> (kernel::param_types(
            tape,
            generics,
            strides,
            names,
            types,
            at,
        ) matches Ok((left, found)) && {
            &&& found@.len() == types@.len()
            &&& forall|i: int| 0 <= i < types@.len() ==> #[trigger] found@[i] == *tiles[i]
            &&& left@ == tape@.skip(types@.len() as int)
        }),
        tiles.len() < types@.len() && tape@.len() == tiles.len() ==> dialogue::asks(
            kernel::param_types(tape, generics, strides, names, types, at),
            Request::CompileParam {
                ty: Rc::new(types@[tiles.len() as int]),
                generics,
                strides: strides_at(strides, names, tiles.len() as int),
            },
        ),
    decreases types,
{
    if let List::Cons(ty, rest) = types {
        assert(types@ == seq![list::held(&ty)] + rest@);
        assert(types@[0] == list::held(&ty));
        if let List::Cons(name, more) = names {
            assert(names@ == seq![list::held(&name)] + more@);
            assert(names@[0] == list::held(&name));
        }
        if tiles.len() > 0 {
            if let List::Cons(reply, later) = tape {
                assert(tape@ == seq![list::held(&reply)] + later@);
                assert(tape@[0] == list::held(&reply));
                let more = tiles.skip(1);
                assert forall|i: int| 0 <= i < more.len() implies #[trigger] later@[i]
                    == Reply::CompiledType(Some(more[i])) by {
                    assert(tape@[i + 1] == later@[i]);
                }
                parameters_are_compiled_in_order(
                    list::held(&later),
                    generics,
                    strides,
                    calls::behind(names),
                    list::held(&rest),
                    calls::after(at),
                    more,
                );
                if tiles.len() == types@.len() {
                    let (left, found) = kernel::param_types(
                        tape,
                        generics,
                        strides,
                        names,
                        types,
                        at,
                    )->Ok_0;
                    let (_, tail) = kernel::param_types(
                        list::held(&later),
                        generics,
                        strides,
                        calls::behind(names),
                        list::held(&rest),
                        calls::after(at),
                    )->Ok_0;
                    assert(found@ == seq![list::held(&tiles[0])] + tail@);
                    assert forall|i: int| 0 <= i < types@.len() implies #[trigger] found@[i]
                        == *tiles[i] by {
                        if i > 0 {
                            assert(found@[i] == tail@[i - 1]);
                        }
                    }
                    assert(left@ =~= tape@.skip(types@.len() as int));
                } else {
                    let k = tiles.len() as int;
                    assert(types@[k] == rest@[k - 1]);
                    if let List::Cons(name, after) = names {
                        assert(calls::behind(names)@ == after@);
                        if k < names@.len() {
                            assert(names@[k] == after@[k - 1]);
                        }
                    }
                }
            }
        } else if tape@.len() == 0 {
            if let List::Cons(reply, later) = tape {
                assert(tape@ == seq![list::held(&reply)] + later@);
            }
        }
    } else {
        assert(tape@.skip(0) =~= tape@);
    }
}

/// Inference of an entry point starts with each parameter of the type in its place.
pub proof fn parameters_are_typed_in_order(
    names: List<Symbol>,
    types: List<TileType>,
    i: int,
)
    requires
        dialogue::are_different(names),
        names@.len() == types@.len(),
        0 <= i < names@.len(),
    ensures
        typing::type_table(kernel::paired(names, types)).contains_key(names@[i]),
        *typing::type_table(kernel::paired(names, types))[names@[i]] == types@[i],
    decreases names,
{
    if let List::Cons(name, more) = names {
        let after = types->Cons_1;
        assert(names@ == seq![list::held(&name)] + more@);
        assert(names@[0] == list::held(&name));
        assert(types@ == seq![list::held(&types->Cons_0)] + after@);
        if i > 0 {
            assert forall|a: int, b: int| 0 <= a < b < more@.len() implies #[trigger] more@[a]
                != #[trigger] more@[b] by {
                assert(names@[a + 1] == more@[a]);
                assert(names@[b + 1] == more@[b]);
            }
            assert(names@[i] == more@[i - 1]);
            assert(types@[i] == after@[i - 1]);
            parameters_are_typed_in_order(list::held(&more), list::held(&after), i - 1);
        }
    }
}

/// A table of types holds the first entry of a name.
pub proof fn first_entry_counts(names: List<TypedName>, at: int)
    requires
        0 <= at < names@.len(),
        forall|i: int| 0 <= i < at ==> (#[trigger] names@[i]).name != names@[at].name,
    ensures
        typing::type_table(names).contains_key(names@[at].name),
        typing::type_table(names)[names@[at].name] == names@[at].ty,
    decreases names,
{
    if let List::Cons(first, rest) = names {
        assert(names@ == seq![list::held(&first)] + rest@);
        assert(names@[0] == list::held(&first));
        if at > 0 {
            assert(names@[at] == rest@[at - 1]);
            assert forall|i: int| 0 <= i < at - 1 implies (#[trigger] rest@[i]).name != rest@[at
                - 1].name by {
                assert(names@[i + 1] == rest@[i]);
            }
            first_entry_counts(list::held(&rest), at - 1);
        }
    }
}

// The entry point.

proof fn types_ask_for_no_body(
    tape: List<Reply>,
    names: List<Symbol>,
    types: List<TileType>,
    generics: Bound,
)
    ensures
        !inlining::asks_for_a_body(kernel::initial_types(tape, names, types, generics)),
{
    let constants = list::held(&generics.constants);
    let known = kernel::paired(names, types);
    int_types_ask_for_no_body(tape, generics.vars, known, constants.ints);
    if let Ok((tape2, known2)) = kernel::with_int_types(
        tape,
        generics.vars,
        known,
        constants.ints,
    ) {
        bool_types_ask_for_no_body(tape2, generics.vars, known2, constants.bools);
        if let Ok((tape3, known3)) = kernel::with_bool_types(
            tape2,
            generics.vars,
            known2,
            constants.bools,
        ) {
            array_types_ask_for_no_body(tape3, generics.vars, known3, constants.arrays);
        }
    }
}

proof fn int_types_ask_for_no_body(
    tape: List<Reply>,
    generics: Rc<GenericVars>,
    known: List<TypedName>,
    ints: List<IntConst>,
)
    ensures
        !inlining::asks_for_a_body(kernel::with_int_types(tape, generics, known, ints)),
    decreases ints,
{
    if let List::Cons(item, rest) = ints {
        if let Ok((tape2, known2)) = kernel::with_type(
            tape,
            generics,
            known,
            item.name,
            scalar::named_type(names::I32),
            ConstKind::Number,
        ) {
            int_types_ask_for_no_body(tape2, generics, known2, list::held(&rest));
        }
    }
}

proof fn bool_types_ask_for_no_body(
    tape: List<Reply>,
    generics: Rc<GenericVars>,
    known: List<TypedName>,
    bools: List<BoolConst>,
)
    ensures
        !inlining::asks_for_a_body(kernel::with_bool_types(tape, generics, known, bools)),
    decreases bools,
{
    if let List::Cons(item, rest) = bools {
        if let Ok((tape2, known2)) = kernel::with_type(
            tape,
            generics,
            known,
            item.name,
            scalar::named_type(names::BOOL),
            ConstKind::Bool,
        ) {
            bool_types_ask_for_no_body(tape2, generics, known2, list::held(&rest));
        }
    }
}

proof fn array_types_ask_for_no_body(
    tape: List<Reply>,
    generics: Rc<GenericVars>,
    known: List<TypedName>,
    arrays: List<ArrayConst>,
)
    ensures
        !inlining::asks_for_a_body(kernel::with_array_types(tape, generics, known, arrays)),
    decreases arrays,
{
    if let List::Cons(item, rest) = arrays {
        if let Ok((tape2, known2)) = kernel::with_type(
            tape,
            generics,
            known,
            item.name,
            consts::int_array_type(exprs::length(list::held(&item).dims)),
            ConstKind::Array,
        ) {
            array_types_ask_for_no_body(tape2, generics, known2, list::held(&rest));
        }
    }
}

/// The body of an entry point is compiled in the scope that its parameters are bound in, with the
/// one difference that it returns at its end, and with nothing expected of it.
pub proof fn entry_body_is_compiled_in_its_scope(
    tape: List<Reply>,
    own: CUDATileFunctionCompiler,
    params: List<TileType>,
    initial: List<TypedName>,
    scope: Context,
)
    requires
        inlining::asks_for_a_body(kernel::entry_body(tape, own, params, initial, scope)),
    ensures
        kernel::entry_body(tape, own, params, initial, scope) matches Err(
            Halt::Perform(
                Request::CompileBlock { body: _, generics, scope: inside, expected, results: _ },
            ),
        ) && inside.vars == scope.vars && inside.modules == scope.modules && inside.returns_at_end
            && generics == own.generics.vars && expected is None,
{
    if let Ok((rest, numbered)) = tape::item_reply(
        tape,
        Request::Number { item: own.entry, at_call: false },
    ) {
        typing::only_answers_are_asked(
            rest,
            typing::env_for(list::held(&own.typing), own.generics.vars),
            typing::Body { impl_item: None, item: numbered },
            typing::type_table(initial),
        );
    }
}

/// The block of an entry point is asked for with one argument of each parameter's type, in their
/// order, in the module that the entry point is compiled into.
pub proof fn entry_block_has_an_argument_of_each_type(
    tape: List<Reply>,
    own: CUDATileFunctionCompiler,
    module: u64,
    tiles: Seq<Rc<TileType>>,
)
    requires
        replies_are_types(tape, tiles),
        tape@.len() == tiles.len(),
        tiles.len() == own.entry.param_types@.len(),
    ensures
        kernel::entry_compiled(tape, own, module) matches Err(
            Halt::Perform(Request::OpenEntry { module: into, params }),
        ) && into == module && params@.len() == tiles.len() && forall|i: int|
            0 <= i < tiles.len() ==> #[trigger] params@[i] == *tiles[i],
{
    let item = list::held(&own.entry);
    parameters_are_compiled_in_order(
        tape,
        own.generics.vars,
        own.stride_args,
        item.param_names,
        item.param_types,
        0,
        tiles,
    );
    let (left, found) = kernel::param_types(
        tape,
        own.generics.vars,
        own.stride_args,
        item.param_names,
        item.param_types,
        0,
    )->Ok_0;
    assert(left@.len() == 0);
    if let List::Cons(reply, later) = left {
        assert(left@ == seq![list::held(&reply)] + later@);
    }
}

/// The body of an entry point is compiled where each parameter stands for the argument of the entry
/// block in its place: the first parameter for the first argument, and so on, each of the type that
/// the backend gave for it.
pub proof fn entry_body_sees_its_block_arguments(
    tape: List<Reply>,
    own: CUDATileFunctionCompiler,
    module: u64,
    tiles: Seq<Rc<TileType>>,
    handles: List<u64>,
    i: int,
)
    requires
        replies_are_types(tape, tiles),
        tiles.len() == own.entry.param_types@.len(),
        tape@.len() > tiles.len(),
        tape@[tiles.len() as int] == Reply::Arguments(handles),
        handles@.len() == tiles.len(),
        own.entry.param_names@.len() == tiles.len(),
        own.entry.param_mutable@.len() == tiles.len(),
        dialogue::are_different(own.entry.param_names),
        0 <= i < tiles.len(),
        inlining::no_int_is_named(own.generics.constants.ints, own.entry.param_names@[i]),
        inlining::no_bool_is_named(own.generics.constants.bools, own.entry.param_names@[i]),
        own.generics.constants.arrays is Nil,
        inlining::asks_for_a_body(kernel::entry_compiled(tape, own, module)),
    ensures
        value::value_of(
            inlining::scope_of_body(kernel::entry_compiled(tape, own, module)).vars,
            own.entry.param_names@[i],
        ) matches Some(val) && {
            &&& val.handle == handles@[i]
            &&& *val.ty == *tiles[i]
            &&& val.mutable == own.entry.param_mutable@[i]
        },
        inlining::scope_of_body(kernel::entry_compiled(tape, own, module)).returns_at_end,
{
    let item = list::held(&own.entry);
    parameters_are_compiled_in_order(
        tape,
        own.generics.vars,
        own.stride_args,
        item.param_names,
        item.param_types,
        0,
        tiles,
    );
    let (left, params) = kernel::param_types(
        tape,
        own.generics.vars,
        own.stride_args,
        item.param_names,
        item.param_types,
        0,
    )->Ok_0;
    assert(left@[0] == tape@[tiles.len() as int]);
    if let List::Cons(reply, after) = left {
        assert(left@ == seq![list::held(&reply)] + after@);
        assert(left@[0] == list::held(&reply));
        let rest = list::held(&after);
        let scope = kernel::entry_scope(
            kernel::empty_scope(),
            item.param_names,
            handles,
            params,
            item.param_mutable,
        );
        dialogue::entry_parameter_is_its_block_argument(
            kernel::empty_scope(),
            item.param_names,
            handles,
            params,
            item.param_mutable,
            i,
        );
        assert(params@[i] == *tiles[i]);
        types_ask_for_no_body(rest, item.param_names, params, own.generics);
        if let Ok((tape3, initial)) = kernel::initial_types(
            rest,
            item.param_names,
            params,
            own.generics,
        ) {
            inlining::constants_leave_other_names(
                tape3,
                own.generics.vars,
                own.generics.vars,
                list::held(&own.generics.constants),
                scope,
                item.param_names@[i],
            );
            if let Ok((tape4, inner)) = consts::with_constants(
                tape3,
                own.generics.vars,
                own.generics.vars,
                list::held(&own.generics.constants),
                scope,
            ) {
                entry_body_is_compiled_in_its_scope(tape4, own, params, initial, inner);
            }
        }
    }
}

/// A body of an entry point that gives a value is refused; one that gives none is closed under the
/// entry point's name, with its parameters' types and its hints.
pub proof fn entry_is_closed(
    tape: List<Reply>,
    own: CUDATileFunctionCompiler,
    params: List<TileType>,
    initial: List<TypedName>,
    scope: Context,
    numbered: Rc<FnItem>,
    later: List<Reply>,
    found: ResultsView,
    lowered: Rc<FnItem>,
    inside: Rc<Context>,
    val: Rc<Value>,
    handle: u64,
    rest: List<Reply>,
)
    requires
        tape::item_reply(tape, Request::Number { item: own.entry, at_call: false }) == Ok::<
            (List<Reply>, Rc<FnItem>),
            Halt<ResultsView>,
        >((later, numbered)),
        typing::body_types(
            later,
            *own.typing,
            own.generics.vars,
            typing::Body { impl_item: None, item: numbered },
            initial,
        ) matches Ok((left, types)) && types == found && (left == dialogue::replied(
            Reply::Item(lowered),
            dialogue::replied(Reply::Compiled { value: Some(val), scope: inside }, rest),
        ) || left == dialogue::replied(
            Reply::Item(lowered),
            dialogue::replied(Reply::Compiled { value: None, scope: inside }, dialogue::end()),
        ) || left == dialogue::replied(
            Reply::Item(lowered),
            dialogue::replied(
                Reply::Compiled { value: None, scope: inside },
                dialogue::replied(Reply::Emitted(handle), rest),
            ),
        )),
    ensures
        ({
            let left = typing::body_types(
                later,
                *own.typing,
                own.generics.vars,
                typing::Body { impl_item: None, item: numbered },
                initial,
            )->Ok_0.0;
            let run = kernel::entry_body(tape, own, params, initial, scope);
            &&& left == dialogue::replied(
                Reply::Item(lowered),
                dialogue::replied(Reply::Compiled { value: Some(val), scope: inside }, rest),
            ) ==> dialogue::fails(run, CompileError::ReturnsValue(Place::Body))
            &&& left == dialogue::replied(
                Reply::Item(lowered),
                dialogue::replied(
                    Reply::Compiled { value: None, scope: inside },
                    dialogue::end(),
                ),
            ) ==> dialogue::asks(
                run,
                Request::CloseEntry { name: own.entry.name, params, hints: own.hints },
            )
            &&& left == dialogue::replied(
                Reply::Item(lowered),
                dialogue::replied(
                    Reply::Compiled { value: None, scope: inside },
                    dialogue::replied(Reply::Emitted(handle), rest),
                ),
            ) ==> dialogue::ends(run, rest, handle)
        }),
{
}

/// The module of a kernel is made under the kernel's module name, gets all statics, then the entry
/// point, and is what the compilation gives.
pub proof fn module_is_made_step_by_step(
    own: CUDATileFunctionCompiler,
    module: u64,
    tape: List<Reply>,
    left: List<Reply>,
    entry: u64,
    rest: List<Reply>,
)
    requires
        kernel::entry_compiled(tape, own, module) == Ok::<(List<Reply>, u64), Halt<ResultsView>>(
            (left, entry),
        ),
    ensures
        ({
            let started = dialogue::replied(
                Reply::Emitted(module),
                dialogue::replied(Reply::Done, tape),
            );
            &&& dialogue::asks(
                kernel::module_compiled(dialogue::end(), own),
                Request::NewModule(own.module_name),
            )
            &&& dialogue::asks(
                kernel::module_compiled(
                    dialogue::replied(Reply::Emitted(module), dialogue::end()),
                    own,
                ),
                Request::EmitGlobals(module),
            )
            &&& left == dialogue::end() ==> dialogue::asks(
                kernel::module_compiled(started, own),
                Request::PushEntry { module, entry },
            )
            &&& left == dialogue::replied(Reply::Done, rest) ==> dialogue::ends(
                kernel::module_compiled(started, own),
                rest,
                module,
            )
        }),
{
}

} // verus!
