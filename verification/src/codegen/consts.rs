//! Constants: their bytes, and the constants that a body sees as names.
use crate::codegen::tape::{
    self, ArrayConst, BoolConst, CompileError, ConstKind, Constants, Halt, IntConst, Place, Reply,
    Request, Run, ScalarType, Tape,
};
use crate::codegen::value::{self, Bounds, Context, Value};
use crate::env::{self, contains_name, GenericVars, IntVar, TileType};
use crate::exprs::{self, dim_literals};
use crate::list::{share, List};
use crate::names::{self, Names};
use crate::scalar::{self, bare_type};
use crate::syntax::{Expr, ExprKind, Lit, Symbol, Type};
use std::rc::Rc;
use vstd::prelude::*;

verus! {

// Bytes.

/// A number's bits as two's complement of 64 bits.
pub open spec fn bits_of(value: i64) -> nat {
    if value >= 0 {
        value as nat
    } else {
        (value + 0x1_0000_0000_0000_0000) as nat
    }
}

/// The lowest bytes of a number, the lowest first.
pub open spec fn low_bytes(bits: nat, count: nat) -> List<u8>
    decreases count,
{
    if count == 0 {
        List::Nil
    } else {
        List::Cons(
            Rc::new((bits % 256) as u8),
            Rc::new(low_bytes(bits / 256, (count - 1) as nat)),
        )
    }
}

/// The number whose lowest bytes these are.
pub open spec fn number_of(bytes: List<u8>) -> nat
    decreases bytes,
{
    match bytes {
        List::Nil => 0,
        List::Cons(byte, rest) => *byte as nat + 256 * number_of(*rest),
    }
}

/// The number of values that so many bytes hold.
pub open spec fn values_of(count: nat) -> nat
    decreases count,
{
    if count == 0 {
        1
    } else {
        256 * values_of((count - 1) as nat)
    }
}

/// Bytes read back as the number that they were taken from, as far as they hold it.
pub proof fn bytes_read_back(bits: nat, count: nat)
    ensures
        low_bytes(bits, count)@.len() == count,
        bits < values_of(count) ==> number_of(low_bytes(bits, count)) == bits,
    decreases count,
{
    if count > 0 {
        bytes_read_back(bits / 256, (count - 1) as nat);
    }
}

fn write_low_bytes(bits: u64, count: u64) -> (r: List<u8>)
    ensures
        r == low_bytes(bits as nat, count as nat),
    decreases count,
{
    if count == 0 {
        List::Nil
    } else {
        List::prepend(Rc::new((bits % 256) as u8), write_low_bytes(bits / 256, count - 1))
    }
}

/// The bytes of a constant of a scalar that is no floating-point number of 16 bits or more.
pub open spec fn integer_bytes(scalar: ScalarType, value: i64) -> List<u8> {
    match scalar {
        ScalarType::I1 => low_bytes(
            if value != 0 {
                0xFF
            } else {
                0
            },
            1,
        ),
        ScalarType::I4 | ScalarType::F4E2M1FN => low_bytes(bits_of(value) % 16, 1),
        ScalarType::I8 | ScalarType::F8E4M3FN | ScalarType::F8E5M2 | ScalarType::F8E8M0FNU => {
            low_bytes(bits_of(value), 1)
        },
        ScalarType::I16 => low_bytes(bits_of(value), 2),
        ScalarType::I64 => low_bytes(bits_of(value), 8),
        _ => low_bytes(bits_of(value), 4),
    }
}

/// Whether a constant of the scalar is a rounded floating-point number.
pub open spec fn is_float(scalar: ScalarType) -> bool {
    scalar is F16 || scalar is BF16 || scalar is F32 || scalar is F64
}

/// The bytes of a constant; those of a floating-point number are asked for.
pub open spec fn constant_bytes(
    tape: List<Reply>,
    scalar: ScalarType,
    value: i64,
) -> Run<List<u8>> {
    if is_float(scalar) {
        tape::bytes_reply(tape, Request::FloatBytes { scalar, value })
    } else {
        Ok((tape, integer_bytes(scalar, value)))
    }
}

pub fn encode_integer(scalar: ScalarType, value: i64) -> (r: List<u8>)
    ensures
        r == integer_bytes(scalar, value),
{
    let bits = value as u64;
    assert(bits as nat == bits_of(value)) by {
        assert(value >= 0 ==> value as u64 == value) by (bit_vector);
        assert(value < 0 ==> value as u64 == value + 0x1_0000_0000_0000_0000) by (bit_vector);
    }
    match scalar {
        ScalarType::I1 => write_low_bytes(
            if value != 0 {
                0xFF
            } else {
                0
            },
            1,
        ),
        ScalarType::I4 => write_low_bytes(bits % 16, 1),
        ScalarType::F4E2M1FN => write_low_bytes(bits % 16, 1),
        ScalarType::I8 => write_low_bytes(bits, 1),
        ScalarType::F8E4M3FN => write_low_bytes(bits, 1),
        ScalarType::F8E5M2 => write_low_bytes(bits, 1),
        ScalarType::F8E8M0FNU => write_low_bytes(bits, 1),
        ScalarType::I16 => write_low_bytes(bits, 2),
        ScalarType::I64 => write_low_bytes(bits, 8),
        _ => write_low_bytes(bits, 4),
    }
}

/// A constant of 64 bits reads back as itself.
pub proof fn wide_constant_reads_back(value: i64)
    ensures
        number_of(integer_bytes(ScalarType::I64, value)) == bits_of(value),
{
    bytes_read_back(bits_of(value), 8);
    assert(values_of(8) == 0x1_0000_0000_0000_0000) by {
        reveal_with_fuel(values_of, 9);
    }
}

fn encode_constant(tape: &mut Tape, scalar: ScalarType, value: i64) -> (r: Result<List<u8>, Halt>)
    ensures
        tape::follows(r, final(tape).left, constant_bytes(old(tape).left, scalar, value)),
{
    let float = match scalar {
        ScalarType::F16 => true,
        ScalarType::BF16 => true,
        ScalarType::F32 => true,
        ScalarType::F64 => true,
        _ => false,
    };
    if float {
        tape.ask_bytes(Request::FloatBytes { scalar, value })
    } else {
        Ok(encode_integer(scalar, value))
    }
}

// Values of constants.

/// The value that a constant becomes.
pub open spec fn constant_value(handle: u64, ty: Rc<TileType>, bounds: Bounds) -> Value {
    Value {
        handle,
        ty,
        mutable: false,
        variant: None,
        payload: None,
        meta: 0,
        bounds: Some(bounds),
    }
}

/// A constant from the bounds of a number that is known.
pub open spec fn constant_from_bounds(
    tape: List<Reply>,
    bounds: Bounds,
    ty: Rc<TileType>,
) -> Run<Rc<Value>> {
    if bounds.start != bounds.end {
        Err(Halt::Failed(CompileError::NotConstant { place: Place::OfType, bounds }))
    } else {
        match tape::scalar_reply(tape, Request::ScalarOf(ty)) {
            Err(halt) => Err(halt),
            Ok((_, None)) => Err(Halt::Failed(CompileError::NotScalar(Place::OfType))),
            Ok((tape, Some(scalar))) => match constant_bytes(tape, scalar, bounds.start) {
                Err(halt) => Err(halt),
                Ok((tape, data)) => match tape::emitted_reply(
                    tape,
                    Request::EmitConstant { scalar, data, ty },
                ) {
                    Err(halt) => Err(halt),
                    Ok((tape, handle)) => Ok((tape, Rc::new(constant_value(handle, ty, bounds)))),
                },
            },
        }
    }
}

pub fn compile_constant_from_exact_bounds(
    tape: &mut Tape,
    bounds: Bounds,
    ty: &Rc<TileType>,
) -> (r: Result<Rc<Value>, Halt>)
    ensures
        tape::follows(r, final(tape).left, constant_from_bounds(old(tape).left, bounds, *ty)),
{
    if !bounds.is_exact() {
        return Err(Halt::Failed(CompileError::NotConstant { place: Place::OfType, bounds }));
    }
    let scalar = match tape.ask_scalar(Request::ScalarOf(share(ty)))? {
        Some(scalar) => scalar,
        None => return Err(Halt::Failed(CompileError::NotScalar(Place::OfType))),
    };
    let data = encode_constant(tape, scalar, bounds.start)?;
    let handle = tape.ask_emitted(Request::EmitConstant { scalar, data, ty: share(ty) })?;
    Ok(
        Rc::new(
            Value {
                handle,
                ty: share(ty),
                mutable: false,
                variant: None,
                payload: None,
                meta: 0,
                bounds: Some(bounds),
            },
        ),
    )
}

/// What a constant of a scalar type is.
pub open spec fn constant_kind(ty: Symbol) -> ConstKind {
    if ty == names::BOOL {
        ConstKind::Bool
    } else {
        ConstKind::Number
    }
}

/// A constant of a scalar type.
pub open spec fn constant(
    tape: List<Reply>,
    generics: Rc<GenericVars>,
    ty: Symbol,
    value: i64,
) -> Run<Rc<Value>> {
    match tape::type_reply(
        tape,
        Request::CompileType { ty: Rc::new(scalar::named_type(ty)), generics, params: List::Nil },
    ) {
        Err(halt) => Err(halt),
        Ok((_, None)) => Err(
            Halt::Failed(
                CompileError::UncompiledConstType { place: Place::OfType, kind: constant_kind(ty) },
            ),
        ),
        Ok((tape, Some(tile))) => constant_from_bounds(
            tape,
            Bounds { start: value, end: value },
            tile,
        ),
    }
}

pub fn compile_constant(
    tape: &mut Tape,
    generics: &Rc<GenericVars>,
    ty: Symbol,
    value: i64,
) -> (r: Result<Rc<Value>, Halt>)
    ensures
        tape::follows(r, final(tape).left, constant(old(tape).left, *generics, ty, value)),
{
    let request = Request::CompileType {
        ty: bare_type(ty),
        generics: share(generics),
        params: List::Nil,
    };
    match tape.ask_type(request)? {
        Some(tile) => compile_constant_from_exact_bounds(tape, Bounds::exact(value), &tile),
        None => {
            let kind = if ty == names::BOOL {
                ConstKind::Bool
            } else {
                ConstKind::Number
            };
            Err(Halt::Failed(CompileError::UncompiledConstType { place: Place::OfType, kind }))
        },
    }
}

/// The number that a truth value is as a constant.
pub open spec fn bool_number(value: bool) -> i64 {
    if value {
        1
    } else {
        0
    }
}

pub fn compile_bool_constant(
    tape: &mut Tape,
    generics: &Rc<GenericVars>,
    value: bool,
) -> (r: Result<Rc<Value>, Halt>)
    ensures
        tape::follows(
            r,
            final(tape).left,
            constant(old(tape).left, *generics, names::BOOL, bool_number(value)),
        ),
{
    let number = if value {
        1
    } else {
        0
    };
    compile_constant(tape, generics, names::BOOL, number)
}

// Constants as names.

/// The scope with integer constants bound to their names.
pub open spec fn with_ints(
    tape: List<Reply>,
    generics: Rc<GenericVars>,
    scope: Context,
    ints: List<IntConst>,
) -> Run<Context>
    decreases ints,
{
    match ints {
        List::Nil => Ok((tape, scope)),
        List::Cons(item, rest) => match constant(tape, generics, names::I32, item.value as i64) {
            Err(halt) => Err(halt),
            Ok((tape, val)) => with_ints(
                tape,
                generics,
                value::binding(scope, item.name, val),
                *rest,
            ),
        },
    }
}

fn bind_ints(
    tape: &mut Tape,
    generics: &Rc<GenericVars>,
    scope: Context,
    ints: &List<IntConst>,
) -> (r: Result<Context, Halt>)
    ensures
        tape::follows(r, final(tape).left, with_ints(old(tape).left, *generics, scope, *ints)),
    decreases ints,
{
    match ints {
        List::Nil => Ok(scope),
        List::Cons(item, rest) => {
            let val = compile_constant(tape, generics, names::I32, item.value as i64)?;
            let mut scope = scope;
            scope.insert(item.name, val);
            bind_ints(tape, generics, scope, rest)
        },
    }
}

/// The scope with truth values bound to their names.
pub open spec fn with_bools(
    tape: List<Reply>,
    generics: Rc<GenericVars>,
    scope: Context,
    bools: List<BoolConst>,
) -> Run<Context>
    decreases bools,
{
    match bools {
        List::Nil => Ok((tape, scope)),
        List::Cons(item, rest) => match constant(
            tape,
            generics,
            names::BOOL,
            bool_number(item.value),
        ) {
            Err(halt) => Err(halt),
            Ok((tape, val)) => with_bools(
                tape,
                generics,
                value::binding(scope, item.name, val),
                *rest,
            ),
        },
    }
}

fn bind_bools(
    tape: &mut Tape,
    generics: &Rc<GenericVars>,
    scope: Context,
    bools: &List<BoolConst>,
) -> (r: Result<Context, Halt>)
    ensures
        tape::follows(r, final(tape).left, with_bools(old(tape).left, *generics, scope, *bools)),
    decreases bools,
{
    match bools {
        List::Nil => Ok(scope),
        List::Cons(item, rest) => {
            let val = compile_bool_constant(tape, generics, item.value)?;
            let mut scope = scope;
            scope.insert(item.name, val);
            bind_bools(tape, generics, scope, rest)
        },
    }
}

/// The array literal of numbers.
pub open spec fn array_literal(dims: List<i32>) -> Expr {
    Expr { id: None, kind: ExprKind::Array(exprs::dim_exprs(dims)) }
}

/// The type of an array of so many `i32`.
pub open spec fn int_array_type(count: usize) -> Type {
    Type::Array {
        elem: Rc::new(scalar::named_type(names::I32)),
        len: Rc::new(exprs::plain_expr(count as u128)),
    }
}

pub fn int_array(count: usize) -> (r: Rc<Type>)
    ensures
        *r == int_array_type(count),
{
    let len = Rc::new(
        Expr {
            id: None,
            kind: ExprKind::Lit {
                lit: Lit::Int { value: Some(count as u128), spelling: None, suffix: None },
                ty: None,
            },
        },
    );
    Rc::new(Type::Array { elem: bare_type(names::I32), len })
}

/// The scope with arrays bound to their names; what an array's items are compiled in is the scope
/// itself.
pub open spec fn with_arrays(
    tape: List<Reply>,
    generics: Rc<GenericVars>,
    scope: Context,
    arrays: List<ArrayConst>,
) -> Run<Context>
    decreases arrays,
{
    match arrays {
        List::Nil => Ok((tape, scope)),
        List::Cons(item, rest) => match tape::type_reply(
            tape,
            Request::CompileType {
                ty: Rc::new(int_array_type(exprs::length(item.dims))),
                generics,
                params: List::Nil,
            },
        ) {
            Err(halt) => Err(halt),
            Ok((tape, expected)) => match tape::value_reply(
                tape,
                Request::CompileExpr {
                    expr: Rc::new(array_literal(item.dims)),
                    generics,
                    scope: Rc::new(scope),
                    expected,
                },
            ) {
                Err(halt) => Err(halt),
                Ok((_, (None, _))) => Err(
                    Halt::Failed(CompileError::UncompiledArray(Place::Nowhere)),
                ),
                Ok((tape, (Some(val), scope))) => with_arrays(
                    tape,
                    generics,
                    value::binding(*scope, item.name, val),
                    *rest,
                ),
            },
        },
    }
}

fn bind_arrays(
    tape: &mut Tape,
    generics: &Rc<GenericVars>,
    scope: Context,
    arrays: &List<ArrayConst>,
) -> (r: Result<Context, Halt>)
    ensures
        tape::follows(r, final(tape).left, with_arrays(old(tape).left, *generics, scope, *arrays)),
    decreases arrays,
{
    match arrays {
        List::Nil => Ok(scope),
        List::Cons(item, rest) => {
            let request = Request::CompileType {
                ty: int_array(item.dims.count()),
                generics: share(generics),
                params: List::Nil,
            };
            let expected = tape.ask_type(request)?;
            let request = Request::CompileExpr {
                expr: Rc::new(Expr { id: None, kind: ExprKind::Array(dim_literals(&item.dims)) }),
                generics: share(generics),
                scope: Rc::new(scope),
                expected,
            };
            match tape.ask_value(request)? {
                (None, _) => Err(Halt::Failed(CompileError::UncompiledArray(Place::Nowhere))),
                (Some(val), scope) => {
                    let mut scope = scope.dup();
                    scope.insert(item.name, val);
                    bind_arrays(tape, generics, scope, rest)
                },
            }
        },
    }
}

/// The scope with all constants bound: integers, then truth values, then arrays. Single constants
/// are compiled under one set of generic names, arrays under another.
pub open spec fn with_constants(
    tape: List<Reply>,
    outer: Rc<GenericVars>,
    generics: Rc<GenericVars>,
    constants: Constants,
    scope: Context,
) -> Run<Context> {
    match with_ints(tape, outer, scope, constants.ints) {
        Err(halt) => Err(halt),
        Ok((tape, scope)) => match with_bools(tape, outer, scope, constants.bools) {
            Err(halt) => Err(halt),
            Ok((tape, scope)) => with_arrays(tape, generics, scope, constants.arrays),
        },
    }
}

pub fn bind_constants(
    tape: &mut Tape,
    outer: &Rc<GenericVars>,
    generics: &Rc<GenericVars>,
    constants: &Constants,
    scope: Context,
) -> (r: Result<Context, Halt>)
    ensures
        tape::follows(
            r,
            final(tape).left,
            with_constants(old(tape).left, *outer, *generics, *constants, scope),
        ),
{
    let scope = bind_ints(tape, outer, scope, &constants.ints)?;
    let scope = bind_bools(tape, outer, scope, &constants.bools)?;
    bind_arrays(tape, generics, scope, &constants.arrays)
}

// Constants of the module.

/// A constant item of the module, with its value where it is an integer or a truth value.
pub struct ModuleConst {
    pub name: Symbol,
    pub int_value: Option<i32>,
    pub bool_value: Option<bool>,
}

/// Whether a text comes before another in the order of their characters.
pub open spec fn text_before(a: Seq<char>, b: Seq<char>) -> bool
    decreases a.len(),
{
    if b.len() == 0 {
        false
    } else if a.len() == 0 {
        true
    } else if a[0] != b[0] {
        a[0] < b[0]
    } else {
        text_before(a.skip(1), b.skip(1))
    }
}

fn comes_before(a: &str, b: &str) -> (r: bool)
    ensures
        r == text_before(a@, b@),
{
    let n: usize = a.unicode_len();
    let m: usize = b.unicode_len();
    let mut i: usize = 0;
    assert(a@.skip(0) =~= a@);
    assert(b@.skip(0) =~= b@);
    loop
        invariant
            n == a@.len(),
            m == b@.len(),
            i <= n,
            i <= m,
            text_before(a@, b@) == text_before(a@.skip(i as int), b@.skip(i as int)),
        decreases n - i,
    {
        if i == m {
            return false;
        }
        if i == n {
            return true;
        }
        let x = a.get_char(i);
        let y = b.get_char(i);
        assert(a@.skip(i as int)[0] == x);
        assert(b@.skip(i as int)[0] == y);
        if x != y {
            return x < y;
        }
        assert(a@.skip(i as int).skip(1) =~= a@.skip(i + 1));
        assert(b@.skip(i as int).skip(1) =~= b@.skip(i + 1));
        i += 1;
    }
}

/// Integer constants with one more, where its name belongs.
pub open spec fn int_inserted(names: Names, ints: List<IntConst>, new: IntConst) -> List<IntConst>
    decreases ints,
{
    match ints {
        List::Nil => List::Cons(Rc::new(new), Rc::new(List::Nil)),
        List::Cons(item, rest) => if text_before(
            names.text_of(new.name),
            names.text_of(item.name),
        ) {
            List::Cons(Rc::new(new), Rc::new(ints))
        } else {
            List::Cons(item, Rc::new(int_inserted(names, *rest, new)))
        },
    }
}

fn insert_int(names: &Names, ints: &List<IntConst>, new: IntConst) -> (r: List<IntConst>)
    ensures
        r == int_inserted(*names, *ints, new),
    decreases ints,
{
    match ints {
        List::Nil => List::one(Rc::new(new)),
        List::Cons(item, rest) => {
            if comes_before(names.text(new.name), names.text(item.name)) {
                List::prepend(Rc::new(new), ints.dup())
            } else {
                List::prepend(share(item), insert_int(names, rest, new))
            }
        },
    }
}

/// Truth values with one more, where its name belongs.
pub open spec fn bool_inserted(
    names: Names,
    bools: List<BoolConst>,
    new: BoolConst,
) -> List<BoolConst>
    decreases bools,
{
    match bools {
        List::Nil => List::Cons(Rc::new(new), Rc::new(List::Nil)),
        List::Cons(item, rest) => if text_before(
            names.text_of(new.name),
            names.text_of(item.name),
        ) {
            List::Cons(Rc::new(new), Rc::new(bools))
        } else {
            List::Cons(item, Rc::new(bool_inserted(names, *rest, new)))
        },
    }
}

fn insert_bool(names: &Names, bools: &List<BoolConst>, new: BoolConst) -> (r: List<BoolConst>)
    ensures
        r == bool_inserted(*names, *bools, new),
    decreases bools,
{
    match bools {
        List::Nil => List::one(Rc::new(new)),
        List::Cons(item, rest) => {
            if comes_before(names.text(new.name), names.text(item.name)) {
                List::prepend(Rc::new(new), bools.dup())
            } else {
                List::prepend(share(item), insert_bool(names, rest, new))
            }
        },
    }
}

/// Generic names and their constants.
pub struct Bound {
    pub vars: Rc<GenericVars>,
    pub constants: Rc<Constants>,
}

/// Generic names with one more that is bound to an integer.
pub open spec fn vars_with_int(vars: GenericVars, name: Symbol, value: i32) -> GenericVars {
    GenericVars {
        inst_i32: List::Cons(Rc::new(name), Rc::new(vars.inst_i32)),
        ints: List::Cons(Rc::new(IntVar { name, value }), Rc::new(vars.ints)),
        ..vars
    }
}

/// Generic names with one more that is bound to a truth value.
pub open spec fn vars_with_bool(vars: GenericVars, name: Symbol) -> GenericVars {
    GenericVars { inst_bool: List::Cons(Rc::new(name), Rc::new(vars.inst_bool)), ..vars }
}

/// Generic names with a constant of the module: one that a generic name hides is left out, and so
/// is one that is neither an integer nor a truth value.
pub open spec fn with_module_const(names: Names, bound: Bound, item: ModuleConst) -> Bound {
    if env::has_name(bound.vars.declared, item.name) {
        bound
    } else {
        match (item.int_value, item.bool_value) {
            (Some(value), _) => Bound {
                vars: Rc::new(vars_with_int(*bound.vars, item.name, value)),
                constants: Rc::new(
                    Constants {
                        ints: int_inserted(
                            names,
                            bound.constants.ints,
                            IntConst { name: item.name, value },
                        ),
                        ..*bound.constants
                    },
                ),
            },
            (None, Some(value)) => Bound {
                vars: Rc::new(vars_with_bool(*bound.vars, item.name)),
                constants: Rc::new(
                    Constants {
                        bools: bool_inserted(
                            names,
                            bound.constants.bools,
                            BoolConst { name: item.name, value },
                        ),
                        ..*bound.constants
                    },
                ),
            },
            (None, None) => bound,
        }
    }
}

/// Generic names with all constants of the module.
pub open spec fn with_module_consts(names: Names, bound: Bound, consts: List<ModuleConst>) -> Bound
    decreases consts,
{
    match consts {
        List::Nil => bound,
        List::Cons(item, rest) => with_module_consts(
            names,
            with_module_const(names, bound, *item),
            *rest,
        ),
    }
}

fn dup_vars(vars: &GenericVars) -> (r: GenericVars)
    ensures
        r == *vars,
{
    GenericVars {
        declared: vars.declared.dup(),
        inst_types: vars.inst_types.dup(),
        inst_i32: vars.inst_i32.dup(),
        inst_bool: vars.inst_bool.dup(),
        inst_array: vars.inst_array.dup(),
        len2array: vars.len2array.dup(),
        ints: vars.ints.dup(),
        handle: vars.handle,
    }
}

fn add_module_const(names: &Names, bound: Bound, item: &ModuleConst) -> (r: Bound)
    ensures
        r == with_module_const(*names, bound, *item),
{
    if contains_name(&bound.vars.declared, item.name) {
        return bound;
    }
    let mut vars = dup_vars(&bound.vars);
    if let Some(value) = item.int_value {
        vars.inst_i32 = List::prepend(Rc::new(item.name), vars.inst_i32);
        vars.ints = List::prepend(Rc::new(IntVar { name: item.name, value }), vars.ints);
        let constants = Constants {
            ints: insert_int(names, &bound.constants.ints, IntConst { name: item.name, value }),
            bools: bound.constants.bools.dup(),
            arrays: bound.constants.arrays.dup(),
        };
        Bound { vars: Rc::new(vars), constants: Rc::new(constants) }
    } else if let Some(value) = item.bool_value {
        vars.inst_bool = List::prepend(Rc::new(item.name), vars.inst_bool);
        let constants = Constants {
            ints: bound.constants.ints.dup(),
            bools: insert_bool(names, &bound.constants.bools, BoolConst { name: item.name, value }),
            arrays: bound.constants.arrays.dup(),
        };
        Bound { vars: Rc::new(vars), constants: Rc::new(constants) }
    } else {
        bound
    }
}

pub fn add_module_const_vars(names: &Names, bound: Bound, consts: &List<ModuleConst>) -> (r: Bound)
    ensures
        r == with_module_consts(*names, bound, *consts),
    decreases consts,
{
    match consts {
        List::Nil => bound,
        List::Cons(item, rest) => {
            add_module_const_vars(names, add_module_const(names, bound, item), rest)
        },
    }
}

/// A generic name that hides a constant of the module stays what it was.
pub proof fn generic_names_hide_constants(names: Names, bound: Bound, item: ModuleConst)
    requires
        env::has_name(bound.vars.declared, item.name),
    ensures
        with_module_const(names, bound, item) == bound,
{
}

} // verus!
