//! What holds of a call that is inlined and of a kernel that is compiled, from what it is given to
//! what the backend is asked for.
use crate::codegen::calls::{self, Adopts, Entered, Params, Site};
use crate::codegen::consts::{self, Bound, ModuleConst};
use crate::codegen::dialogue;
use crate::codegen::kernel;
use crate::codegen::tape::{
    self, BoolConst, CompileError, Constants, Halt, IntConst, Place, Reply, Request, Run,
    ScalarType,
};
use crate::codegen::typing;
use crate::codegen::value::{self, Bounds, Context, Passed, Value};
use crate::env::{self, GenericVars, MethodItem, Step, TileType};
use crate::exprs;
use crate::list::{self, List};
use crate::names::{self, Names};
use crate::results::{self, MethodSelection, ResultsView};
use crate::scalar;
use crate::syntax::{Expr, FnItem, Symbol, Type};
use std::rc::Rc;
use vstd::prelude::*;

verus! {

// Constants.

proof fn bytes_hold_the_remainder(bits: nat, count: nat)
    ensures
        consts::number_of(consts::low_bytes(bits, count)) == bits % consts::values_of(count),
        consts::values_of(count) > 0,
    decreases count,
{
    if count > 0 {
        let fewer = (count - 1) as nat;
        bytes_hold_the_remainder(bits / 256, fewer);
        let v = consts::values_of(fewer);
        vstd::arithmetic::div_mod::lemma_mod_breakdown(bits as int, 256, v as int);
    }
}

/// How many values the bytes of a constant of a scalar tell apart.
pub open spec fn range_of(scalar: ScalarType) -> nat {
    match scalar {
        ScalarType::I8 => 0x100,
        ScalarType::I16 => 0x1_0000,
        ScalarType::I32 => 0x1_0000_0000,
        _ => 0x1_0000_0000_0000_0000,
    }
}

/// The bytes of an integer constant are as many as its scalar has, the lowest first, and hold the
/// number in two's complement; a truth value is one byte, of which all bits are set or none.
pub proof fn constant_bytes_hold_the_number(scalar: ScalarType, value: i64)
    requires
        scalar is I1 || scalar is I8 || scalar is I16 || scalar is I32 || scalar is I64,
    ensures
        scalar is I1 ==> consts::integer_bytes(scalar, value)@.len() == 1 && consts::number_of(
            consts::integer_bytes(scalar, value),
        ) == (if value == 0 {
            0nat
        } else {
            255nat
        }),
        scalar is I8 ==> consts::integer_bytes(scalar, value)@.len() == 1,
        scalar is I16 ==> consts::integer_bytes(scalar, value)@.len() == 2,
        scalar is I32 ==> consts::integer_bytes(scalar, value)@.len() == 4,
        scalar is I64 ==> consts::integer_bytes(scalar, value)@.len() == 8,
        !(scalar is I1) ==> consts::number_of(consts::integer_bytes(scalar, value)) == value as int
            % (range_of(scalar) as int),
{
    let bits = consts::bits_of(value);
    assert(consts::values_of(1) == 0x100 && consts::values_of(2) == 0x1_0000 && consts::values_of(4)
        == 0x1_0000_0000 && consts::values_of(8) == 0x1_0000_0000_0000_0000) by {
        reveal_with_fuel(consts::values_of, 9);
    }
    bytes_hold_the_remainder(bits, 1);
    bytes_hold_the_remainder(bits, 2);
    bytes_hold_the_remainder(bits, 4);
    bytes_hold_the_remainder(bits, 8);
    bytes_hold_the_remainder(0xFF, 1);
    bytes_hold_the_remainder(0, 1);
    consts::bytes_read_back(bits, 1);
    consts::bytes_read_back(bits, 2);
    consts::bytes_read_back(bits, 4);
    consts::bytes_read_back(bits, 8);
    consts::bytes_read_back(0xFF, 1);
    consts::bytes_read_back(0, 1);
    if value < 0 {
        vstd::arithmetic::div_mod::lemma_mod_multiples_vanish(
            0x100_0000_0000_0000,
            value as int,
            0x100,
        );
        vstd::arithmetic::div_mod::lemma_mod_multiples_vanish(
            0x1_0000_0000_0000,
            value as int,
            0x1_0000,
        );
        vstd::arithmetic::div_mod::lemma_mod_multiples_vanish(
            0x1_0000_0000,
            value as int,
            0x1_0000_0000,
        );
        vstd::arithmetic::div_mod::lemma_mod_multiples_vanish(
            1,
            value as int,
            0x1_0000_0000_0000_0000,
        );
    }
}

/// A constant is emitted with the scalar of its type and the bytes of its number, and becomes an
/// immutable value of that type of which the number is known; a number that is not known is refused.
pub proof fn constant_is_emitted(
    bounds: Bounds,
    ty: Rc<TileType>,
    scalar: ScalarType,
    handle: u64,
    bytes: List<u8>,
    rest: List<Reply>,
)
    ensures
        bounds.start != bounds.end ==> dialogue::fails(
            consts::constant_from_bounds(rest, bounds, ty),
            CompileError::NotConstant { place: Place::OfType, bounds },
        ),
        bounds.start == bounds.end ==> {
            let known = dialogue::replied(Reply::Scalar(Some(scalar)), dialogue::end());
            &&& dialogue::asks(
                consts::constant_from_bounds(dialogue::end(), bounds, ty),
                Request::ScalarOf(ty),
            )
            &&& consts::is_float(scalar) ==> dialogue::asks(
                consts::constant_from_bounds(known, bounds, ty),
                Request::FloatBytes { scalar, value: bounds.start },
            )
            &&& consts::is_float(scalar) ==> dialogue::asks(
                consts::constant_from_bounds(
                    dialogue::replied(
                        Reply::Scalar(Some(scalar)),
                        dialogue::replied(Reply::Bytes(bytes), dialogue::end()),
                    ),
                    bounds,
                    ty,
                ),
                Request::EmitConstant { scalar, data: bytes, ty },
            )
            &&& !consts::is_float(scalar) ==> dialogue::asks(
                consts::constant_from_bounds(known, bounds, ty),
                Request::EmitConstant {
                    scalar,
                    data: consts::integer_bytes(scalar, bounds.start),
                    ty,
                },
            )
            &&& !consts::is_float(scalar) ==> (consts::constant_from_bounds(
                dialogue::replied(
                    Reply::Scalar(Some(scalar)),
                    dialogue::replied(Reply::Emitted(handle), rest),
                ),
                bounds,
                ty,
            ) matches Ok((left, val)) && left == rest && val.handle == handle && val.ty == ty
                && !val.mutable && val.bounds == Some(bounds) && val.variant is None)
        },
        consts::is_float(scalar) <==> (scalar is F16 || scalar is BF16 || scalar is F32
            || scalar is F64),
{
}

/// Whether no constant of a list has a name.
pub open spec fn no_int_is_named(ints: List<IntConst>, name: Symbol) -> bool {
    forall|i: int| 0 <= i < ints@.len() ==> (#[trigger] ints@[i]).name != name
}

/// Whether no truth value of a list has a name.
pub open spec fn no_bool_is_named(bools: List<BoolConst>, name: Symbol) -> bool {
    forall|i: int| 0 <= i < bools@.len() ==> (#[trigger] bools@[i]).name != name
}

/// Constants that are bound leave the other names as they are.
pub proof fn int_constants_leave_other_names(
    tape: List<Reply>,
    generics: Rc<GenericVars>,
    scope: Context,
    ints: List<IntConst>,
    name: Symbol,
)
    requires
        consts::with_ints(tape, generics, scope, ints) is Ok,
        no_int_is_named(ints, name),
    ensures
        ({
            let after = consts::with_ints(tape, generics, scope, ints)->Ok_0.1;
            &&& value::value_of(after.vars, name) == value::value_of(scope.vars, name)
            &&& after.modules == scope.modules
            &&& after.returns_at_end == scope.returns_at_end
        }),
    decreases ints,
{
    if let List::Cons(item, rest) = ints {
        assert(ints@ == seq![list::held(&item)] + rest@);
        assert(ints@[0] == list::held(&item));
        assert forall|i: int| 0 <= i < rest@.len() implies (#[trigger] rest@[i]).name != name by {
            assert(ints@[i + 1] == rest@[i]);
        }
        let (next, val) = consts::constant(tape, generics, names::I32, item.value as i64)->Ok_0;
        int_constants_leave_other_names(
            next,
            generics,
            value::binding(scope, item.name, val),
            list::held(&rest),
            name,
        );
    }
}

/// Truth values that are bound leave the other names as they are.
pub proof fn bool_constants_leave_other_names(
    tape: List<Reply>,
    generics: Rc<GenericVars>,
    scope: Context,
    bools: List<BoolConst>,
    name: Symbol,
)
    requires
        consts::with_bools(tape, generics, scope, bools) is Ok,
        no_bool_is_named(bools, name),
    ensures
        ({
            let after = consts::with_bools(tape, generics, scope, bools)->Ok_0.1;
            &&& value::value_of(after.vars, name) == value::value_of(scope.vars, name)
            &&& after.modules == scope.modules
            &&& after.returns_at_end == scope.returns_at_end
        }),
    decreases bools,
{
    if let List::Cons(item, rest) = bools {
        assert(bools@ == seq![list::held(&item)] + rest@);
        assert(bools@[0] == list::held(&item));
        assert forall|i: int| 0 <= i < rest@.len() implies (#[trigger] rest@[i]).name != name by {
            assert(bools@[i + 1] == rest@[i]);
        }
        let (next, val) = consts::constant(
            tape,
            generics,
            names::BOOL,
            consts::bool_number(item.value),
        )->Ok_0;
        bool_constants_leave_other_names(
            next,
            generics,
            value::binding(scope, item.name, val),
            list::held(&rest),
            name,
        );
    }
}

/// The name of an integer constant stands for an immutable value that is known to be its number.
pub proof fn int_constant_stands_for_its_number(
    tape: List<Reply>,
    generics: Rc<GenericVars>,
    scope: Context,
    ints: List<IntConst>,
    i: int,
)
    requires
        consts::with_ints(tape, generics, scope, ints) is Ok,
        0 <= i < ints@.len(),
        forall|j: int| i < j < ints@.len() ==> (#[trigger] ints@[j]).name != ints@[i].name,
    ensures
        value::value_of(
            consts::with_ints(tape, generics, scope, ints)->Ok_0.1.vars,
            ints@[i].name,
        ) matches Some(val) && !val.mutable && val.bounds == Some(
            Bounds { start: ints@[i].value as i64, end: ints@[i].value as i64 },
        ),
    decreases ints,
{
    if let List::Cons(item, rest) = ints {
        assert(ints@ == seq![list::held(&item)] + rest@);
        assert(ints@[0] == list::held(&item));
        let (next, val) = consts::constant(tape, generics, names::I32, item.value as i64)->Ok_0;
        let inner = value::binding(scope, item.name, val);
        if i > 0 {
            assert(ints@[i] == rest@[i - 1]);
            assert forall|j: int| i - 1 < j < rest@.len() implies (#[trigger] rest@[j]).name
                != rest@[i - 1].name by {
                assert(ints@[j + 1] == rest@[j]);
            }
            int_constant_stands_for_its_number(next, generics, inner, list::held(&rest), i - 1);
        } else {
            assert forall|j: int| 0 <= j < rest@.len() implies (#[trigger] rest@[j]).name
                != item.name by {
                assert(ints@[j + 1] == rest@[j]);
            }
            int_constants_leave_other_names(
                next,
                generics,
                inner,
                list::held(&rest),
                item.name,
            );
        }
    }
}

/// The name of a truth value stands for an immutable value that is known to be one or zero.
pub proof fn bool_constant_stands_for_its_value(
    tape: List<Reply>,
    generics: Rc<GenericVars>,
    scope: Context,
    bools: List<BoolConst>,
    i: int,
)
    requires
        consts::with_bools(tape, generics, scope, bools) is Ok,
        0 <= i < bools@.len(),
        forall|j: int| i < j < bools@.len() ==> (#[trigger] bools@[j]).name != bools@[i].name,
    ensures
        value::value_of(
            consts::with_bools(tape, generics, scope, bools)->Ok_0.1.vars,
            bools@[i].name,
        ) matches Some(val) && !val.mutable && (val.bounds matches Some(bounds) && bounds.start
            == bounds.end && bounds.start == (if bools@[i].value {
            1
        } else {
            0int
        })),
    decreases bools,
{
    if let List::Cons(item, rest) = bools {
        assert(bools@ == seq![list::held(&item)] + rest@);
        assert(bools@[0] == list::held(&item));
        let (next, val) = consts::constant(
            tape,
            generics,
            names::BOOL,
            consts::bool_number(item.value),
        )->Ok_0;
        let inner = value::binding(scope, item.name, val);
        if i > 0 {
            assert(bools@[i] == rest@[i - 1]);
            assert forall|j: int| i - 1 < j < rest@.len() implies (#[trigger] rest@[j]).name
                != rest@[i - 1].name by {
                assert(bools@[j + 1] == rest@[j]);
            }
            bool_constant_stands_for_its_value(next, generics, inner, list::held(&rest), i - 1);
        } else {
            assert forall|j: int| 0 <= j < rest@.len() implies (#[trigger] rest@[j]).name
                != item.name by {
                assert(bools@[j + 1] == rest@[j]);
            }
            bool_constants_leave_other_names(
                next,
                generics,
                inner,
                list::held(&rest),
                item.name,
            );
        }
    }
}

/// A constant of the module that no generic name hides is among the constants, under its name and
/// with its value, and is bound among the generic names; all constants that there were stay.
pub proof fn module_constant_is_added(names: Names, bound: Bound, item: ModuleConst, value: i32)
    requires
        !env::has_name(bound.vars.declared, item.name),
        item.int_value == Some(value),
    ensures
        ({
            let after = consts::with_module_const(names, bound, item);
            &&& after.constants.ints@.contains(IntConst { name: item.name, value })
            &&& forall|c: IntConst| #[trigger]
                bound.constants.ints@.contains(c) ==> after.constants.ints@.contains(c)
            &&& after.constants.ints@.len() == bound.constants.ints@.len() + 1
            &&& after.constants.bools == bound.constants.bools
            &&& after.constants.arrays == bound.constants.arrays
            &&& after.vars.inst_i32@.contains(item.name)
            &&& after.vars.ints@.contains(env::IntVar { name: item.name, value })
            &&& after.vars.declared == bound.vars.declared
            &&& after.vars.inst_types == bound.vars.inst_types
            &&& after.vars.inst_array == bound.vars.inst_array
        }),
{
    let new = IntConst { name: item.name, value };
    inserted_constant_is_there(names, list::held(&bound.constants).ints, new);
    let after = consts::with_module_const(names, bound, item);
    reveal_with_fuel(List::items, 2);
    assert(after.vars.inst_i32@[0] == item.name);
    assert(after.vars.ints@[0] == env::IntVar { name: item.name, value });
}

proof fn inserted_constant_is_there(names: Names, ints: List<IntConst>, new: IntConst)
    ensures
        consts::int_inserted(names, ints, new)@.contains(new),
        forall|c: IntConst| #[trigger]
            ints@.contains(c) ==> consts::int_inserted(names, ints, new)@.contains(c),
        consts::int_inserted(names, ints, new)@.len() == ints@.len() + 1,
    decreases ints,
{
    let after = consts::int_inserted(names, ints, new);
    match ints {
        List::Nil => {
            reveal_with_fuel(List::items, 3);
            assert(after@[0] == new);
        },
        List::Cons(item, rest) => {
            assert(ints@ == seq![list::held(&item)] + rest@);
            if consts::text_before(names.text_of(new.name), names.text_of(item.name)) {
                assert(after@ == seq![new] + ints@);
                assert(after@[0] == new);
                assert forall|c: IntConst| #[trigger] ints@.contains(c) implies after@.contains(
                    c,
                ) by {
                    let k = ints@.index_of(c);
                    assert(after@[k + 1] == c);
                }
            } else {
                inserted_constant_is_there(names, list::held(&rest), new);
                let tail = consts::int_inserted(names, list::held(&rest), new);
                assert(after@ == seq![list::held(&item)] + tail@);
                let k = tail@.index_of(new);
                assert(after@[k + 1] == new);
                assert forall|c: IntConst| #[trigger] ints@.contains(c) implies after@.contains(
                    c,
                ) by {
                    let k = ints@.index_of(c);
                    if k == 0 {
                        assert(after@[0] == c);
                    } else {
                        assert(rest@[k - 1] == c);
                        assert(rest@.contains(c));
                        let m = tail@.index_of(c);
                        assert(after@[m + 1] == c);
                    }
                }
            }
        },
    }
}

// What a call gives.

/// A call gives the value of its body, under the type that is expected of the call, or else under
/// the type that was found for it; a body without a value gives none.
pub proof fn call_gives_the_value_of_its_body(
    tape: List<Reply>,
    site: Site,
    call: Expr,
    val: Rc<Value>,
    expected: Rc<TileType>,
    found: Rc<TileType>,
)
    ensures
        dialogue::ends(
            calls::call_value(tape, site, call, None, Some(expected), Adopts::All),
            tape,
            None,
        ),
        calls::call_value(tape, site, call, Some(val), Some(expected), Adopts::All) matches Ok(
            (left, Some(given)),
        ) && left == tape && given.handle == val.handle && given.ty == expected && given.mutable
            == val.mutable && given.variant == val.variant && given.payload == val.payload
            && given.meta == val.meta && given.bounds == val.bounds,
        calls::call_value(tape, site, call, Some(val), Some(expected), Adopts::Written) matches Ok(
            (left, Some(given)),
        ) && left == tape && given.handle == val.handle && given.ty.rust_ty == expected.rust_ty
            && given.ty.handle == val.ty.handle && given.ty.params == val.ty.params
            && given.mutable == val.mutable && given.variant == val.variant && given.payload
            == val.payload && given.meta == val.meta && given.bounds == val.bounds,
        site.results matches Some(types) && results::filed(types@.tiles, call.id) == Some(found)
            ==> (calls::call_value(tape, site, call, Some(val), None, Adopts::All) matches Ok(
            (left, Some(given)),
        ) && left == tape && given.handle == val.handle && given.ty == found && given.bounds
            == val.bounds),
        site.results is None ==> dialogue::fails(
            calls::call_value(tape, site, call, Some(val), None, Adopts::All),
            CompileError::NoReturnType(Place::Callee),
        ),
{
}

/// After a call, a name of the caller stands for what it stood for before; only what the type of a
/// mutable one carries is that of the mutable parameter that it was passed as, at the end of the
/// body.
pub proof fn caller_gets_its_names_back(
    tape: List<Reply>,
    site: Site,
    call: Expr,
    entered: Entered,
    body: (Option<Rc<Value>>, Rc<Context>),
    expected: Option<Rc<TileType>>,
    adopts: Adopts,
    name: Symbol,
)
    requires
        calls::call_ended(tape, site, call, entered, body, expected, adopts) is Ok,
    ensures
        ({
            let (_, (_, after)) = calls::call_ended(
                tape,
                site,
                call,
                entered,
                body,
                expected,
                adopts,
            )->Ok_0;
            &&& after.modules == entered.outer.modules
            &&& after.returns_at_end == entered.outer.returns_at_end
            &&& match value::value_of(entered.outer.vars, name) {
                None => value::value_of(after.vars, name) is None,
                Some(before) => value::value_of(after.vars, name) matches Some(now) && {
                    &&& now.handle == before.handle
                    &&& now.ty == before.ty
                    &&& now.mutable == before.mutable
                    &&& now.variant == before.variant
                    &&& now.payload == before.payload
                    &&& now.bounds == before.bounds
                    &&& value::passed_as(entered.passed, name) is None ==> now.meta == before.meta
                    &&& value::passed_as(entered.passed, name) matches Some(param) ==> (
                    value::value_of(body.1.vars, param) matches Some(at_end) ==> now.meta == (
                    if before.mutable && at_end.mutable {
                        at_end.meta
                    } else {
                        before.meta
                    }))
                },
            }
        }),
{
    value::body_changes_only_what_was_passed(
        list::held(&body.1).vars,
        entered.passed,
        entered.outer.vars,
        name,
    );
}

/// A name that is passed as an argument is noted with the parameter that it is passed as; another
/// argument is not.
pub proof fn passed_names_are_noted(
    passed: List<Passed>,
    arg: Expr,
    param: Symbol,
    name: Symbol,
)
    ensures
        exprs::expr_name(arg) == Some(name) ==> value::passed_as(
            calls::with_passed(passed, arg, param),
            name,
        ) == Some(param),
        exprs::expr_name(arg) != Some(name) ==> value::passed_as(
            calls::with_passed(passed, arg, param),
            name,
        ) == value::passed_as(passed, name),
{
    reveal_with_fuel(value::passed_as, 2);
}

// What is asked for in the course of a call.

/// The generic names of a function come from nowhere if it has no generic parameters, else from the
/// arguments written at the call, else from the types of its arguments, in their order.
pub proof fn generics_come_from_the_call(
    site: Site,
    item: FnItem,
    func: Expr,
    values: List<Value>,
    vars: Rc<GenericVars>,
    rest: List<Reply>,
    types: List<Type>,
)
    requires
        types@.len() == values@.len(),
        forall|i: int| 0 <= i < values@.len() ==> #[trigger] types@[i] == *values@[i].ty.rust_ty,
    ensures
        calls::function_generics(
            dialogue::end(),
            site,
            item,
            func,
            values,
        ) matches Err(Halt::Perform(request)) && (if item.generics.params@.len() == 0 {
            request == Request::<ResultsView>::EmptyGenerics(item.id)
        } else {
            match calls::written_generics(func) {
                Some(args) => request == (Request::<ResultsView>::PassedGenerics {
                    callable: item.id,
                    args,
                    outer: site.generics,
                }),
                None => request matches Request::InferredGenerics { solver, outer } && outer
                    == site.generics && solver.impl_item is None && solver.callable == item.id
                    && solver.steps@ == seq![Step::Arguments(types)],
            }
        }),
        dialogue::ends(
            calls::function_generics(
                dialogue::replied(Reply::Vars(vars), rest),
                site,
                item,
                func,
                values,
            ),
            rest,
            vars,
        ),
{
    written_types_are_of_the_values(values);
    let own = calls::written_types(values);
    assert(own@ =~= types@);
    list::lists_are_their_items(own, types);
    reveal_with_fuel(List::items, 3);
    let steps = List::Cons(Rc::new(Step::Arguments(own)), Rc::new(List::Nil));
    assert(steps@ =~= seq![Step::Arguments(own)]);
    if item.generics.params is Cons {
        assert(item.generics.params@.len() > 0);
    }
}

/// The types of values are in their order.
pub proof fn written_types_are_of_the_values(values: List<Value>)
    ensures
        calls::written_types(values)@.len() == values@.len(),
        forall|i: int|
            0 <= i < values@.len() ==> #[trigger] calls::written_types(values)@[i]
                == *values@[i].ty.rust_ty,
    decreases values,
{
    if let List::Cons(val, rest) = values {
        written_types_are_of_the_values(list::held(&rest));
        assert(values@ == seq![list::held(&val)] + rest@);
        assert(calls::written_types(values)@ == seq![list::held(&val.ty.rust_ty)]
            + calls::written_types(list::held(&rest))@);
        assert forall|i: int| 0 <= i < values@.len() implies #[trigger] calls::written_types(
            values,
        )@[i] == *values@[i].ty.rust_ty by {
            if i > 0 {
                assert(calls::written_types(values)@[i] == calls::written_types(
                    list::held(&rest),
                )@[i - 1]);
                assert(values@[i] == rest@[i - 1]);
            }
        }
    }
}

/// The method of a call is the one that inference selected for it; only where it selected none, the
/// backend is asked, by the receiver's type and the types of all arguments.
pub proof fn selected_method_is_called(
    tape: List<Reply>,
    site: Site,
    call: Expr,
    receiver: Rc<Type>,
    args: List<Type>,
    selected: Rc<MethodSelection>,
    method: Rc<MethodItem>,
    rest: List<Reply>,
)
    ensures
        site.results matches Some(found) && results::filed(found@.selections, call.id) == Some(
            selected,
        ) ==> (calls::method_of_call(tape, site, call, receiver, args) matches Ok(
            (left, (item, vars)),
        ) && left == tape && item.module == selected.module_name && item.impl_item
            == selected.impl_item && item.method == selected.impl_method && vars == Some(
            selected.generic_vars,
        )),
        site.results is None ==> {
            &&& dialogue::asks(
                calls::method_of_call(dialogue::end(), site, call, receiver, args),
                Request::FindMethod {
                    receiver,
                    call: Rc::new(call),
                    generics: site.generics,
                    args,
                },
            )
            &&& dialogue::ends(
                calls::method_of_call(
                    dialogue::replied(Reply::Method(Some(method)), rest),
                    site,
                    call,
                    receiver,
                    args,
                ),
                rest,
                (*method, None),
            )
            &&& dialogue::fails(
                calls::method_of_call(
                    dialogue::replied(Reply::Method(None), rest),
                    site,
                    call,
                    receiver,
                    args,
                ),
                CompileError::MethodNotFound(Place::Callee),
            )
        },
{
}

// Whole calls.

/// The replies to the start of an inlined call of a function: the function with its parameters
/// normalized, a value of each argument, the generic names and the constants.
pub open spec fn start_of_call(
    tape: List<Reply>,
    item: Rc<FnItem>,
    values: Seq<Rc<Value>>,
    scopes: Seq<Rc<Context>>,
    vars: Rc<GenericVars>,
    constants: Rc<Constants>,
) -> bool {
    let n = values.len() as int;
    &&& scopes.len() == n
    &&& tape@.len() >= n + 3
    &&& tape@[0] == Reply::Item(item)
    &&& forall|i: int|
        0 <= i < n ==> #[trigger] tape@[i + 1] == (Reply::Compiled {
            value: Some(values[i]),
            scope: scopes[i],
        })
    &&& tape@[n + 1] == Reply::Vars(vars)
    &&& tape@[n + 2] == Reply::Constants(constants)
}

proof fn params_are_bound_quietly(
    tape: List<Reply>,
    site: Site,
    entered: Entered,
    params: Params,
    args: List<Expr>,
    values: List<Value>,
    at: usize,
)
    requires
        forall|i: int|
            0 <= i < values@.len() ==> (#[trigger] values@[i]).variant != Some(names::WITH_VALUE),
        params.types@.len() == params.names@.len(),
        params.mutable@.len() == params.names@.len(),
        args@.len() == params.names@.len(),
        values@.len() == params.names@.len(),
    ensures
        calls::params_bound(tape, site, entered, params, args, values, at) matches Ok((left, after))
            && left == tape && after.outer == entered.outer && after.inner.modules
            == entered.inner.modules && after.inner.returns_at_end == entered.inner.returns_at_end,
    decreases params.names,
{
    if let List::Cons(first, more_names) = params.names {
        assert(params.names@ == seq![list::held(&first)] + more_names@);
        assert(params.types is Cons && params.mutable is Cons && args is Cons && values is Cons);
        let types_left = params.types->Cons_1;
        let mutable_left = params.mutable->Cons_1;
        let args_left = args->Cons_1;
        let values_left = values->Cons_1;
        assert(params.types@ == seq![list::held(&params.types->Cons_0)] + types_left@);
        assert(params.mutable@ == seq![list::held(&params.mutable->Cons_0)] + mutable_left@);
        assert(args@ == seq![list::held(&args->Cons_0)] + args_left@);
        assert(values@ == seq![list::held(&values->Cons_0)] + values_left@);
        assert(values@[0] == list::held(&values->Cons_0));
        let val = list::held(&values->Cons_0);
        let inner = Entered {
            inner: value::binding(
                entered.inner,
                list::held(&first),
                Rc::new(
                    calls::as_param(
                        val,
                        params.types->Cons_0,
                        list::held(&params.mutable->Cons_0),
                    ),
                ),
            ),
            outer: entered.outer,
            passed: calls::with_passed(
                entered.passed,
                list::held(&args->Cons_0),
                list::held(&first),
            ),
        };
        let rest = Params {
            names: list::held(&more_names),
            types: list::held(&types_left),
            mutable: list::held(&mutable_left),
            payload_names: match params.payload_names {
                Some(payloads) => Some(calls::behind(payloads)),
                None => None,
            },
        };
        assert forall|i: int| 0 <= i < values_left@.len() implies (#[trigger]
        values_left@[i]).variant != Some(names::WITH_VALUE) by {
            assert(values@[i + 1] == values_left@[i]);
        }
        params_are_bound_quietly(
            tape,
            site,
            inner,
            rest,
            list::held(&args_left),
            list::held(&values_left),
            calls::after(at),
        );
    }
}

/// Whether a step asks for a body to be compiled.
pub open spec fn asks_for_a_body<T>(run: Run<T>) -> bool {
    run matches Err(Halt::Perform(Request::CompileBlock { .. }))
}

/// The scope that a body is asked to be compiled in.
pub open spec fn scope_of_body<T>(run: Run<T>) -> Context {
    match run {
        Err(Halt::Perform(Request::CompileBlock { scope, .. })) => *scope,
        _ => kernel::empty_scope(),
    }
}

proof fn constants_ask_for_no_body(
    tape: List<Reply>,
    generics: Rc<GenericVars>,
    scope: Context,
    ints: List<IntConst>,
)
    ensures
        !asks_for_a_body(consts::with_ints(tape, generics, scope, ints)),
    decreases ints,
{
    if let List::Cons(item, rest) = ints {
        if let Ok((next, val)) = consts::constant(
            tape,
            generics,
            names::I32,
            item.value as i64,
        ) {
            constants_ask_for_no_body(
                next,
                generics,
                value::binding(scope, item.name, val),
                list::held(&rest),
            );
        }
    }
}

proof fn truth_values_ask_for_no_body(
    tape: List<Reply>,
    generics: Rc<GenericVars>,
    scope: Context,
    bools: List<BoolConst>,
)
    ensures
        !asks_for_a_body(consts::with_bools(tape, generics, scope, bools)),
    decreases bools,
{
    if let List::Cons(item, rest) = bools {
        if let Ok((next, val)) = consts::constant(
            tape,
            generics,
            names::BOOL,
            consts::bool_number(item.value),
        ) {
            truth_values_ask_for_no_body(
                next,
                generics,
                value::binding(scope, item.name, val),
                list::held(&rest),
            );
        }
    }
}

/// Constants that are bound leave a name as it is that none of them has.
pub proof fn constants_leave_other_names(
    tape: List<Reply>,
    outer: Rc<GenericVars>,
    generics: Rc<GenericVars>,
    constants: Constants,
    scope: Context,
    name: Symbol,
)
    requires
        no_int_is_named(constants.ints, name),
        no_bool_is_named(constants.bools, name),
        constants.arrays is Nil,
    ensures
        !asks_for_a_body(consts::with_constants(tape, outer, generics, constants, scope)),
        consts::with_constants(tape, outer, generics, constants, scope) matches Ok((_, after)) ==> {
            &&& value::value_of(after.vars, name) == value::value_of(scope.vars, name)
            &&& after.modules == scope.modules
            &&& after.returns_at_end == scope.returns_at_end
        },
{
    constants_ask_for_no_body(tape, outer, scope, constants.ints);
    if let Ok((tape2, scope2)) = consts::with_ints(tape, outer, scope, constants.ints) {
        int_constants_leave_other_names(tape, outer, scope, constants.ints, name);
        truth_values_ask_for_no_body(tape2, outer, scope2, constants.bools);
        if consts::with_bools(tape2, outer, scope2, constants.bools) is Ok {
            bool_constants_leave_other_names(tape2, outer, scope2, constants.bools, name);
        }
    }
}

/// The body of an inlined function is compiled in the scope that its parameters are bound in, under
/// its generic names, with what is expected of the call.
pub proof fn function_body_is_compiled_in_its_scope(
    tape: List<Reply>,
    names: Names,
    site: Site,
    module: Symbol,
    item: Rc<FnItem>,
    call: Expr,
    entered: Entered,
    bound: Bound,
    expected: Option<Rc<TileType>>,
)
    requires
        asks_for_a_body(
            calls::function_body(tape, names, site, module, item, call, entered, bound, expected),
        ),
    ensures
        calls::function_body(
            tape,
            names,
            site,
            module,
            item,
            call,
            entered,
            bound,
            expected,
        ) matches Err(
            Halt::Perform(
                Request::CompileBlock { body: _, generics, scope, expected: wanted, results: _ },
            ),
        ) && *scope == entered.inner && generics == bound.vars && wanted == expected,
{
    let at_call = !value::same_module(names.text_of(module), names.text_of(site.module));
    if let Ok((rest, numbered)) = tape::item_reply(tape, Request::Number { item, at_call }) {
        let body = typing::Body { impl_item: None, item: numbered };
        typing::only_answers_are_asked(
            rest,
            typing::env_for(list::held(&site.typing), bound.vars),
            body,
            typing::type_table(calls::typed_names(entered.inner.vars)),
        );
    }
}

/// The same of the body of a method.
pub proof fn method_body_is_compiled_in_its_scope(
    tape: List<Reply>,
    site: Site,
    method: MethodItem,
    call: Expr,
    entered: Entered,
    vars: Rc<GenericVars>,
    expected: Option<Rc<TileType>>,
)
    requires
        asks_for_a_body(
            calls::method_body(tape, site, method, call, entered, vars, expected),
        ),
    ensures
        calls::method_body(tape, site, method, call, entered, vars, expected) matches Err(
            Halt::Perform(
                Request::CompileBlock { body: _, generics, scope, expected: wanted, results: _ },
            ),
        ) && *scope == entered.inner && generics == vars && wanted == expected,
{
    if let Ok((rest, numbered)) = tape::item_reply(
        tape,
        Request::Number { item: method.method, at_call: true },
    ) {
        let body = typing::Body { impl_item: Some(method.impl_item), item: numbered };
        typing::only_answers_are_asked(
            rest,
            typing::env_for(list::held(&site.typing), vars),
            body,
            typing::type_table(calls::typed_names(entered.inner.vars)),
        );
    }
}

/// Where the parameters of a function are bound from, and what follows once its constants are known.
pub open spec fn entered_function(
    tape: List<Reply>,
    site: Site,
    module: Symbol,
    item: FnItem,
    args: List<Expr>,
    payload_names: List<Symbol>,
    values: List<Value>,
    outer: Context,
) -> Run<Entered> {
    calls::params_bound(
        tape,
        site,
        Entered { inner: value::scope_in(module), outer, passed: List::Nil },
        Params {
            names: item.param_names,
            types: item.param_types,
            mutable: item.param_mutable,
            payload_names: Some(payload_names),
        },
        args,
        values,
        0,
    )
}

proof fn call_starts_so(
    tape: List<Reply>,
    names: Names,
    site: Site,
    module: Symbol,
    given: Rc<FnItem>,
    item: Rc<FnItem>,
    call: Expr,
    func: Expr,
    args: List<Expr>,
    payload_names: List<Symbol>,
    scope: Context,
    expected: Option<Rc<TileType>>,
    later: List<Reply>,
    left: List<Reply>,
    values: List<Value>,
    outer: Context,
    inside: Entered,
    third: List<Reply>,
    fourth: List<Reply>,
    vars: Rc<GenericVars>,
    constants: Rc<Constants>,
    name: Symbol,
)
    requires
        tape == dialogue::replied(Reply::Item(item), later),
        calls::arg_values(later, site, scope, args, 0) == Ok::<
            (List<Reply>, (List<Value>, Context)),
            Halt<ResultsView>,
        >((left, (values, outer))),
        entered_function(left, site, module, *item, args, payload_names, values, outer) == Ok::<
            (List<Reply>, Entered),
            Halt<ResultsView>,
        >((left, inside)),
        left == dialogue::replied(Reply::Vars(vars), third),
        third == dialogue::replied(Reply::Constants(constants), fourth),
        ({
            let bound = consts::with_module_consts(names, Bound { vars, constants }, site.consts);
            &&& no_int_is_named(bound.constants.ints, name)
            &&& no_bool_is_named(bound.constants.bools, name)
            &&& bound.constants.arrays is Nil
        }),
        asks_for_a_body(
            calls::function_inlined(
                tape,
                names,
                site,
                module,
                given,
                call,
                func,
                args,
                payload_names,
                scope,
                expected,
            ),
        ),
    ensures
        ({
            let body = scope_of_body(
                calls::function_inlined(
                    tape,
                    names,
                    site,
                    module,
                    given,
                    call,
                    func,
                    args,
                    payload_names,
                    scope,
                    expected,
                ),
            );
            &&& value::value_of(body.vars, name) == value::value_of(inside.inner.vars, name)
            &&& body.modules == inside.inner.modules
        }),
{
    let bound = consts::with_module_consts(names, Bound { vars, constants }, site.consts);
    constants_leave_other_names(
        fourth,
        bound.vars,
        bound.vars,
        list::held(&bound.constants),
        inside.inner,
        name,
    );
    assert(calls::function_generics(left, site, list::held(&item), func, values) == Ok::<
        (List<Reply>, Rc<GenericVars>),
        Halt<ResultsView>,
    >((third, vars)));
    assert(calls::bound_generics(third, names, site, vars) == Ok::<
        (List<Reply>, Bound),
        Halt<ResultsView>,
    >((fourth, bound)));
    if let Ok((fifth, inner)) = consts::with_constants(
        fourth,
        bound.vars,
        bound.vars,
        list::held(&bound.constants),
        inside.inner,
    ) {
        function_body_is_compiled_in_its_scope(
            fifth,
            names,
            site,
            module,
            item,
            call,
            Entered { inner, ..inside },
            bound,
            expected,
        );
    }
}

proof fn list_starts_with<T>(list: List<T>)
    requires
        list@.len() > 0,
    ensures
        list matches List::Cons(first, rest) && *first == list@[0] && rest@ == list@.skip(1),
{
    if let List::Cons(first, rest) = list {
        assert(list@ == seq![list::held(&first)] + rest@);
        assert(rest@ =~= list@.skip(1));
    }
}

/// The body of an inlined function is compiled where each of its parameters stands for the argument
/// in its place: the value that the backend gave for the first argument is what the first parameter
/// stands for, and so on. The body stands in the module of the function.
pub proof fn inlined_body_sees_its_arguments(
    tape: List<Reply>,
    names: Names,
    site: Site,
    module: Symbol,
    given: Rc<FnItem>,
    item: Rc<FnItem>,
    call: Expr,
    func: Expr,
    args: List<Expr>,
    payload_names: List<Symbol>,
    scope: Context,
    expected: Option<Rc<TileType>>,
    values: Seq<Rc<Value>>,
    scopes: Seq<Rc<Context>>,
    vars: Rc<GenericVars>,
    constants: Rc<Constants>,
    i: int,
)
    requires
        start_of_call(tape, item, values, scopes, vars, constants),
        args@.len() == values.len(),
        item.param_names@.len() == values.len(),
        item.param_types@.len() == values.len(),
        item.param_mutable@.len() == values.len(),
        payload_names@.len() >= values.len(),
        calls::apart(item.param_names, payload_names),
        dialogue::are_different(item.param_names),
        forall|k: int|
            0 <= k < args@.len() ==> dialogue::is_compiled_freely(site, #[trigger] args@[k]),
        forall|k: int|
            0 <= k < values.len() ==> (#[trigger] values[k]).variant != Some(names::WITH_VALUE),
        0 <= i < values.len(),
        ({
            let bound = consts::with_module_consts(names, Bound { vars, constants }, site.consts);
            &&& no_int_is_named(bound.constants.ints, item.param_names@[i])
            &&& no_bool_is_named(bound.constants.bools, item.param_names@[i])
            &&& bound.constants.arrays is Nil
        }),
        asks_for_a_body(
            calls::function_inlined(
                tape,
                names,
                site,
                module,
                given,
                call,
                func,
                args,
                payload_names,
                scope,
                expected,
            ),
        ),
    ensures
        ({
            let inside = scope_of_body(
                calls::function_inlined(
                    tape,
                    names,
                    site,
                    module,
                    given,
                    call,
                    func,
                    args,
                    payload_names,
                    scope,
                    expected,
                ),
            );
            &&& value::value_of(inside.vars, item.param_names@[i]) matches Some(val)
                && dialogue::is_bound_as(
                *val,
                *values[i],
                item.param_types@[i],
                item.param_mutable@[i],
            )
            &&& inside.modules@ == seq![module]
        }),
{
    let n = values.len() as int;
    list_starts_with(tape);
    let later = list::held(&tape->Cons_1);
    assert forall|k: int| 0 <= k < values.len() implies #[trigger] later@[k] == (Reply::Compiled {
        value: Some(values[k]),
        scope: scopes[k],
    }) by {
        assert(tape@[k + 1] == later@[k]);
    }
    dialogue::arguments_are_compiled_in_order(later, site, scope, args, 0, values, scopes);
    let (left, (found, outer)) = calls::arg_values(later, site, scope, args, 0)->Ok_0;
    assert(left@.len() >= 2);
    assert(left@[0] == tape@[n + 1]);
    assert(left@[1] == tape@[n + 2]);
    list_starts_with(left);
    let third = list::held(&left->Cons_1);
    assert(third@[0] == left@[1]);
    list_starts_with(third);
    let fourth = list::held(&third->Cons_1);
    let entered = Entered { inner: value::scope_in(module), outer, passed: List::Nil };
    let params = Params {
        names: list::held(&item).param_names,
        types: list::held(&item).param_types,
        mutable: list::held(&item).param_mutable,
        payload_names: Some(payload_names),
    };
    assert forall|k: int| 0 <= k < found@.len() implies (#[trigger] found@[k]).variant != Some(
        names::WITH_VALUE,
    ) by {
        assert(found@[k] == *values[k]);
    }
    params_are_bound_quietly(left, site, entered, params, args, found, 0);
    dialogue::parameter_stands_for_its_argument(left, site, entered, params, args, found, 0, i);
    let inside = calls::params_bound(left, site, entered, params, args, found, 0)->Ok_0.1;
    call_starts_so(
        tape,
        names,
        site,
        module,
        given,
        item,
        call,
        func,
        args,
        payload_names,
        scope,
        expected,
        later,
        left,
        found,
        outer,
        inside,
        third,
        fourth,
        vars,
        constants,
        list::held(&item).param_names@[i],
    );
    reveal_with_fuel(List::items, 3);
    assert(value::scope_in(module).modules@ =~= seq![module]);
}

proof fn method_call_starts_so(
    tape: List<Reply>,
    names: Names,
    site: Site,
    call: Expr,
    receiver: Rc<Expr>,
    args: List<Expr>,
    scope: Context,
    expected: Option<Rc<TileType>>,
    selected: Rc<MethodSelection>,
    left: List<Reply>,
    values: List<Value>,
    outer: Context,
    inside: Entered,
    last: List<Reply>,
    constants: Rc<Constants>,
    name: Symbol,
)
    requires
        site.results matches Some(found) && results::filed(found@.selections, call.id) == Some(
            selected,
        ),
        calls::arg_values(tape, site, scope, List::Cons(receiver, Rc::new(args)), 0) == Ok::<
            (List<Reply>, (List<Value>, Context)),
            Halt<ResultsView>,
        >((left, (values, outer))),
        values is Cons,
        calls::params_bound(
            left,
            site,
            Entered { inner: value::scope_in(selected.module_name), outer, passed: List::Nil },
            Params {
                names: selected.impl_method.param_names,
                types: selected.impl_method.param_types,
                mutable: selected.impl_method.param_mutable,
                payload_names: None,
            },
            List::Cons(receiver, Rc::new(args)),
            values,
            0,
        ) == Ok::<(List<Reply>, Entered), Halt<ResultsView>>((left, inside)),
        left == dialogue::replied(Reply::Constants(constants), last),
        ({
            let bound = consts::with_module_consts(
                names,
                Bound { vars: selected.generic_vars, constants },
                site.consts,
            );
            &&& no_int_is_named(bound.constants.ints, name)
            &&& no_bool_is_named(bound.constants.bools, name)
            &&& bound.constants.arrays is Nil
        }),
        asks_for_a_body(
            calls::method_inlined(tape, names, site, call, receiver, args, scope, expected),
        ),
    ensures
        ({
            let body = scope_of_body(
                calls::method_inlined(tape, names, site, call, receiver, args, scope, expected),
            );
            &&& value::value_of(body.vars, name) == value::value_of(inside.inner.vars, name)
            &&& body.modules == inside.inner.modules
        }),
{
    let vars = list::held(&selected).generic_vars;
    let bound = consts::with_module_consts(names, Bound { vars, constants }, site.consts);
    constants_leave_other_names(
        last,
        site.generics,
        bound.vars,
        list::held(&bound.constants),
        inside.inner,
        name,
    );
    assert(calls::bound_generics(left, names, site, vars) == Ok::<
        (List<Reply>, Bound),
        Halt<ResultsView>,
    >((last, bound)));
    let method = MethodItem {
        module: list::held(&selected).module_name,
        impl_item: list::held(&selected).impl_item,
        method: list::held(&selected).impl_method,
    };
    if let Ok((fifth, inner)) = consts::with_constants(
        last,
        site.generics,
        bound.vars,
        list::held(&bound.constants),
        inside.inner,
    ) {
        method_body_is_compiled_in_its_scope(
            fifth,
            site,
            method,
            call,
            Entered { inner, ..inside },
            bound.vars,
            expected,
        );
    }
}

/// The body of an inlined method that inference selected is compiled where its first parameter stands
/// for the receiver, and each of the others for the argument in its place behind it. The body stands
/// in the module of the method.
pub proof fn inlined_method_sees_its_receiver_and_arguments(
    tape: List<Reply>,
    names: Names,
    site: Site,
    call: Expr,
    receiver: Rc<Expr>,
    args: List<Expr>,
    scope: Context,
    expected: Option<Rc<TileType>>,
    selected: Rc<MethodSelection>,
    values: Seq<Rc<Value>>,
    scopes: Seq<Rc<Context>>,
    constants: Rc<Constants>,
    i: int,
)
    requires
        site.results matches Some(found) && results::filed(found@.selections, call.id) == Some(
            selected,
        ),
        values.len() == args@.len() + 1,
        scopes.len() == values.len(),
        tape@.len() >= values.len() + 1,
        forall|k: int|
            0 <= k < values.len() ==> #[trigger] tape@[k] == (Reply::Compiled {
                value: Some(values[k]),
                scope: scopes[k],
            }),
        tape@[values.len() as int] == Reply::Constants(constants),
        selected.impl_method.param_names@.len() == values.len(),
        selected.impl_method.param_types@.len() == values.len(),
        selected.impl_method.param_mutable@.len() == values.len(),
        dialogue::are_different(selected.impl_method.param_names),
        dialogue::is_compiled_freely(site, *receiver),
        forall|k: int|
            0 <= k < args@.len() ==> dialogue::is_compiled_freely(site, #[trigger] args@[k]),
        forall|k: int|
            0 <= k < values.len() ==> (#[trigger] values[k]).variant != Some(names::WITH_VALUE),
        0 <= i < values.len(),
        ({
            let bound = consts::with_module_consts(
                names,
                Bound { vars: selected.generic_vars, constants },
                site.consts,
            );
            &&& no_int_is_named(bound.constants.ints, selected.impl_method.param_names@[i])
            &&& no_bool_is_named(bound.constants.bools, selected.impl_method.param_names@[i])
            &&& bound.constants.arrays is Nil
        }),
        asks_for_a_body(
            calls::method_inlined(tape, names, site, call, receiver, args, scope, expected),
        ),
    ensures
        ({
            let inside = scope_of_body(
                calls::method_inlined(tape, names, site, call, receiver, args, scope, expected),
            );
            &&& value::value_of(inside.vars, selected.impl_method.param_names@[i]) matches Some(val)
                && dialogue::is_bound_as(
                *val,
                *values[i],
                selected.impl_method.param_types@[i],
                selected.impl_method.param_mutable@[i],
            )
            &&& inside.modules@ == seq![selected.module_name]
        }),
{
    let n = values.len() as int;
    let all = List::Cons(receiver, Rc::new(args));
    assert(all@ == seq![list::held(&receiver)] + args@);
    assert forall|k: int| 0 <= k < all@.len() implies dialogue::is_compiled_freely(
        site,
        #[trigger] all@[k],
    ) by {
        if k > 0 {
            assert(all@[k] == args@[k - 1]);
        }
    }
    dialogue::arguments_are_compiled_in_order(tape, site, scope, all, 0, values, scopes);
    let (left, (found, outer)) = calls::arg_values(tape, site, scope, all, 0)->Ok_0;
    assert(left@.len() >= 1);
    assert(left@[0] == tape@[n]);
    list_starts_with(left);
    let last = list::held(&left->Cons_1);
    let entered = Entered {
        inner: value::scope_in(selected.module_name),
        outer,
        passed: List::Nil,
    };
    let params = Params {
        names: list::held(&selected.impl_method).param_names,
        types: list::held(&selected.impl_method).param_types,
        mutable: list::held(&selected.impl_method).param_mutable,
        payload_names: None,
    };
    assert forall|k: int| 0 <= k < found@.len() implies (#[trigger] found@[k]).variant != Some(
        names::WITH_VALUE,
    ) by {
        assert(found@[k] == *values[k]);
    }
    params_are_bound_quietly(left, site, entered, params, all, found, 0);
    dialogue::parameter_stands_for_its_argument(left, site, entered, params, all, found, 0, i);
    let inside = calls::params_bound(left, site, entered, params, all, found, 0)->Ok_0.1;
    match found {
        List::Nil => {
            assert(found@.len() == 0);
        },
        List::Cons(_, _) => {},
    }
    method_call_starts_so(
        tape,
        names,
        site,
        call,
        receiver,
        args,
        scope,
        expected,
        selected,
        left,
        found,
        outer,
        inside,
        last,
        constants,
        list::held(&selected.impl_method).param_names@[i],
    );
    reveal_with_fuel(List::items, 3);
    assert(value::scope_in(selected.module_name).modules@ =~= seq![selected.module_name]);
}

} // verus!
