use cutile::codegen::calls::{inline_function_call, inline_method_call, payload_name, Site};
use cutile::codegen::consts::{
    add_module_const_vars, compile_constant_from_exact_bounds, encode_integer, Bound, ModuleConst,
};
use cutile::codegen::kernel::{
    ir_location, CUDATileFunctionCompiler, EntryAttrs, Grid, KernelItem, KernelNaming,
    KernelRequest, Location, Program, SourceLocation,
};
use cutile::codegen::messages::{compile_error_text, jit_error_text, Subject};
use cutile::codegen::tape::{
    CompileError, CompileOptions, ConstKind, Constants, Halt, Hints, IntConst, Place, Reply,
    Request, ScalarHint, ScalarType, StrideArg, Tape, TargetHints, TypedName,
};
use cutile::codegen::typing::{make_type_table, Typing};
use cutile::codegen::value::{
    find_value, same_module_identity, update_type_meta, Bounds, Context, Passed, Value, Var,
};
use cutile::env::{Answer, Env, GenericVars, JitError, MethodItem, Question, TileType};
use cutile::list::List;
use cutile::names::{self, Names};
use cutile::results::{MethodSelection, TypeckResults};
use cutile::specialization::DivHint;
use cutile::syntax::{
    Block, Expr, ExprKind, FnItem, Generics, ImplItem, Lit, Pat, Path, PathArgs, Segment, Stmt,
    Symbol, Type,
};
use cutile::syntax_eq::type_eq;
use std::rc::Rc;

fn list<T>(items: Vec<T>) -> List<T> {
    let mut out = List::Nil;
    for item in items.into_iter().rev() {
        out = List::prepend(Rc::new(item), out);
    }
    out
}

fn bytes(list: &List<u8>) -> Vec<u8> {
    let mut out = Vec::new();
    let mut rest = list;
    while let List::Cons(head, tail) = rest {
        out.push(**head);
        rest = &**tail;
    }
    out
}

fn path(ident: Symbol) -> Path {
    Path { global: false, segments: list(vec![Segment { ident, args: PathArgs::Bare }]) }
}

fn bare(ident: Symbol) -> Rc<Type> {
    Rc::new(Type::Path { qself: None, path: path(ident) })
}

fn tile(ident: Symbol) -> Rc<TileType> {
    Rc::new(TileType { rust_ty: bare(ident), params: List::Nil, handle: 0 })
}

fn value(handle: u64, ident: Symbol) -> Value {
    Value {
        handle,
        ty: tile(ident),
        mutable: false,
        variant: None,
        payload: None,
        meta: 0,
        bounds: None,
    }
}

fn local(id: u64, name: Symbol) -> Rc<Expr> {
    Rc::new(Expr { id: Some(id), kind: ExprKind::Path { qself: None, path: path(name) } })
}

fn no_vars(handle: u64) -> Rc<GenericVars> {
    Rc::new(GenericVars {
        declared: List::Nil,
        inst_types: List::Nil,
        inst_i32: List::Nil,
        inst_bool: List::Nil,
        inst_array: List::Nil,
        len2array: List::Nil,
        ints: List::Nil,
        handle,
    })
}

fn no_constants() -> Rc<Constants> {
    Rc::new(Constants { ints: List::Nil, bools: List::Nil, arrays: List::Nil })
}

fn scope(vars: Vec<Var>) -> Context {
    Context { vars: list(vars), modules: List::Nil, returns_at_end: false }
}

fn no_generics() -> Generics {
    Generics { params: List::Nil, predicates: List::Nil, bindable: List::Nil }
}

fn function(params: Vec<(Symbol, Symbol, bool)>) -> Rc<FnItem> {
    function_with(params, vec![])
}

fn function_with(params: Vec<(Symbol, Symbol, bool)>, stmts: Vec<Stmt>) -> Rc<FnItem> {
    Rc::new(FnItem {
        id: 5,
        name: 90,
        generics: no_generics(),
        param_names: list(params.iter().map(|p| p.0).collect()),
        param_types: list(
            params
                .iter()
                .map(|p| Type::Path { qself: None, path: path(p.1) })
                .collect(),
        ),
        param_mutable: list(params.iter().map(|p| p.2).collect()),
        return_type: Rc::new(Type::Tuple(List::Nil)),
        body: Block { stmts: list(stmts) },
    })
}

fn bound_to(name: Symbol, init: Rc<Expr>) -> Stmt {
    Stmt::Local {
        pat: Rc::new(Pat::Ident { name, mutable: false, subpat: None }),
        init: Some(init),
    }
}

fn typing() -> Rc<Typing> {
    Rc::new(Typing {
        program: Env {
            names: Rc::new(Names::new()),
            generic_vars: no_vars(0),
            structs: List::Nil,
            functions: List::Nil,
            traits: List::Nil,
            trait_impls: List::Nil,
            primitives: List::Nil,
            struct_impls: List::Nil,
            book: List::Nil,
        },
    })
}

/// The answer to the one question that an empty body asks.
fn unit_answer() -> Reply {
    Reply::Answer(Rc::new(Answer::Compiled(None)))
}

/// Answers as a compiler would that compiles every type.
fn usual(question: &Question) -> Reply {
    let compiled = |ty: &Rc<Type>| {
        let ty = TileType { rust_ty: Rc::clone(ty), params: List::Nil, handle: 1 };
        Answer::Compiled(Some(Rc::new(ty)))
    };
    Reply::Answer(Rc::new(match question {
        Question::Compile { ty, params: _ } => compiled(ty),
        Question::ScalarTile(name) => compiled(&bare(*name)),
        Question::Normalize(ty) => Answer::Normalized(Rc::clone(ty)),
        _ => panic!("an unusual question"),
    }))
}

fn site(module: Symbol, results: Option<Rc<TypeckResults>>) -> Site {
    Site { typing: typing(), module, consts: List::Nil, generics: no_vars(1), results }
}

fn tape(replies: Vec<Reply>) -> Tape {
    Tape { left: list(replies) }
}

#[test]
fn modules_are_the_same_by_their_last_segment() {
    assert!(same_module_identity("a::b", "a::b"));
    assert!(same_module_identity("a::core", "x::y::core"));
    assert!(same_module_identity("core", "cutile::core"));
    assert!(!same_module_identity("a::b", "a::c"));
    assert!(!same_module_identity("a:b", "b"));
}

#[test]
fn only_mutable_values_that_were_passed_change() {
    let mut outer = value(1, names::I32);
    outer.mutable = true;
    outer.meta = 10;
    let mut fixed = value(2, names::I32);
    fixed.meta = 20;
    let mut inner = value(3, names::I32);
    inner.mutable = true;
    inner.meta = 99;
    let outer = list(vec![
        Var { name: 50, value: Rc::new(outer) },
        Var { name: 51, value: Rc::new(fixed) },
    ]);
    let inner = list(vec![Var { name: 60, value: Rc::new(inner) }]);
    let passed = list(vec![Passed { outer: 50, inner: 60 }, Passed { outer: 51, inner: 60 }]);
    let after = update_type_meta(&inner, &outer, &passed);
    let changed = find_value(&after, 50).unwrap();
    assert_eq!((changed.meta, changed.handle), (99, 1));
    assert_eq!(find_value(&after, 51).unwrap().meta, 20);
    assert!(find_value(&after, 60).is_none());
}

#[test]
fn constants_are_laid_out_in_bytes() {
    let cases = [
        (ScalarType::I1, 5, vec![0xFF]),
        (ScalarType::I1, 0, vec![0]),
        (ScalarType::I4, -1, vec![0x0F]),
        (ScalarType::F4E2M1FN, 0x23, vec![0x03]),
        (ScalarType::I8, -2, vec![0xFE]),
        (ScalarType::F8E5M2, 0x17F, vec![0x7F]),
        (ScalarType::I16, 0x1234, vec![0x34, 0x12]),
        (ScalarType::I32, -1, vec![0xFF, 0xFF, 0xFF, 0xFF]),
        (ScalarType::Other(3), 258, vec![2, 1, 0, 0]),
        (ScalarType::I64, 1 << 40, vec![0, 0, 0, 0, 0, 1, 0, 0]),
    ];
    for (scalar, number, expected) in cases {
        assert_eq!(bytes(&encode_integer(scalar, number)), expected);
    }
}

#[test]
fn constants_need_exact_bounds_and_a_scalar() {
    let ty = tile(names::I32);
    let loose = Bounds { start: 1, end: 2 };
    match compile_constant_from_exact_bounds(&mut tape(vec![]), loose, &ty) {
        Err(Halt::Failed(CompileError::NotConstant { place: Place::OfType, bounds })) => {
            assert_eq!(bounds, loose);
        },
        _ => panic!("a constant"),
    }
    let exact = Bounds { start: 7, end: 7 };
    match compile_constant_from_exact_bounds(&mut tape(vec![Reply::Scalar(None)]), exact, &ty) {
        Err(Halt::Failed(CompileError::NotScalar(Place::OfType))) => {},
        _ => panic!("a constant"),
    }
    let replies = vec![Reply::Scalar(Some(ScalarType::F32))];
    match compile_constant_from_exact_bounds(&mut tape(replies), exact, &ty) {
        Err(Halt::Perform(Request::FloatBytes { scalar: ScalarType::F32, value: 7 })) => {},
        _ => panic!("no request"),
    }
    let replies = vec![Reply::Scalar(Some(ScalarType::I8)), Reply::Emitted(33)];
    match compile_constant_from_exact_bounds(&mut tape(replies), exact, &ty) {
        Ok(constant) => {
            assert_eq!(constant.handle, 33);
            assert_eq!(constant.bounds, Some(exact));
        },
        _ => panic!("no constant"),
    }
}

#[test]
fn module_constants_are_added_in_order() {
    let mut names = Names::new();
    let alpha = names.intern("ALPHA").unwrap();
    let beta = names.intern("BETA").unwrap();
    let gamma = names.intern("GAMMA").unwrap();
    let mut vars = GenericVars {
        declared: list(vec![beta]),
        inst_types: List::Nil,
        inst_i32: List::Nil,
        inst_bool: List::Nil,
        inst_array: List::Nil,
        len2array: List::Nil,
        ints: List::Nil,
        handle: 0,
    };
    vars.handle = 4;
    let consts = list(vec![
        ModuleConst { name: gamma, int_value: Some(3), bool_value: None },
        ModuleConst { name: beta, int_value: Some(2), bool_value: None },
        ModuleConst { name: alpha, int_value: Some(1), bool_value: None },
    ]);
    let bound = Bound { vars: Rc::new(vars), constants: no_constants() };
    let bound = add_module_const_vars(&names, bound, &consts);
    let ints = &bound.constants.ints;
    assert_eq!(ints.count(), 2);
    assert_eq!(ints.nth(0).map(|c| (c.name, c.value)), Some((alpha, 1)));
    assert_eq!(ints.nth(1).map(|c| (c.name, c.value)), Some((gamma, 3)));
}

#[test]
fn payload_names_are_numbered() {
    assert_eq!(payload_name(12), "__cutile_inline_option_payload_12");
}

fn call_replies(item: &Rc<FnItem>, arg: Value, outer: Context, end: Value) -> Vec<Reply> {
    let inner = scope(vec![Var { name: 60, value: Rc::new(end) }]);
    vec![
        Reply::Item(Rc::clone(item)),
        Reply::Compiled { value: Some(Rc::new(arg)), scope: Rc::new(outer) },
        Reply::Vars(no_vars(2)),
        Reply::Constants(no_constants()),
        Reply::Item(Rc::clone(item)),
        unit_answer(),
        Reply::Item(Rc::clone(item)),
        Reply::Compiled { value: Some(Rc::new(value(70, names::F32))), scope: Rc::new(inner) },
    ]
}

fn inline(names: &Names, module: Symbol, item: &Rc<FnItem>, replies: Vec<Reply>) -> Result<
    (Option<Rc<Value>>, Context),
    Halt,
> {
    let func = local(3, 90);
    let args = list(vec![Expr { id: Some(2), kind: ExprKind::Path { qself: None, path: path(50) } }]);
    let call = Expr { id: Some(1), kind: ExprKind::Call { func: Rc::clone(&func), args: args.dup() } };
    inline_function_call(
        &mut tape(replies),
        names,
        &site(module, None),
        names::I32,
        item,
        &call,
        &func,
        &args,
        &list(vec![80]),
        scope(vec![]),
        &Some(tile(names::F64)),
    )
}

#[test]
fn inlined_functions_make_their_requests_in_order() {
    let names = Names::new();
    let item = function(vec![(60, names::I64, true)]);
    let mut arg = value(7, names::I32);
    arg.mutable = true;
    let mut end = value(7, names::I64);
    end.mutable = true;
    end.meta = 5;
    let mut outer_value = value(7, names::I32);
    outer_value.mutable = true;
    let make = || {
        call_replies(
            &item,
            arg.dup(),
            scope(vec![Var { name: 50, value: Rc::new(outer_value.dup()) }]),
            end.dup(),
        )
    };
    let kinds = ["params", "arg", "generics", "constants", "number", "infer", "lower", "block"];
    for (count, kind) in kinds.iter().enumerate() {
        let mut replies = make();
        replies.truncate(count);
        let asked = match inline(&names, names::BOOL, &item, replies) {
            Err(Halt::Perform(request)) => match request {
                Request::NormalizeParams(_) => "params",
                Request::CompileExpr { .. } => "arg",
                Request::EmptyGenerics(5) => "generics",
                Request::Constants(_) => "constants",
                Request::Number { item: _, at_call } => {
                    assert!(at_call);
                    "number"
                },
                Request::Answer { question: Question::Compile { ty, params: _ }, generics } => {
                    assert_eq!(generics.handle, 2);
                    assert!(type_eq(&ty, &Type::Tuple(List::Nil)));
                    "infer"
                },
                Request::Lower { .. } => "lower",
                Request::CompileBlock { scope, .. } => {
                    let param = find_value(&scope.vars, 60).unwrap();
                    assert_eq!((param.handle, param.mutable), (7, true));
                    "block"
                },
                _ => "other",
            },
            _ => "nothing",
        };
        assert_eq!(&asked, kind);
    }
    match inline(&names, names::BOOL, &item, make()) {
        Ok((Some(given), outer)) => {
            assert_eq!(given.handle, 70);
            assert!(type_eq(&given.ty.rust_ty, &bare(names::F64)));
            assert_eq!(find_value(&outer.vars, 50).unwrap().meta, 5);
        },
        _ => panic!("no value"),
    }
}

#[test]
fn replies_behind_the_last_are_left() {
    let names = Names::new();
    let item = function(vec![(60, names::I64, false)]);
    let mut replies = call_replies(&item, value(7, names::I32), scope(vec![]), value(7, names::I64));
    replies.push(Reply::Emitted(33));
    let func = local(3, 90);
    let args = list(vec![Expr { id: Some(2), kind: ExprKind::Path { qself: None, path: path(50) } }]);
    let call = Expr { id: Some(1), kind: ExprKind::Call { func: Rc::clone(&func), args: args.dup() } };
    let mut longer = tape(replies);
    let given = inline_function_call(
        &mut longer,
        &names,
        &site(names::BOOL, None),
        names::I32,
        &item,
        &call,
        &func,
        &args,
        &list(vec![80]),
        scope(vec![]),
        &Some(tile(names::F64)),
    );
    match given {
        Ok((Some(given), _)) => assert_eq!(given.handle, 70),
        _ => panic!("no value"),
    }
    match longer.left {
        List::Cons(reply, rest) => {
            assert!(matches!(&*reply, Reply::Emitted(33)));
            assert!(matches!(&*rest, List::Nil));
        },
        List::Nil => panic!("nothing left"),
    }
}

#[test]
fn functions_of_the_same_module_keep_their_places() {
    let names = Names::new();
    let item = function(vec![(60, names::I64, false)]);
    let mut replies = call_replies(&item, value(7, names::I32), scope(vec![]), value(7, names::I64));
    replies.truncate(4);
    match inline(&names, names::I32, &item, replies) {
        Err(Halt::Perform(Request::Number { item: _, at_call })) => assert!(!at_call),
        _ => panic!("no request"),
    }
}

#[test]
fn failing_calls_say_why() {
    let names = Names::new();
    let item = function(vec![(60, names::I64, false)]);
    let outcome = |replies: Vec<Reply>| match inline(&names, names::BOOL, &item, replies) {
        Err(Halt::Failed(error)) => error,
        _ => panic!("no error"),
    };
    let empty = || Rc::new(scope(vec![]));
    assert_eq!(outcome(vec![Reply::Failed(8)]), CompileError::Reported(8));
    assert_eq!(
        outcome(vec![
            Reply::Item(Rc::clone(&item)),
            Reply::Compiled { value: None, scope: empty() },
        ]),
        CompileError::UncompiledArgument(Place::Argument(0))
    );
    let mut some = value(7, names::I32);
    some.variant = Some(names::WITH_VALUE);
    assert_eq!(
        outcome(vec![
            Reply::Item(Rc::clone(&item)),
            Reply::Compiled { value: Some(Rc::new(some.dup())), scope: empty() },
        ]),
        CompileError::MissingPayload(Place::Argument(0))
    );
    some.payload = Some(local(9, 91));
    assert_eq!(
        outcome(vec![
            Reply::Item(Rc::clone(&item)),
            Reply::Compiled { value: Some(Rc::new(some.dup())), scope: empty() },
            Reply::Compiled { value: None, scope: empty() },
        ]),
        CompileError::UncompiledPayload(Place::Argument(0))
    );
    let wide = function(vec![(60, names::I64, false), (61, names::I64, false)]);
    assert_eq!(
        outcome(vec![
            Reply::Item(Rc::clone(&wide)),
            Reply::Compiled { value: Some(Rc::new(value(7, names::I32))), scope: empty() },
        ]),
        CompileError::TooFewArguments(Place::Param(1))
    );
    match inline(&names, names::BOOL, &item, vec![Reply::Emitted(1)]) {
        Err(Halt::OutOfStep) => {},
        _ => panic!("in step"),
    }
}

#[test]
fn payloads_are_bound_to_a_name_of_their_own() {
    let names = Names::new();
    let item = function(vec![(60, names::I64, false)]);
    let mut some = value(7, names::I32);
    some.variant = Some(names::WITH_VALUE);
    some.payload = Some(local(9, 91));
    let empty = || Rc::new(scope(vec![]));
    let replies = vec![
        Reply::Item(Rc::clone(&item)),
        Reply::Compiled { value: Some(Rc::new(some)), scope: empty() },
        Reply::Compiled { value: Some(Rc::new(value(8, names::U8))), scope: empty() },
        Reply::Vars(no_vars(2)),
        Reply::Constants(no_constants()),
        Reply::Item(Rc::clone(&item)),
        unit_answer(),
        Reply::Item(Rc::clone(&item)),
    ];
    match inline(&names, names::BOOL, &item, replies) {
        Err(Halt::Perform(Request::CompileBlock { scope, .. })) => {
            assert_eq!(find_value(&scope.vars, 80).unwrap().handle, 8);
            let param = find_value(&scope.vars, 60).unwrap();
            match &param.payload.as_ref().unwrap().kind {
                ExprKind::Path { qself: _, path } => {
                    assert_eq!(path.segments.nth(0).unwrap().ident, 80);
                },
                _ => panic!("no name"),
            }
        },
        _ => panic!("no request"),
    }
}

#[test]
fn methods_come_from_what_was_found_or_are_looked_for() {
    let names = Names::new();
    let method = function(vec![(60, names::I64, false)]);
    let impl_item = Rc::new(ImplItem {
        id: 6,
        generics: no_generics(),
        self_ty: bare(names::I64),
        methods: List::Nil,
    });
    let receiver = local(2, 50);
    let call = Rc::new(Expr {
        id: Some(1),
        kind: ExprKind::MethodCall {
            receiver: Rc::clone(&receiver),
            method: 90,
            turbofish: None,
            args: List::Nil,
        },
    });
    let run = |site: &Site, replies: Vec<Reply>| {
        inline_method_call(
            &mut tape(replies),
            &names,
            site,
            &call,
            &receiver,
            &List::Nil,
            scope(vec![]),
            &Some(tile(names::F64)),
        )
    };
    let receiver_reply = || Reply::Compiled {
        value: Some(Rc::new(value(7, names::I64))),
        scope: Rc::new(scope(vec![])),
    };
    match run(&site(names::BOOL, None), vec![receiver_reply()]) {
        Err(Halt::Perform(Request::FindMethod { receiver, .. })) => {
            assert!(type_eq(&receiver, &bare(names::I64)));
        },
        _ => panic!("no request"),
    }
    match run(&site(names::BOOL, None), vec![receiver_reply(), Reply::Method(None)]) {
        Err(Halt::Failed(CompileError::MethodNotFound(Place::Callee))) => {},
        _ => panic!("a method"),
    }
    let found = Rc::new(MethodItem {
        module: names::I32,
        impl_item: Rc::clone(&impl_item),
        method: Rc::clone(&method),
    });
    match run(&site(names::BOOL, None), vec![receiver_reply(), Reply::Method(Some(found))]) {
        Err(Halt::Perform(Request::EmptyGenerics(5))) => {},
        _ => panic!("no request"),
    }
    let mut results = TypeckResults::new();
    results.insert_method_selection(
        &call,
        Rc::new(MethodSelection {
            module_name: names::I32,
            impl_item: Rc::clone(&impl_item),
            impl_method: Rc::clone(&method),
            generic_vars: no_vars(9),
            return_type: None,
        }),
    );
    let replies = vec![
        receiver_reply(),
        Reply::Constants(no_constants()),
        Reply::Item(Rc::clone(&method)),
        unit_answer(),
        Reply::Compiled {
            value: Some(Rc::new(value(70, names::F32))),
            scope: Rc::new(scope(vec![])),
        },
    ];
    match run(&site(names::BOOL, Some(Rc::new(results))), replies) {
        Ok((Some(given), _)) => {
            assert_eq!(given.handle, 70);
            assert!(type_eq(&given.ty.rust_ty, &bare(names::F64)));
        },
        _ => panic!("no value"),
    }
}

fn program(names: &mut Names, entry: Option<EntryAttrs>, is_unsafe: bool) -> (Program, KernelRequest) {
    let module = names.intern("kernels").unwrap();
    let add = names.intern("add").unwrap();
    let add_entry = names.intern("add_entry").unwrap();
    let gpu = names.intern("sm_90").unwrap();
    let program = Program {
        typing: typing(),
        modules: list(vec![module]),
        functions: list(vec![KernelItem {
            name: add,
            item: function(vec![(60, names::I64, true)]),
            is_unsafe,
            entry,
        }]),
        consts: List::Nil,
    };
    let wanted = KernelRequest {
        module_name: module,
        naming: KernelNaming { public_name: add, entry_name: add_entry },
        generic_args: List::Nil,
        stride_args: list(vec![StrideArg { name: 60, strides: list(vec![4, 1]) }]),
        spec_args: List::Nil,
        scalar_hints: list(vec![ScalarHint { name: 60, hint: DivHint { divisor: 16, max: 16 } }]),
        const_grid: Some(Grid { x: 1, y: 1, z: 1 }),
        gpu_name: gpu,
        options: CompileOptions { max_divisibility: None, handle: 7 },
    };
    (program, wanted)
}

fn attrs(unchecked_accesses: bool) -> EntryAttrs {
    EntryAttrs { unchecked_accesses, print_ir: false, hints: Some(3) }
}

fn error_of(r: Result<CUDATileFunctionCompiler, Halt>) -> CompileError {
    match r {
        Err(Halt::Failed(error)) => error,
        _ => panic!("no error"),
    }
}

#[test]
fn kernels_are_refused_for_a_reason() {
    let mut names = Names::new();
    let (program_a, mut wanted) = program(&mut names, Some(attrs(false)), false);
    let module = wanted.module_name;
    wanted.module_name = names::I32;
    assert_eq!(
        error_of(CUDATileFunctionCompiler::new(&mut tape(vec![]), &names, &program_a, &wanted)),
        CompileError::UndefinedModule
    );
    wanted.module_name = module;
    let public = wanted.naming.public_name;
    wanted.naming.public_name = names::I32;
    assert_eq!(
        error_of(CUDATileFunctionCompiler::new(&mut tape(vec![]), &names, &program_a, &wanted)),
        CompileError::UndefinedFunction
    );
    wanted.naming.public_name = public;
    let (plain, wanted_plain) = program(&mut names, None, false);
    assert_eq!(
        error_of(CUDATileFunctionCompiler::new(&mut tape(vec![]), &names, &plain, &wanted_plain)),
        CompileError::MissingEntryAttribute
    );
    let (unchecked, wanted_unchecked) = program(&mut names, Some(attrs(true)), false);
    assert_eq!(
        error_of(CUDATileFunctionCompiler::new(
            &mut tape(vec![Reply::Emitted(0)]),
            &names,
            &unchecked,
            &wanted_unchecked
        )),
        CompileError::NotUnsafe
    );
    wanted.naming.entry_name = public;
    assert_eq!(
        error_of(CUDATileFunctionCompiler::new(
            &mut tape(kernel_replies()),
            &names,
            &program_a,
            &wanted
        )),
        CompileError::NameCollision
    );
}

fn kernel_replies() -> Vec<Reply> {
    vec![
        Reply::Emitted(0),
        Reply::Hints(Rc::new(Hints {
            handle: 1,
            target: Some(70),
            targets: list(vec![
                TargetHints { name: 69, max_divisibility: Some(2) },
                TargetHints { name: 70, max_divisibility: Some(8) },
            ]),
        })),
        Reply::Vars(no_vars(2)),
        Reply::Constants(Rc::new(Constants {
            ints: list(vec![IntConst { name: 61, value: 128 }]),
            bools: List::Nil,
            arrays: List::Nil,
        })),
        Reply::Entry { item: function(vec![(60, names::I64, true)]), validator: 44 },
    ]
}

fn kernel() -> (Names, CUDATileFunctionCompiler) {
    let mut names = Names::new();
    let (program, wanted) = program(&mut names, Some(attrs(true)), true);
    match CUDATileFunctionCompiler::new(&mut tape(kernel_replies()), &names, &program, &wanted) {
        Ok(kernel) => (names, kernel),
        Err(_) => panic!("no kernel"),
    }
}

#[test]
fn hints_are_capped_before_the_entry_is_made() {
    let mut names = Names::new();
    let (program, mut wanted) = program(&mut names, Some(attrs(true)), true);
    match CUDATileFunctionCompiler::new(
        &mut tape(vec![Reply::Emitted(0)]),
        &names,
        &program,
        &wanted,
    ) {
        Err(Halt::Perform(Request::Hints { listed, gpu_name, options })) => {
            assert_eq!(listed, Some(3));
            assert_eq!(gpu_name, wanted.gpu_name);
            assert_eq!(options, wanted.options);
        },
        _ => panic!("no request"),
    }
    let mut replies = kernel_replies();
    replies.truncate(4);
    match CUDATileFunctionCompiler::new(&mut tape(replies), &names, &program, &wanted) {
        Err(Halt::Perform(Request::GenerateEntry { scalar_hints, strides, .. })) => {
            assert_eq!(scalar_hints.nth(0).unwrap().hint, DivHint { divisor: 8, max: 8 });
            assert_eq!(strides.count(), 1);
        },
        _ => panic!("no request"),
    }
    wanted.options.max_divisibility = Some(4);
    let mut replies = kernel_replies();
    replies.truncate(4);
    match CUDATileFunctionCompiler::new(&mut tape(replies), &names, &program, &wanted) {
        Err(Halt::Perform(Request::GenerateEntry { scalar_hints, .. })) => {
            assert_eq!(scalar_hints.nth(0).unwrap().hint, DivHint { divisor: 4, max: 4 });
        },
        _ => panic!("no request"),
    }
    let (names, kernel) = kernel();
    assert_eq!(kernel.get_validator(), 44);
    assert_eq!(names.text(kernel.gpu_name()), "sm_90");
}

#[test]
fn of_two_strides_under_one_name_the_last_count() {
    let mut names = Names::new();
    let (program, mut wanted) = program(&mut names, Some(attrs(true)), true);
    wanted.stride_args = list(vec![
        StrideArg { name: 60, strides: list(vec![9, 1]) },
        StrideArg { name: 60, strides: list(vec![4, 1]) },
    ]);
    let kernel =
        CUDATileFunctionCompiler::new(&mut tape(kernel_replies()), &names, &program, &wanted);
    match kernel.ok().unwrap().compile_entry_function(&mut tape(vec![]), 9) {
        Err(Halt::Perform(Request::CompileParam { strides, .. })) => {
            let strides = cutile::render::to_token_string(&names, &strides.unwrap());
            assert_eq!(strides, "Array < { [4 , 1] } >");
        },
        _ => panic!("no request"),
    }
}

#[test]
fn entries_are_compiled_from_their_parameters_on() {
    let (names, kernel) = kernel();
    match kernel.compile_entry_function(&mut tape(vec![]), 9) {
        Err(Halt::Perform(Request::CompileParam { ty, strides, .. })) => {
            assert!(type_eq(&ty, &bare(names::I64)));
            let strides = cutile::render::to_token_string(&names, &strides.unwrap());
            assert_eq!(strides, "Array < { [4 , 1] } >");
        },
        _ => panic!("no request"),
    }
    let full = |last: Option<Rc<Value>>| {
        vec![
            Reply::CompiledType(Some(tile(names::I64))),
            Reply::Arguments(list(vec![500])),
            Reply::CompiledType(Some(tile(names::I32))),
            Reply::CompiledType(Some(tile(names::I32))),
            Reply::Scalar(Some(ScalarType::I32)),
            Reply::Emitted(501),
            Reply::Item(function(vec![(60, names::I64, true)])),
            unit_answer(),
            Reply::Item(function(vec![(60, names::I64, true)])),
            Reply::Compiled { value: last, scope: Rc::new(scope(vec![])) },
            Reply::Emitted(502),
        ]
    };
    assert!(matches!(kernel.compile_entry_function(&mut tape(full(None)), 9), Ok(502)));
    match kernel.compile_entry_function(&mut tape(full(Some(Rc::new(value(1, names::I32))))), 9) {
        Err(Halt::Failed(CompileError::ReturnsValue(Place::Body))) => {},
        _ => panic!("an entry"),
    }
    let mut replies = full(None);
    replies.truncate(9);
    match kernel.compile_entry_function(&mut tape(replies), 9) {
        Err(Halt::Perform(Request::CompileBlock { scope, .. })) => {
            assert!(scope.returns_at_end);
            assert_eq!(find_value(&scope.vars, 60).unwrap().handle, 500);
            let constant = find_value(&scope.vars, 61).unwrap();
            assert_eq!(constant.handle, 501);
            assert_eq!(constant.bounds, Some(Bounds { start: 128, end: 128 }));
        },
        _ => panic!("no request"),
    }
    match kernel.compile_entry_function(&mut tape(vec![Reply::CompiledType(None)]), 9) {
        Err(Halt::Failed(CompileError::UncompiledParam(Place::Param(0)))) => {},
        _ => panic!("an entry"),
    }
    let replies = vec![
        Reply::CompiledType(Some(tile(names::I64))),
        Reply::Arguments(list(vec![500])),
        Reply::CompiledType(None),
    ];
    match kernel.compile_entry_function(&mut tape(replies), 9) {
        Err(Halt::Failed(CompileError::UncompiledConstType {
            place: Place::Nowhere,
            kind: ConstKind::Number,
        })) => {},
        _ => panic!("an entry"),
    }
}

#[test]
fn entries_carry_their_hints() {
    let (_, kernel) = kernel();
    let mut replies = entry_replies();
    replies.truncate(1);
    match kernel.compile_entry_function(&mut tape(replies), 9) {
        Err(Halt::Perform(Request::OpenEntry { module, params })) => {
            assert_eq!((module, params.count()), (9, 1));
        },
        _ => panic!("no request"),
    }
    let mut replies = entry_replies();
    replies.truncate(10);
    match kernel.compile_entry_function(&mut tape(replies), 9) {
        Err(Halt::Perform(Request::CloseEntry { name, params, hints })) => {
            assert_eq!(name, 90);
            assert_eq!(params.count(), 1);
            assert_eq!((hints.handle, hints.target), (1, Some(70)));
        },
        _ => panic!("no request"),
    }
}

fn entry_replies() -> Vec<Reply> {
    vec![
        Reply::CompiledType(Some(tile(names::I64))),
        Reply::Arguments(list(vec![500])),
        Reply::CompiledType(Some(tile(names::I32))),
        Reply::CompiledType(Some(tile(names::I32))),
        Reply::Scalar(Some(ScalarType::I32)),
        Reply::Emitted(501),
        Reply::Item(function(vec![(60, names::I64, true)])),
        unit_answer(),
        Reply::Item(function(vec![(60, names::I64, true)])),
        Reply::Compiled { value: None, scope: Rc::new(scope(vec![])) },
        Reply::Emitted(502),
    ]
}

#[test]
fn modules_hold_statics_before_their_entry() {
    let (_, kernel) = kernel();
    let full = || {
        let mut replies = vec![Reply::Emitted(9), Reply::Done];
        replies.extend(entry_replies());
        replies.push(Reply::Done);
        replies
    };
    let count = full().len();
    for taken in 0..count {
        let mut replies = full();
        replies.truncate(taken);
        match kernel.compile(&mut tape(replies)) {
            Err(Halt::Perform(Request::NewModule(name))) => {
                assert_eq!((taken, name), (0, kernel.module_name));
            },
            Err(Halt::Perform(Request::EmitGlobals(module))) => assert_eq!((taken, module), (1, 9)),
            Err(Halt::Perform(Request::PushEntry { module, entry })) => {
                assert_eq!((taken, module, entry), (count - 1, 9, 502));
            },
            Err(Halt::Perform(_)) => assert!(2 <= taken && taken < count - 1),
            _ => panic!("no request"),
        }
    }
    assert!(matches!(kernel.compile(&mut tape(full())), Ok(9)));
}

#[test]
fn entries_are_printed_where_a_kernel_asks_for_it() {
    let mut names = Names::new();
    let mut shown = attrs(false);
    shown.print_ir = true;
    let (program, wanted) = program(&mut names, Some(shown), false);
    match CUDATileFunctionCompiler::new(&mut tape(kernel_replies()), &names, &program, &wanted) {
        Err(Halt::Perform(Request::PrintEntry { module, function, entry })) => {
            assert_eq!(module, wanted.module_name);
            assert_eq!(function, wanted.naming.public_name);
            assert_eq!(entry.name, 90);
        },
        _ => panic!("no request"),
    }
    let mut replies = kernel_replies();
    replies.push(Reply::Done);
    assert!(CUDATileFunctionCompiler::new(&mut tape(replies), &names, &program, &wanted).is_ok());
}

#[test]
fn kernels_dump_their_types() {
    let (names, kernel) = kernel();
    let one = Rc::new(Expr {
        id: Some(4),
        kind: ExprKind::Lit {
            lit: Lit::Int { value: Some(1), spelling: None, suffix: None },
            ty: None,
        },
    });
    let numbered = function_with(vec![(60, names::I64, true)], vec![bound_to(55, one)]);
    let mut answers: Vec<Rc<Answer>> = Vec::new();
    let text = loop {
        let mut replies = vec![
            Reply::CompiledType(Some(tile(names::I64))),
            Reply::CompiledType(Some(tile(names::I32))),
            Reply::Item(Rc::clone(&numbered)),
        ];
        for answer in &answers {
            replies.push(Reply::Answer(Rc::clone(answer)));
        }
        match kernel.debug_typeck_dump(&mut tape(replies), &names) {
            Ok(text) => break text,
            Err(Halt::Perform(Request::Answer { question, generics })) => {
                assert_eq!(generics.handle, 2);
                match usual(&question) {
                    Reply::Answer(answer) => answers.push(answer),
                    _ => panic!("no answer"),
                }
            },
            Err(_) => panic!("no dump"),
        }
    };
    assert_eq!(text, "expr#4: i32");
    assert!(!answers.is_empty());
}

#[test]
fn bodies_are_compiled_with_the_types_found_in_them() {
    let names = Names::new();
    let item = function(vec![(60, names::I64, false)]);
    let used = local(8, 60);
    let numbered =
        function_with(vec![(60, names::I64, false)], vec![bound_to(55, Rc::clone(&used))]);
    let mut replies = call_replies(&item, value(7, names::I32), scope(vec![]), value(7, names::I64));
    replies.truncate(4);
    replies.push(Reply::Item(Rc::clone(&numbered)));
    loop {
        let again = replies.iter().map(|reply| reply.dup()).collect::<Vec<_>>();
        match inline(&names, names::BOOL, &item, again) {
            Err(Halt::Perform(Request::Answer { question, .. })) => replies.push(usual(&question)),
            Err(Halt::Perform(Request::Lower { item: _, results })) => {
                let found = results.expr_type(&used).unwrap();
                assert!(type_eq(&found.rust_ty, &bare(names::I64)));
                break;
            },
            _ => panic!("no request"),
        }
    }
}

#[test]
fn bodies_without_types_fail() {
    let names = Names::new();
    let item = function(vec![(60, names::I64, false)]);
    let annotated = Stmt::Local {
        pat: Rc::new(Pat::Type {
            pat: Rc::new(Pat::Ident { name: 55, mutable: false, subpat: None }),
            ty: bare(names::U8),
        }),
        init: Some(local(8, 60)),
    };
    let numbered = function_with(vec![(60, names::I64, false)], vec![annotated]);
    let outcome = |last: Reply| {
        let mut replies =
            call_replies(&item, value(7, names::I32), scope(vec![]), value(7, names::I64));
        replies.truncate(4);
        replies.push(Reply::Item(Rc::clone(&numbered)));
        replies.push(unit_answer());
        replies.push(last);
        inline(&names, names::BOOL, &item, replies)
    };
    let failed = Reply::Answer(Rc::new(Answer::CompileFailed(8)));
    assert!(matches!(outcome(failed), Err(Halt::Failed(CompileError::Reported(8)))));
    assert!(matches!(
        outcome(Reply::Failed(6)),
        Err(Halt::Failed(CompileError::Reported(6)))
    ));
    assert!(matches!(outcome(Reply::Done), Err(Halt::OutOfStep)));
}

#[test]
fn hidden_names_are_not_in_the_table() {
    let names = list(vec![
        TypedName { name: 1, ty: tile(names::I32) },
        TypedName { name: 1, ty: tile(names::I64) },
    ]);
    let table = make_type_table(&names);
    assert_eq!(table.len(), 1);
    assert!(type_eq(&table[&1].rust_ty, &bare(names::I32)));
}

#[test]
fn locations_are_known_by_their_file() {
    let known = SourceLocation { file: Some(4), line: 10, column: 2 };
    assert_eq!(
        ir_location(&known),
        Location::FileLineCol { filename: 4, line: 10, column: 2 }
    );
    let unknown = SourceLocation { file: None, line: 10, column: 2 };
    assert_eq!(ir_location(&unknown), Location::Unknown);
}

#[test]
fn errors_say_what_they_are_about() {
    let subject = Subject { name: "add", receiver: "Tile < f32 >", is_method: true };
    let text = |error: CompileError| compile_error_text(&error, &subject);
    let expected = [
        (
            CompileError::MissingPayload(Place::Argument(0)),
            "inlined `Some` argument is missing its payload",
        ),
        (
            CompileError::UncompiledPayload(Place::Argument(0)),
            "failed to compile inlined `Some` payload",
        ),
        (CompileError::UncompiledArgument(Place::Argument(0)), "Failed to compile argument: add"),
        (
            CompileError::MethodNotFound(Place::Callee),
            "method `add` not found for receiver type `Tile < f32 >`",
        ),
        (
            CompileError::NoReturnType(Place::Callee),
            "Failed to determine typeck return type for inlined method call `add`",
        ),
        (CompileError::UncompiledParam(Place::Param(0)), "unable to compile parameter type `add`"),
        (
            CompileError::UncompiledConstType { place: Place::OfType, kind: ConstKind::Bool },
            "failed to compile bool constant",
        ),
        (
            CompileError::UncompiledConstType { place: Place::OfType, kind: ConstKind::Number },
            "failed to compile constant",
        ),
        (
            CompileError::UncompiledConstType { place: Place::Nowhere, kind: ConstKind::Array },
            "unable to compile const generic array type",
        ),
        (CompileError::UncompiledArray(Place::Nowhere), "Failed to compile CGA as var."),
        (
            CompileError::ReturnsValue(Place::Body),
            "returning a value from this function is not supported",
        ),
        (
            CompileError::NotConstant {
                place: Place::OfType,
                bounds: Bounds { start: i64::MIN, end: 7 },
            },
            "expected a compile-time constant, but got a value with bounds \
             [-9223372036854775808, 7]",
        ),
        (CompileError::NotScalar(Place::OfType), "expected a scalar element type"),
        (CompileError::UndefinedModule, "Undefined module: add"),
        (CompileError::UndefinedFunction, "Undefined function: add"),
        (
            CompileError::MissingEntryAttribute,
            "function `add` is missing a required `#[entry(...)]` attribute",
        ),
        (
            CompileError::NotUnsafe,
            "kernel must be declared `unsafe` when `unchecked_accesses` is enabled",
        ),
        (CompileError::NameCollision, "Entry point namespace collision: add"),
    ];
    for (error, message) in expected {
        assert_eq!(text(error).as_deref(), Some(message));
    }
    assert_eq!(text(CompileError::Reported(3)), None);
    assert_eq!(
        jit_error_text(&JitError::MissingTypeckEntry).as_deref(),
        Some("missing typeck entry for expression")
    );
    assert_eq!(
        jit_error_text(&JitError::UncompilableType).as_deref(),
        Some("failed to compile typeck expression type")
    );
    assert_eq!(jit_error_text(&JitError::Reported(3)), None);
    let refused = JitError::Unparsed(list(vec!['n', 'o']));
    assert_eq!(jit_error_text(&refused).as_deref(), Some("no"));
    assert_eq!(text(CompileError::Untyped(refused)).as_deref(), Some("no"));
}
