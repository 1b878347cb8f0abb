use cutile::env::{
    Answer, ArrayVar, Entry, Env, Fields, GenericVars, JitError, MethodItem, Question, Resolution, Stop,
    StructDef, FieldDef, TileType,
};
use cutile::exprs::{
    block_diverges, const_expr_is_resolvable, expr_diverges, global_const_shape_expr,
    global_expr_i32, is_unsuffixed_numeric_literal, literal_i32, repeat_length_value,
    static_usize_index,
};
use cutile::codegen::messages::jit_error_text;
use cutile::generics::{generic_type_bounds, merge_generic_type_bounds, TypeBounds};
use cutile::infer::finish::{infer_function, infer_function_within, infer_method};
use cutile::infer::state::TypeInferenceCx;
use cutile::list::List;
use cutile::names::{self, Names};
use cutile::results::TypeckResults;
use cutile::syntax::{
    BinOp, Block, Bound, ClosureParam, Expr, ExprKind, FnItem, GenericParam, Generics, ImplItem, Lit, Member, Pat,
    Path, PathArgs, Predicate, Segment, Stmt, Symbol, Token, Type, UnOp,
};
use cutile::syntax_eq::type_eq;
use cutile::unify::{
    merge_infer_var_kinds, InferVarKind, InferenceState, InferredTy,
};
use std::collections::HashMap;
use std::rc::Rc;

fn list<T>(items: Vec<T>) -> List<T> {
    let mut out = List::Nil;
    for item in items.into_iter().rev() {
        out = List::prepend(Rc::new(item), out);
    }
    out
}

fn path(ident: Symbol) -> Path {
    Path { global: false, segments: list(vec![Segment { ident, args: PathArgs::Bare }]) }
}

fn bare(ident: Symbol) -> Type {
    Type::Path { qself: None, path: path(ident) }
}

fn expr(id: u64, kind: ExprKind) -> Rc<Expr> {
    Rc::new(Expr { id: Some(id), kind })
}

fn whole(id: u64, value: u128) -> Rc<Expr> {
    let lit = Lit::Int { value: Some(value), spelling: None, suffix: None };
    expr(id, ExprKind::Lit { lit, ty: None })
}

fn float(id: u64, digits: Symbol) -> Rc<Expr> {
    expr(id, ExprKind::Lit { lit: Lit::Float { digits, suffix: None }, ty: None })
}

fn local(id: u64, name: Symbol) -> Rc<Expr> {
    expr(id, ExprKind::Path { qself: None, path: path(name) })
}

fn bind(name: Symbol) -> Pat {
    Pat::Ident { name, mutable: false, subpat: None }
}

fn declare(pat: Pat, init: Rc<Expr>) -> Stmt {
    Stmt::Local { pat: Rc::new(pat), init: Some(init) }
}

fn annotated(name: Symbol, ty: Type) -> Pat {
    Pat::Type { pat: Rc::new(bind(name)), ty: Rc::new(ty) }
}

fn block(stmts: Vec<Stmt>) -> Block {
    Block { stmts: list(stmts) }
}

fn no_generics() -> Generics {
    Generics { params: List::Nil, predicates: List::Nil, bindable: List::Nil }
}

fn function(stmts: Vec<Stmt>) -> FnItem {
    FnItem {
        id: 1,
        name: 0,
        generics: no_generics(),
        param_names: List::Nil,
        param_types: List::Nil,
        param_mutable: List::Nil,
        return_type: Rc::new(Type::Tuple(List::Nil)),
        body: block(stmts),
    }
}

fn no_vars() -> GenericVars {
    GenericVars {
        declared: List::Nil,
        inst_types: List::Nil,
        inst_i32: List::Nil,
        inst_bool: List::Nil,
        inst_array: List::Nil,
        len2array: List::Nil,
        ints: List::Nil,
        handle: 0,
    }
}

fn env() -> Env {
    Env {
        names: Rc::new(Names::new()),
        generic_vars: Rc::new(no_vars()),
        structs: List::Nil,
        functions: List::Nil,
        traits: List::Nil,
        trait_impls: List::Nil,
        primitives: List::Nil,
        struct_impls: List::Nil,
        book: List::Nil,
    }
}

fn compiled(ty: &Rc<Type>) -> Rc<TileType> {
    Rc::new(TileType { rust_ty: Rc::clone(ty), params: List::Nil, handle: 1 })
}

/// Answers as a compiler would that compiles every type and knows no methods.
fn usual(question: &Question) -> Answer {
    match question {
        Question::Compile { ty, params: _ } => Answer::Compiled(Some(compiled(ty))),
        Question::ScalarTile(name) => Answer::Compiled(Some(compiled(&Rc::new(bare(*name))))),
        Question::Resolve(_) => Answer::Resolved(Resolution::Other),
        Question::Normalize(ty) => Answer::Normalized(Rc::clone(ty)),
        Question::Head(_) => Answer::Head { ident: None, args: None },
        Question::Dims(_) => Answer::Dims(None),
        Question::Method { .. } => Answer::Method(None),
        _ => panic!("an unusual question"),
    }
}

/// Runs inference until it stops for another reason than a question.
fn run(
    mut env: Env,
    item: &FnItem,
    initial: &HashMap<Symbol, Rc<TileType>>,
    limit: u64,
    answer: &dyn Fn(&Question) -> Answer,
) -> (Env, Result<TypeckResults, Stop>) {
    loop {
        match infer_function_within(&env, limit, item, initial) {
            Err(Stop::Unanswered(question)) => {
                let answer = answer(&question);
                env.book = List::prepend(Rc::new(Entry { question, answer }), env.book);
            },
            other => return (env, other),
        }
    }
}

fn types_of(item: &FnItem) -> TypeckResults {
    match run(env(), item, &HashMap::new(), 1000, &usual) {
        (_, Ok(results)) => results,
        _ => panic!("inference failed"),
    }
}

fn is_typed(results: &TypeckResults, expr: &Expr, name: Symbol) -> bool {
    match results.expr_type(expr) {
        Some(ty) => type_eq(&ty.rust_ty, &bare(name)),
        None => false,
    }
}

#[test]
fn literals_default_to_i32_and_f64() {
    let one = whole(1, 1);
    let half = float(2, 99);
    let results = types_of(&function(vec![
        declare(bind(50), Rc::clone(&one)),
        declare(bind(51), Rc::clone(&half)),
    ]));
    assert!(is_typed(&results, &one, names::I32));
    assert!(is_typed(&results, &half, names::F64));
}

#[test]
fn later_use_types_a_literal() {
    let one = whole(1, 1);
    let used = local(2, 50);
    let results = types_of(&function(vec![
        declare(bind(50), Rc::clone(&one)),
        declare(annotated(51, bare(names::I64)), Rc::clone(&used)),
    ]));
    assert!(is_typed(&results, &one, names::I64));
    assert!(is_typed(&results, &used, names::I64));
}

#[test]
fn operands_are_of_one_type() {
    let one = whole(1, 1);
    let two = whole(2, 2);
    let sum = expr(
        3,
        ExprKind::Binary { op: BinOp::Add, left: Rc::clone(&one), right: local(4, 60) },
    );
    let product = expr(
        5,
        ExprKind::Binary { op: BinOp::Mul, left: Rc::clone(&sum), right: Rc::clone(&two) },
    );
    let item = function(vec![declare(bind(50), Rc::clone(&product))]);
    let mut initial = HashMap::new();
    initial.insert(60, compiled(&Rc::new(bare(names::U32))));
    let results = match run(env(), &item, &initial, 1000, &usual) {
        (_, Ok(results)) => results,
        _ => panic!("inference failed"),
    };
    assert!(is_typed(&results, &one, names::U32));
    assert!(is_typed(&results, &two, names::U32));
    assert!(is_typed(&results, &product, names::U32));
}

#[test]
fn comparisons_give_bool() {
    let less = expr(
        1,
        ExprKind::Binary { op: BinOp::Lt, left: whole(2, 1), right: whole(3, 2) },
    );
    let results = types_of(&function(vec![declare(bind(50), Rc::clone(&less))]));
    assert!(is_typed(&results, &less, names::BOOL));
    assert!(is_typed(&results, &whole(2, 1), names::I32));
}

#[test]
fn branches_are_of_one_type() {
    let one = whole(1, 1);
    let other = local(2, 60);
    let choice = expr(
        3,
        ExprKind::If {
            cond: local(4, 61),
            then_branch: block(vec![Stmt::Expr { expr: Rc::clone(&one), semi: false }]),
            else_branch: Some(expr(
                5,
                ExprKind::Block(block(vec![Stmt::Expr { expr: Rc::clone(&other), semi: false }])),
            )),
        },
    );
    let item = function(vec![declare(bind(50), Rc::clone(&choice))]);
    let mut initial = HashMap::new();
    initial.insert(60, compiled(&Rc::new(bare(names::U64))));
    initial.insert(61, compiled(&Rc::new(bare(names::BOOL))));
    let results = match run(env(), &item, &initial, 1000, &usual) {
        (_, Ok(results)) => results,
        _ => panic!("inference failed"),
    };
    assert!(is_typed(&results, &one, names::U64));
}

#[test]
fn tuples_bind_item_by_item() {
    let one = whole(1, 1);
    let flag = expr(
        2,
        ExprKind::Lit { lit: Lit::Bool(true), ty: Some(Rc::new(bare(names::BOOL))) },
    );
    let used = local(4, 51);
    let results = types_of(&function(vec![
        declare(
            Pat::Tuple(list(vec![bind(50), bind(51)])),
            expr(3, ExprKind::Tuple(list(vec![
                Expr { id: Some(1), kind: ExprKind::Lit {
                    lit: Lit::Int { value: Some(1), spelling: None, suffix: None },
                    ty: None,
                } },
                Expr { id: Some(2), kind: ExprKind::Lit {
                    lit: Lit::Bool(true),
                    ty: Some(Rc::new(bare(names::BOOL))),
                } },
            ]))),
        ),
        declare(bind(52), Rc::clone(&used)),
    ]));
    assert!(is_typed(&results, &one, names::I32));
    assert!(is_typed(&results, &flag, names::BOOL));
    assert!(is_typed(&results, &used, names::BOOL));
}

#[test]
fn assignments_type_what_they_assign_to() {
    let one = whole(1, 1);
    let results = types_of(&function(vec![
        declare(bind(50), Rc::clone(&one)),
        Stmt::Expr {
            expr: expr(2, ExprKind::Assign {
                left: local(3, 50),
                right: expr(4, ExprKind::Cast {
                    expr: whole(5, 7),
                    ty: Rc::new(bare(names::U8)),
                }),
            }),
            semi: true,
        },
    ]));
    assert!(is_typed(&results, &one, names::U8));
}

#[test]
fn loops_bind_the_type_of_their_range() {
    let used = local(7, 50);
    let results = types_of(&function(vec![Stmt::Expr {
        expr: expr(1, ExprKind::ForLoop {
            pat: Rc::new(bind(50)),
            expr: expr(2, ExprKind::Range {
                start: Some(whole(3, 0)),
                end: Some(expr(4, ExprKind::Cast {
                    expr: whole(5, 9),
                    ty: Rc::new(bare(names::U16)),
                })),
            }),
            body: block(vec![declare(bind(51), Rc::clone(&used))]),
        }),
        semi: true,
    }]));
    assert!(is_typed(&results, &used, names::U16));
    assert!(is_typed(&results, &whole(3, 0), names::U16));
}

#[test]
fn fields_have_their_declared_type() {
    let mut env = env();
    let point = Rc::get_mut(&mut env.names).unwrap().intern("Point").unwrap();
    let x = Rc::get_mut(&mut env.names).unwrap().intern("x").unwrap();
    env.structs = list(vec![StructDef {
        name: point,
        fields: Fields::Named(list(vec![FieldDef { name: x, ty: Rc::new(bare(names::I64)) }])),
    }]);
    let field = expr(1, ExprKind::Field { base: local(2, 60), member: Member::Named(x) });
    let item = function(vec![declare(bind(50), Rc::clone(&field))]);
    let mut initial = HashMap::new();
    initial.insert(60, compiled(&Rc::new(bare(point))));
    match run(env, &item, &initial, 1000, &usual) {
        (_, Ok(results)) => assert!(is_typed(&results, &field, names::I64)),
        _ => panic!("inference failed"),
    }
}

/// `const_shape!` of a literal and two identifiers, of which the first is an array of constants.
fn macro_of_shape(env: &mut Env, last: &str) -> ExprKind {
    let mut names = Names::new();
    let four = names.intern("4").unwrap();
    let array = names.intern("S").unwrap();
    let last = names.intern(last).unwrap();
    env.names = Rc::new(names);
    let mut vars = no_vars();
    vars.inst_array = list(vec![ArrayVar { name: array, dims: list(vec![2, -1]) }]);
    env.generic_vars = Rc::new(vars);
    let tokens = list(vec![
        Token::Literal { text: four, expr: whole(10, 4) },
        Token::Comma,
        Token::Ident { name: array, expr: local(11, array) },
        Token::Comma,
        Token::Ident { name: last, expr: local(12, last) },
    ]);
    ExprKind::Macro { path: path(names::CONST_SHAPE), tokens }
}

#[test]
fn macros_make_the_shapes_that_they_list() {
    let mut env = env();
    let shape = expr(1, macro_of_shape(&mut env, "N"));
    let names = Rc::clone(&env.names);
    let item = function(vec![declare(bind(50), Rc::clone(&shape))]);
    match run(env, &item, &HashMap::new(), 1000, &usual) {
        (_, Ok(results)) => {
            let ty = results.expr_type(&shape).unwrap();
            assert_eq!(
                cutile::render::to_token_string(&names, &ty.rust_ty),
                "Shape < { [4 , 2 , - 1 , N] } >"
            );
        },
        _ => panic!("inference failed"),
    }
}

#[test]
fn refused_shapes_fail_with_the_message_of_the_parser() {
    let refusal = |text: &str| syn::parse_str::<syn::Type>(text).err().map(|error| error.to_string());
    let mut env = env();
    let shape = expr(1, macro_of_shape(&mut env, "fn"));
    let item = function(vec![declare(bind(50), shape)]);
    match run(env, &item, &HashMap::new(), 1000, &usual) {
        (_, Err(Stop::Failed(error))) => {
            let message = refusal("Shape<{ [4, 2, -1, fn] }>");
            assert!(message.is_some());
            assert_eq!(jit_error_text(&error), message);
        },
        _ => panic!("no error"),
    }
}

#[test]
fn a_refusal_decides_over_the_shape_of_a_macro() {
    let mut env = env();
    let tokens = match macro_of_shape(&mut env, "N") {
        ExprKind::Macro { tokens, .. } => tokens,
        _ => panic!("no macro"),
    };
    let bounds = TypeBounds::new();
    let cx = TypeInferenceCx::new(&env, &bounds);
    match cx.shape_of_macro(names::ARRAY, &tokens, Some("no")) {
        Err(Stop::Failed(error)) => {
            assert_eq!(error, JitError::Unparsed(list(vec!['n', 'o'])));
        },
        _ => panic!("no error"),
    }
    match cx.shape_of_macro(names::ARRAY, &tokens, None) {
        Err(Stop::Unanswered(Question::Compile { ty, .. })) => {
            assert_eq!(
                cutile::render::to_token_string(&env.names, &ty),
                "Array < { [4 , 2 , - 1 , N] } >"
            );
        },
        _ => panic!("no question"),
    }
}

#[test]
fn questions_come_before_types() {
    let item = function(vec![declare(annotated(50, bare(names::I64)), whole(1, 1))]);
    match infer_function(&env(), &item, &HashMap::new()) {
        Err(Stop::Unanswered(Question::Compile { ty, params: _ })) => {
            assert!(type_eq(&ty, &Type::Tuple(List::Nil)));
        },
        _ => panic!("no question"),
    }
}

#[test]
fn reported_errors_end_inference() {
    let item = function(vec![declare(annotated(50, bare(names::I64)), whole(1, 1))]);
    let failing = |question: &Question| match question {
        Question::Compile { ty, params: _ } => {
            if type_eq(ty, &bare(names::I64)) {
                Answer::CompileFailed(7)
            } else {
                usual(question)
            }
        },
        _ => usual(question),
    };
    match run(env(), &item, &HashMap::new(), 1000, &failing) {
        (_, Err(Stop::Failed(JitError::Reported(7)))) => {},
        _ => panic!("no error"),
    }
}

#[test]
fn deep_nesting_reaches_the_limit() {
    let item = function(vec![declare(bind(50), whole(1, 1))]);
    match run(env(), &item, &HashMap::new(), 1, &usual) {
        (_, Err(Stop::LimitReached)) => {},
        _ => panic!("no limit"),
    }
}

#[test]
fn larger_limits_and_more_answers_change_nothing() {
    let one = whole(1, 1);
    let mut inner = Rc::clone(&one);
    for id in 2..6 {
        inner = expr(id, ExprKind::Paren(inner));
    }
    let item = function(vec![declare(annotated(50, bare(names::U64)), inner)]);
    let mut limit = 1;
    let (mut small, results) = loop {
        match run(env(), &item, &HashMap::new(), limit, &usual) {
            (_, Err(Stop::LimitReached)) => limit += 1,
            (env, Ok(results)) => break (env, results),
            _ => panic!("inference failed"),
        }
    };
    assert!(limit > 5);
    assert!(is_typed(&results, &one, names::U64));
    small.book = List::prepend(
        Rc::new(Entry { question: Question::ScalarTile(names::BOOL), answer: Answer::Compiled(None) }),
        small.book,
    );
    for larger in [limit, limit + 1, u64::MAX] {
        match infer_function_within(&small, larger, &item, &HashMap::new()) {
            Ok(again) => assert!(is_typed(&again, &one, names::U64)),
            Err(_) => panic!("inference failed"),
        }
    }
    match infer_function(&small, &item, &HashMap::new()) {
        Ok(again) => assert!(is_typed(&again, &one, names::U64)),
        Err(_) => panic!("inference failed"),
    }
}

#[test]
fn casts_are_of_the_type_that_they_name() {
    let cast = expr(1, ExprKind::Cast { expr: whole(2, 1), ty: Rc::new(bare(names::U64)) });
    let results = types_of(&function(vec![declare(bind(50), Rc::clone(&cast))]));
    assert!(is_typed(&results, &cast, names::U64));
    assert!(is_typed(&results, &whole(2, 1), names::I32));
}

#[test]
fn names_of_a_closure_stay_inside() {
    let inside = local(1, 70);
    let closure = expr(
        2,
        ExprKind::Closure {
            params: list(vec![ClosureParam { name: 70, ty: Some(Rc::new(bare(names::U32))) }]),
            body: Rc::clone(&inside),
        },
    );
    let outside = local(3, 70);
    let results = types_of(&function(vec![
        Stmt::Expr { expr: closure, semi: true },
        Stmt::Expr { expr: Rc::clone(&outside), semi: true },
    ]));
    assert!(is_typed(&results, &inside, names::U32));
    assert!(results.expr_type(&outside).is_none());
}

#[test]
fn methods_are_selected_for_their_call() {
    let mut env = env();
    let own = Rc::get_mut(&mut env.names).unwrap().intern("Own").unwrap();
    let get = Rc::get_mut(&mut env.names).unwrap().intern("get").unwrap();
    let receiver = local(2, 60);
    let call = expr(1, ExprKind::MethodCall {
        receiver: Rc::clone(&receiver),
        method: get,
        turbofish: None,
        args: List::Nil,
    });
    let item = function(vec![declare(bind(50), Rc::clone(&call))]);
    let mut initial = HashMap::new();
    initial.insert(60, compiled(&Rc::new(bare(own))));
    let method = Rc::new(FnItem {
        id: 8,
        name: get,
        generics: no_generics(),
        param_names: list(vec![70]),
        param_types: list(vec![bare(own)]),
        param_mutable: list(vec![false]),
        return_type: Rc::new(bare(names::U32)),
        body: block(vec![]),
    });
    let impl_item = Rc::new(ImplItem {
        id: 9,
        generics: no_generics(),
        self_ty: Rc::new(bare(own)),
        methods: List::Nil,
    });
    let answer = |question: &Question| match question {
        Question::Head(_) => Answer::Head { ident: Some(own), args: None },
        Question::Method { .. } => Answer::Method(Some(Rc::new(MethodItem {
            module: 3,
            impl_item: Rc::clone(&impl_item),
            method: Rc::clone(&method),
        }))),
        Question::EmptyVars(_) => Answer::Vars(Rc::new(no_vars())),
        Question::InferredVars(_) => Answer::Vars(Rc::new(no_vars())),
        Question::MergedVars { .. } => Answer::Vars(Rc::new(no_vars())),
        Question::PassedVars { .. } => Answer::Vars(Rc::new(no_vars())),
        Question::Verified(_) => Answer::Verified(true),
        Question::Instantiate { solver: _, ty } => Answer::Instantiated(Rc::clone(ty)),
        Question::Bindings(_) => Answer::Bindings(List::Nil),
        _ => usual(question),
    };
    match run(env, &item, &initial, 1000, &answer) {
        (env, Ok(results)) => {
            assert!(is_typed(&results, &call, names::U32));
            let selected = results.method_selection(&call).unwrap();
            assert_eq!(selected.module_name, 3);
            assert_eq!(selected.impl_method.id, 8);
            assert!(results.debug_dump(&env.names).contains("expr#1"));
        },
        _ => panic!("inference failed"),
    }
}

#[test]
fn bounds_of_an_impl_hold_in_its_methods() {
    let scalar = names::SCALAR;
    let outer = Generics {
        params: list(vec![GenericParam::Type {
            name: 80,
            bounds: list(vec![Bound::Trait(path(scalar))]),
        }]),
        predicates: List::Nil,
        bindable: List::Nil,
    };
    let inner = Generics {
        params: List::Nil,
        predicates: list(vec![Predicate::Type {
            bounded: Rc::new(bare(80)),
            bounds: list(vec![
                Bound::Trait(path(names::ELEMENT_TYPE)),
                Bound::Trait(path(scalar)),
            ]),
        }]),
        bindable: List::Nil,
    };
    let mut bounds = generic_type_bounds(&outer);
    merge_generic_type_bounds(&mut bounds, &generic_type_bounds(&inner));
    let traits = bounds.get(80);
    assert_eq!(traits.count(), 2);
    assert_eq!(traits.nth(0).map(|name| *name), Some(scalar));
    assert_eq!(traits.nth(1).map(|name| *name), Some(names::ELEMENT_TYPE));

    let impl_item = ImplItem {
        id: 2,
        generics: outer,
        self_ty: Rc::new(bare(81)),
        methods: List::Nil,
    };
    let method = function(vec![]);
    let mut env = env();
    loop {
        match infer_method(&env, &impl_item, &method, &HashMap::new()) {
            Err(Stop::Unanswered(question)) => {
                let answer = usual(&question);
                env.book = List::prepend(Rc::new(Entry { question, answer }), env.book);
            },
            Err(_) => panic!("inference failed"),
            Ok(results) => {
                assert_eq!(results.debug_dump(&env.names), "");
                break;
            },
        }
    }
}

#[test]
fn missing_types_are_errors() {
    let results = TypeckResults::new();
    let one = whole(1, 1);
    assert_eq!(results.required_syn_expr_type(&one).err(), Some(JitError::MissingTypeckEntry));
    assert_eq!(
        results.required_resolved_expr_type(&one).err(),
        Some(JitError::MissingTypeckEntry)
    );
    assert!(matches!(
        results.required_tile_expr_type(&env(), &one, &List::Nil),
        Err(Stop::Failed(JitError::MissingTypeckEntry))
    ));
}

#[test]
fn filed_types_that_do_not_compile_are_errors() {
    let mut env = env();
    let one = whole(1, 1);
    let mut results = TypeckResults::new();
    let form = cutile::resolved::ResolvedType::from_syn_type(&env.names, &Rc::new(bare(names::I32)));
    results.insert_resolved_expr_type(&one, form);
    let question = Question::Compile { ty: Rc::new(bare(names::I32)), params: List::Nil };
    env.book = list(vec![Entry { question, answer: Answer::Compiled(None) }]);
    assert!(matches!(
        results.required_tile_expr_type(&env, &one, &List::Nil),
        Err(Stop::Failed(JitError::UncompilableType))
    ));
}

#[test]
fn joined_variables_share_what_is_known() {
    let names = Names::new();
    let mut state = InferenceState::new();
    let a = state.new_infer_var(InferVarKind::Int, Some(1), None);
    let b = state.new_infer_var(InferVarKind::General, Some(2), None);
    let c = state.new_infer_var(InferVarKind::Float, Some(3), None);
    let joined = state.unify_terms(&names, &a, &b);
    assert!(matches!(joined, InferredTy::Var(_)));
    assert!(matches!(state.unify_terms(&names, &b, &c), InferredTy::Unknown));
    let i64_type = compiled(&Rc::new(bare(names::I64)));
    assert!(matches!(state.unify_with_known(&names, &b, &i64_type), InferredTy::Known(_)));
    assert!(type_eq(&state.term_known_type(&a).unwrap().rust_ty, &bare(names::I64)));
    let f64_type = compiled(&Rc::new(bare(names::F64)));
    assert!(matches!(
        state.unify_with_known(&names, &c, &i64_type),
        InferredTy::Var(_)
    ));
    assert!(matches!(state.unify_with_known(&names, &c, &f64_type), InferredTy::Known(_)));
    assert!(state.expr_term(Some(9)).is_none());
}

#[test]
fn kinds_merge_unless_they_exclude_each_other() {
    assert_eq!(
        merge_infer_var_kinds(InferVarKind::General, InferVarKind::Int),
        Some(InferVarKind::Int)
    );
    assert_eq!(merge_infer_var_kinds(InferVarKind::Int, InferVarKind::Float), None);
}

#[test]
fn constant_expressions_are_read() {
    let minus = Expr { id: None, kind: ExprKind::Unary { op: UnOp::Neg, expr: whole(1, 5) } };
    assert_eq!(global_expr_i32(&minus), Some(-5));
    assert_eq!(
        literal_i32(&Lit::Int { value: Some(1 << 40), spelling: None, suffix: None }),
        None
    );
    assert_eq!(static_usize_index(&whole(1, 3)), Some(3));
    assert_eq!(repeat_length_value(&whole(1, 4), &no_vars()), Some(4));
    assert!(const_expr_is_resolvable(&whole(1, 4), &no_vars()));
    assert!(is_unsuffixed_numeric_literal(&whole(1, 4)));
}

#[test]
fn negative_repeat_counts_are_malformed() {
    let repeat = Expr {
        id: None,
        kind: ExprKind::Repeat {
            expr: whole(1, 2),
            len: Rc::new(Expr {
                id: None,
                kind: ExprKind::Unary { op: UnOp::Neg, expr: whole(2, 1) },
            }),
        },
    };
    match global_const_shape_expr(&repeat) {
        Err(error) => assert_eq!(error, JitError::MalformedShape),
        Ok(_) => panic!("a shape"),
    }
    let three = Expr {
        id: None,
        kind: ExprKind::Repeat { expr: whole(1, 2), len: whole(2, 3) },
    };
    match global_const_shape_expr(&three) {
        Ok(Some(dims)) => assert_eq!(dims.count(), 3),
        _ => panic!("no shape"),
    }
}

#[test]
fn returns_diverge() {
    let back = expr(1, ExprKind::Return(None));
    assert!(expr_diverges(&back));
    assert!(block_diverges(&block(vec![Stmt::Expr { expr: back, semi: true }])));
    assert!(!expr_diverges(&whole(1, 1)));
}
