use cutile::list::List;
use cutile::literals::{make_int_literal, read_int_literal, ReadLiteral};
use cutile::names::{self, starts_with, text_eq, Names};
use cutile::receiver::receiver_adjustment_candidates;
use cutile::render::to_token_string;
use cutile::resolved::ResolvedType;
use cutile::scalar::{
    is_builtin_scalar_name, is_float_scalar_name, is_integer_scalar_name,
    is_likely_unresolved_type_param, ResolvedScalarType,
};
use cutile::syntax::{
    Block, Expr, ExprKind, GenericArg, Lit, Path, PathArgs, QSelf, Segment, Stmt, Symbol, Type, UnOp,
};
use cutile::syntax_eq::type_eq;
use cutile::types::{
    autoderef_type_chain, can_add_type_constraint, global_tile_syn_type, option_payload_syn_type,
    option_type, replace_array_len_with_rank, substitute_self_type, type_has_impl_trait,
};
use std::rc::Rc;

fn list<T>(items: Vec<T>) -> List<T> {
    let mut out = List::Nil;
    for item in items.into_iter().rev() {
        out = List::prepend(Rc::new(item), out);
    }
    out
}

fn items<T>(list: &List<T>) -> Vec<Rc<T>> {
    let mut out = Vec::new();
    let mut rest = list;
    while let List::Cons(head, tail) = rest {
        out.push(Rc::clone(head));
        rest = &**tail;
    }
    out
}

fn name(names: &mut Names, text: &str) -> Symbol {
    names.intern(text).unwrap()
}

fn applied(ident: Symbol, args: PathArgs) -> Type {
    Type::Path {
        qself: None,
        path: Path { global: false, segments: list(vec![Segment { ident, args }]) },
    }
}

fn bare(ident: Symbol) -> Type {
    applied(ident, PathArgs::Bare)
}

fn whole(value: u128) -> Expr {
    Expr {
        id: None,
        kind: ExprKind::Lit {
            lit: Lit::Int { value: Some(value), spelling: None, suffix: None },
            ty: None,
        },
    }
}

fn shape(dims: Vec<u128>) -> Expr {
    let array = Expr {
        id: None,
        kind: ExprKind::Array(list(dims.into_iter().map(whole).collect())),
    };
    Expr {
        id: None,
        kind: ExprKind::Block(Block {
            stmts: list(vec![Stmt::Expr { expr: Rc::new(array), semi: false }]),
        }),
    }
}

fn tensor(names: &mut Names, element: Symbol, dims: Vec<u128>) -> Type {
    let ident = name(names, "Tensor");
    applied(
        ident,
        PathArgs::Angle(list(vec![
            GenericArg::Type(Rc::new(bare(element))),
            GenericArg::Const(Rc::new(shape(dims))),
        ])),
    )
}

fn reference(mutable: bool, ty: Type) -> Type {
    Type::Reference { lifetime: None, mutable, elem: Rc::new(ty) }
}

#[test]
fn resolved_type_round_trips_common_syn_types() {
    let mut names = Names::new();
    let tensor = tensor(&mut names, names::F32, vec![16, 32]);
    let cases = vec![
        bare(names::I32),
        bare(names::BOOL),
        reference(true, tensor),
        Type::Tuple(list(vec![bare(names::I32), bare(names::F32)])),
        Type::Array { elem: Rc::new(bare(names::I32)), len: Rc::new(whole(4)) },
        Type::Ptr { mutable: true, elem: Rc::new(bare(names::F32)) },
        Type::Never,
    ];

    for ty in cases {
        let ty = Rc::new(ty);
        let resolved = ResolvedType::from_syn_type(&names, &ty);
        assert!(type_eq(&resolved.to_syn_type(), &ty));
    }
}

#[test]
fn resolved_forms_tell_types_apart() {
    let mut names = Names::new();
    let own = name(&mut names, "Own");
    let cases = [
        (ResolvedType::from_syn_type(&names, &Rc::new(bare(names::I32))), "scalar"),
        (ResolvedType::from_syn_type(&names, &Rc::new(bare(own))), "adt"),
        (ResolvedType::from_syn_type(&names, &Rc::new(Type::Tuple(List::Nil))), "unit"),
        (ResolvedType::from_syn_type(&names, &Rc::new(Type::Infer)), "surface"),
    ];
    for (form, kind) in cases {
        let found = match form {
            ResolvedType::Scalar(_) => "scalar",
            ResolvedType::Adt { path: _ } => "adt",
            ResolvedType::Unit => "unit",
            ResolvedType::Surface(_) => "surface",
            _ => "other",
        };
        assert_eq!(found, kind);
    }
}

#[test]
fn resolving_drops_a_lifetime() {
    let mut names = Names::new();
    let lifetime = name(&mut names, "'a");
    let ty = Rc::new(Type::Reference {
        lifetime: Some(lifetime),
        mutable: false,
        elem: Rc::new(bare(names::I32)),
    });
    let back = ResolvedType::from_syn_type(&names, &ty).to_syn_type();
    assert!(!type_eq(&back, &ty));
    assert!(type_eq(&back, &reference(false, bare(names::I32))));
}

#[test]
fn builtin_scalar_names_include_pointer_sized_integers() {
    assert!(is_builtin_scalar_name("usize"));
    assert!(is_builtin_scalar_name("isize"));
}

#[test]
fn scalar_names_are_of_one_sort() {
    for text in ["i8", "u8", "i16", "u16", "i32", "u32", "i64", "u64", "isize", "usize"] {
        assert!(is_integer_scalar_name(text));
        assert!(!is_float_scalar_name(text));
    }
    for text in ["f16", "f32", "f64"] {
        assert!(is_float_scalar_name(text));
        assert!(!is_integer_scalar_name(text));
    }
    assert!(!is_builtin_scalar_name("Tile"));
    assert!(ResolvedScalarType::from_ident("i32").is_some());
    assert!(ResolvedScalarType::from_ident("Tile").is_none());
}

#[test]
fn upper_case_names_look_like_type_params() {
    assert!(is_likely_unresolved_type_param("T"));
    assert!(is_likely_unresolved_type_param("Tile"));
    assert!(is_likely_unresolved_type_param("_"));
    assert!(!is_likely_unresolved_type_param("tile"));
    assert!(!is_likely_unresolved_type_param(""));
}

#[test]
fn receiver_adjustments_include_autoref_and_autoderef_candidates() {
    let mut names = Names::new();
    let receiver = reference(true, tensor(&mut names, names::F32, vec![4]));
    let candidates = items(&receiver_adjustment_candidates(&names, &Rc::new(receiver), true))
        .iter()
        .map(|ty| to_token_string(&names, ty))
        .collect::<Vec<_>>();

    assert!(candidates.contains(&"& mut Tensor < f32 , { [4] } >".to_string()));
    assert!(candidates.contains(&"Tensor < f32 , { [4] } >".to_string()));
    assert!(candidates.contains(&"& Tensor < f32 , { [4] } >".to_string()));
}

#[test]
fn receiver_adjustments_do_not_add_mut_borrow_for_immutable_receivers() {
    let mut names = Names::new();
    let receiver = tensor(&mut names, names::F32, vec![4]);
    let candidates = items(&receiver_adjustment_candidates(&names, &Rc::new(receiver), false))
        .iter()
        .map(|ty| to_token_string(&names, ty))
        .collect::<Vec<_>>();

    assert!(candidates.contains(&"Tensor < f32 , { [4] } >".to_string()));
    assert!(candidates.contains(&"& Tensor < f32 , { [4] } >".to_string()));
    assert!(!candidates.contains(&"& mut Tensor < f32 , { [4] } >".to_string()));
}

#[test]
fn receiver_is_the_first_candidate() {
    let mut names = Names::new();
    let receiver = Rc::new(tensor(&mut names, names::F32, vec![4]));
    let candidates = items(&receiver_adjustment_candidates(&names, &receiver, true));
    assert!(type_eq(&candidates[0], &receiver));
}

#[test]
fn tokens_are_printed_with_spaces() {
    let mut names = Names::new();
    let ty = tensor(&mut names, names::F32, vec![16, 32]);
    assert_eq!(to_token_string(&names, &ty), "Tensor < f32 , { [16 , 32] } >");
    assert_eq!(to_token_string(&names, &reference(false, bare(names::I32))), "& i32");
    let array = Type::Array { elem: Rc::new(bare(names::I32)), len: Rc::new(whole(4)) };
    assert_eq!(to_token_string(&names, &array), "[i32 ; 4]");
}

#[test]
fn groups_print_as_what_they_hold() {
    let names = Names::new();
    let plain = to_token_string(&names, &bare(names::I32));
    let group = to_token_string(&names, &Type::Group(Rc::new(bare(names::I32))));
    assert_eq!(plain, "i32");
    assert_eq!(group, plain);
}

#[test]
fn known_names_have_their_text() {
    let mut names = Names::new();
    assert_eq!(names.text(names::I32), "i32");
    assert_eq!(names.text(names::WITH_VALUE), "Some");
    assert_eq!(names.text(names::PARTITION_INDEX), "PartitionIndex");
    assert_eq!(names.intern("i32"), Some(names::I32));
    let new = names.intern("kernel").unwrap();
    assert_eq!(names.text(new), "kernel");
    assert_eq!(names.intern("kernel"), Some(new));
    assert_eq!(names.text(9999), "");
}

#[test]
fn texts_are_compared_by_their_characters() {
    assert!(text_eq("tile", "tile"));
    assert!(!text_eq("tile", "tiles"));
    assert!(starts_with("Shape_2", "Shape_"));
    assert!(!starts_with("Sha", "Shape_"));
}

#[test]
fn option_types_hold_their_payload() {
    let ty = option_type(Rc::new(bare(names::I32)));
    let payload = option_payload_syn_type(&ty).unwrap();
    assert!(type_eq(&payload, &bare(names::I32)));
    assert!(option_payload_syn_type(&bare(names::I32)).is_none());
}

#[test]
fn global_tiles_have_element_and_shape() {
    let names = Names::new();
    let ty = global_tile_syn_type(&Rc::new(bare(names::F32)), &list(vec![2, 3]));
    assert_eq!(to_token_string(&names, &ty), "Tile < f32 , { [2 , 3] } >");
}

#[test]
fn self_is_replaced_everywhere() {
    let mut names = Names::new();
    let own = name(&mut names, "Own");
    let ty = Rc::new(Type::Tuple(list(vec![
        bare(names::SELF_TYPE),
        reference(false, bare(names::SELF_TYPE)),
    ])));
    let replaced = substitute_self_type(&ty, &Rc::new(bare(own)));
    let expected = Type::Tuple(list(vec![bare(own), reference(false, bare(own))]));
    assert!(type_eq(&replaced, &expected));
}

#[test]
fn references_are_peeled_one_by_one() {
    let ty = Rc::new(reference(false, reference(true, bare(names::I32))));
    let chain = items(&autoderef_type_chain(&ty));
    assert_eq!(chain.len(), 3);
    assert!(type_eq(&chain[0], &ty));
    assert!(type_eq(&chain[2], &bare(names::I32)));
}

#[test]
fn array_lengths_take_the_rank() {
    let path = Path {
        global: false,
        segments: list(vec![Segment { ident: 70, args: PathArgs::Bare }]),
    };
    let rank = Expr { id: None, kind: ExprKind::Path { qself: None, path } };
    let named = Rc::new(Type::Array { elem: Rc::new(bare(names::I32)), len: Rc::new(rank) });
    let fixed = Rc::new(Type::Array { elem: Rc::new(bare(names::I32)), len: Rc::new(whole(9)) });
    for (ty, expected) in [(named, 3), (fixed, 9)] {
        match &*replace_array_len_with_rank(&ty, 3) {
            Type::Array { elem: _, len } => match &len.kind {
                ExprKind::Lit { lit: Lit::Int { value, .. }, .. } => {
                    assert_eq!(*value, Some(expected));
                },
                _ => panic!("no literal"),
            },
            _ => panic!("no array"),
        }
    }
}

#[test]
fn impl_types_are_seen_inside_others() {
    let mut names = Names::new();
    let text = name(&mut names, "impl Scalar");
    let ty = reference(false, Type::ImplTrait(text));
    assert!(type_has_impl_trait(&ty));
    assert!(!type_has_impl_trait(&reference(false, bare(names::I32))));
}

#[test]
fn constraints_need_the_same_form() {
    let mut names = Names::new();
    let param = tensor(&mut names, names::F32, vec![4]);
    let arg = tensor(&mut names, names::F32, vec![8]);
    assert!(can_add_type_constraint(&param, &arg));
    assert!(!can_add_type_constraint(&param, &bare(names::I32)));
    assert!(can_add_type_constraint(&reference(false, bare(names::I32)), &arg));
    assert!(!can_add_type_constraint(&Type::ImplTrait(80), &arg));
}

#[test]
fn integer_literals_are_split() {
    let mut names = Names::new();
    match read_int_literal(&mut names, "0x1F_u8") {
        ReadLiteral::Literal(Lit::Int { value, spelling, suffix }) => {
            assert_eq!(value, Some(31));
            assert_eq!(names.text(spelling.unwrap()), "0x1F_");
            assert_eq!(names.text(suffix.unwrap()), "u8");
        },
        _ => panic!("no literal"),
    }
    match read_int_literal(&mut names, "128") {
        ReadLiteral::Literal(Lit::Int { value, spelling, suffix }) => {
            assert_eq!(value, Some(128));
            assert_eq!(spelling, None);
            assert_eq!(suffix, None);
        },
        _ => panic!("no literal"),
    }
    assert!(matches!(read_int_literal(&mut names, "1.5"), ReadLiteral::NotAnInteger));
    assert!(matches!(read_int_literal(&mut names, "tile"), ReadLiteral::NotAnInteger));
}

#[test]
fn large_literals_have_no_value() {
    let mut names = Names::new();
    let text = "340282366920938463463374607431768211456";
    match make_int_literal(&mut names, text, text, "") {
        Some(Lit::Int { value, spelling, suffix }) => {
            assert_eq!(value, None);
            assert_eq!(names.text(spelling.unwrap()), text);
            assert_eq!(suffix, None);
        },
        _ => panic!("no literal"),
    }
    let text = "340282366920938463463374607431768211455";
    match make_int_literal(&mut names, text, text, "") {
        Some(Lit::Int { value, .. }) => assert_eq!(value, Some(u128::MAX)),
        _ => panic!("no literal"),
    }
}

#[test]
fn negative_numbers_print_with_their_sign() {
    let names = Names::new();
    let len = Expr {
        id: None,
        kind: ExprKind::Unary { op: UnOp::Neg, expr: Rc::new(whole(1)) },
    };
    let ty = Type::Array { elem: Rc::new(bare(names::I32)), len: Rc::new(len) };
    assert_eq!(to_token_string(&names, &ty), "[i32 ; - 1]");
}

#[test]
fn qualified_types_stay_as_they_are() {
    let mut names = Names::new();
    let zero = name(&mut names, "ZERO");
    let ty = Rc::new(Type::Path {
        qself: Some(Rc::new(QSelf { ty: Rc::new(bare(names::I32)), position: 0 })),
        path: Path {
            global: false,
            segments: list(vec![Segment { ident: zero, args: PathArgs::Bare }]),
        },
    });
    assert!(matches!(ResolvedType::from_syn_type(&names, &ty), ResolvedType::Surface(_)));
    assert!(type_eq(&ResolvedType::from_syn_type(&names, &ty).to_syn_type(), &ty));
}
