use query_ast::ast::{Assign, FuncCall, Item, ItemKind, NamedArg, ShapeError, ShapeKind, Transformation};

fn ident(s: &str) -> Item {
    Item::Ident(s.to_string())
}

#[test]
fn test_as_item() {
    let atom = ident("a");

    // Gets the single item through one level of nesting.
    let item = Item::List(vec![ident("a")]);
    assert_eq!(item.as_item(), &atom);

    // No change when it's the same.
    let item = ident("a");
    assert_eq!(item.as_item(), &item);

    // No change when there are two items in the `items`.
    let item = Item::Items(vec![ident("a"), ident("a")]);
    assert_eq!(item.as_item(), &item);

    // Gets the single item through two levels of nesting.
    let item = Item::Items(vec![Item::Items(vec![ident("a")])]);
    assert_eq!(item.as_item(), &atom);
}

#[test]
fn single_wrap_unwraps_for_each_container() {
    assert_eq!(Item::List(vec![ident("x")]).into_item(), ident("x"));
    assert_eq!(Item::Items(vec![ident("x")]).into_item(), ident("x"));
    assert_eq!(Item::Expr(vec![ident("x")]).into_item(), ident("x"));
    assert_eq!(
        Item::List(vec![Item::Raw("1 + 2".to_string())]).into_item(),
        Item::Raw("1 + 2".to_string())
    );
}

#[test]
fn multi_element_containers_are_fixed_points() {
    let item = Item::Items(vec![ident("a"), ident("b")]);
    assert_eq!(
        item.into_item(),
        Item::Items(vec![ident("a"), ident("b")])
    );
    let three = Item::Expr(vec![ident("a"), ident("b"), ident("c")]);
    assert_eq!(
        three.as_item(),
        &Item::Expr(vec![ident("a"), ident("b"), ident("c")])
    );
}

#[test]
fn empty_containers_are_fixed_points() {
    assert_eq!(Item::List(vec![]).into_item(), Item::List(vec![]));
    assert_eq!(Item::Items(vec![]).as_item(), &Item::Items(vec![]));
    assert_eq!(Item::Expr(vec![]).into_item(), Item::Expr(vec![]));
}

#[test]
fn nested_two_level_collapse() {
    let item = Item::Items(vec![Item::Items(vec![ident("a")])]);
    assert_eq!(item.into_item(), ident("a"));
    let item = Item::List(vec![Item::Expr(vec![Item::Items(vec![ident("a")])])]);
    assert_eq!(item.into_item(), ident("a"));
    let item = Item::Items(vec![ident("a"), ident("a")]);
    assert_eq!(item.into_item(), Item::Items(vec![ident("a"), ident("a")]));
}

#[test]
fn into_items_is_total() {
    // Non-containers become one-element vectors.
    assert_eq!(ident("a").into_items(), vec![ident("a")]);
    assert_eq!(
        Item::StringLiteral("s".to_string()).into_items(),
        vec![Item::StringLiteral("s".to_string())]
    );
    // Containers hand back exactly their contents, in order.
    let item = Item::List(vec![ident("a"), ident("b")]);
    assert_eq!(item.into_items(), vec![ident("a"), ident("b")]);
    let item = Item::Expr(vec![ident("b"), ident("a")]);
    assert_eq!(item.into_items(), vec![ident("b"), ident("a")]);
    let item = Item::Items(vec![]);
    assert_eq!(item.into_items(), vec![]);
}

#[test]
fn as_ident_accepts_ident_and_single_idents() {
    assert_eq!(ident("a").as_ident(), Ok(&"a".to_string()));
    let item = Item::Idents(vec!["a".to_string()]);
    assert_eq!(item.as_ident(), Ok(&"a".to_string()));
}

#[test]
fn as_ident_rejects_multiple_idents_with_count() {
    let item = Item::Idents(vec!["a".to_string(), "b".to_string()]);
    match item.as_ident() {
        Err(ShapeError::WrongIdentCount { count, idents }) => {
            assert_eq!(count, 2);
            assert_eq!(idents, vec!["a".to_string(), "b".to_string()]);
        }
        other => panic!("expected a count mismatch, got {:?}", other),
    }
}

#[test]
fn as_ident_rejects_other_variants() {
    let item = Item::StringLiteral("a".to_string());
    assert_eq!(
        item.as_ident(),
        Err(ShapeError::WrongVariant {
            expected: ShapeKind::Identifier,
            found: ItemKind::StringLiteral,
            value: "StringLiteral(\"a\")".to_string(),
        })
    );
}

#[test]
fn typed_extractors_succeed_on_their_variant() {
    let item = Item::Items(vec![ident("a")]);
    assert_eq!(item.as_items(), Ok(&vec![ident("a")]));

    let item = Item::NamedArg(NamedArg {
        name: "n".to_string(),
        arg: Box::new(ident("v")),
    });
    assert!(item.as_named_arg().is_ok());
    assert_eq!(item.as_named_arg().unwrap().name, "n".to_string());

    let item = Item::Assign(Assign {
        lvalue: "x".to_string(),
        rvalue: Box::new(ident("y")),
    });
    assert!(item.as_assign().is_ok());
    assert_eq!(item.as_assign().unwrap().lvalue, "x".to_string());

    let item = Item::Raw("select 1".to_string());
    assert_eq!(item.as_raw(), Ok(&"select 1".to_string()));
}

#[test]
fn typed_extractors_fail_on_other_variants() {
    let item = ident("a");
    assert_eq!(
        item.as_items(),
        Err(ShapeError::WrongVariant {
            expected: ShapeKind::ItemSequence,
            found: ItemKind::Ident,
            value: "Ident(\"a\")".to_string(),
        })
    );
    assert_eq!(
        item.as_named_arg(),
        Err(ShapeError::WrongVariant {
            expected: ShapeKind::NamedArgument,
            found: ItemKind::Ident,
            value: "Ident(\"a\")".to_string(),
        })
    );
    assert_eq!(
        item.as_assign(),
        Err(ShapeError::WrongVariant {
            expected: ShapeKind::Assignment,
            found: ItemKind::Ident,
            value: "Ident(\"a\")".to_string(),
        })
    );
    assert_eq!(
        item.as_raw(),
        Err(ShapeError::WrongVariant {
            expected: ShapeKind::RawContent,
            found: ItemKind::Ident,
            value: "Ident(\"a\")".to_string(),
        })
    );
}

#[test]
fn transformation_names() {
    assert_eq!(Transformation::From(vec![ident("t")]).name(), "from");
    assert_eq!(Transformation::Select(vec![]).name(), "select");
    assert_eq!(
        Transformation::Filter(query_ast::ast::Filter(vec![])).name(),
        "filter"
    );
    assert_eq!(Transformation::Derive(vec![]).name(), "derive");
    assert_eq!(
        Transformation::Aggregate { by: vec![], calcs: vec![], assigns: vec![] }.name(),
        "aggregate"
    );
    assert_eq!(Transformation::Sort(vec![]).name(), "sort");
    assert_eq!(Transformation::Take(10).name(), "take");
    assert_eq!(Transformation::Join(vec![]).name(), "join");
    assert_eq!(
        Transformation::Func(FuncCall {
            name: "myudf".to_string(),
            args: vec![],
            named_args: vec![],
        })
        .name(),
        "myudf"
    );
}

#[test]
fn shape_error_messages() {
    let item = Item::StringLiteral("a".to_string());
    let err = item.as_ident().unwrap_err();
    assert_eq!(
        err.message(),
        "expected an Identifier, got StringLiteral(\"a\")".to_string()
    );

    let item = Item::Idents(vec!["a".to_string(), "b".to_string()]);
    let err = item.as_ident().unwrap_err();
    assert_eq!(
        err.message(),
        "expected 1 identifier, got 2; [\"a\", \"b\"]".to_string()
    );

    let item = Item::Ident("a".to_string());
    assert_eq!(
        item.as_items().unwrap_err().message(),
        "expected Items, got Ident(\"a\")".to_string()
    );
    assert_eq!(
        item.as_raw().unwrap_err().message(),
        "expected RawText, got Ident(\"a\")".to_string()
    );
}

#[test]
fn decimal_rendering() {
    assert_eq!(query_ast::ast::usize_to_string(0), "0".to_string());
    assert_eq!(query_ast::ast::usize_to_string(7), "7".to_string());
    assert_eq!(query_ast::ast::usize_to_string(42), "42".to_string());
    assert_eq!(
        query_ast::ast::usize_to_string(1234567890),
        "1234567890".to_string()
    );
}

#[test]
fn rendering_shows_the_item_contents() {
    let item = Item::List(vec![ident("a"), Item::Raw("1 + 2".to_string())]);
    assert_eq!(item.render(), "List([Ident(\"a\"), Raw(\"1 + 2\")])".to_string());

    let item = Item::Items(vec![]);
    assert_eq!(item.render(), "Items([])".to_string());

    let item = Item::Idents(vec!["db".to_string(), "col".to_string()]);
    assert_eq!(item.render(), "Idents([\"db\", \"col\"])".to_string());

    let item = Item::Transformation(Transformation::Take(-7));
    assert_eq!(item.render(), "Transformation(Take(-7))".to_string());

    let item = Item::Assign(Assign {
        lvalue: "x".to_string(),
        rvalue: Box::new(Item::Raw("1".to_string())),
    });
    assert_eq!(item.render(), "Assign(\"x\" = Raw(\"1\"))".to_string());
}

#[test]
fn error_messages_render_the_offending_item() {
    let item = Item::List(vec![ident("a"), ident("b")]);
    assert_eq!(
        item.as_assign().unwrap_err().message(),
        "expected Assign, got List([Ident(\"a\"), Ident(\"b\")])".to_string()
    );
    let item = Item::NamedArg(NamedArg {
        name: "n".to_string(),
        arg: Box::new(ident("v")),
    });
    assert_eq!(
        item.as_ident().unwrap_err().message(),
        "expected an Identifier, got NamedArg(\"n\": Ident(\"v\"))".to_string()
    );
}

#[test]
fn cloning_preserves_structure() {
    let item = Item::Query(vec![
        Item::Table(query_ast::ast::Table {
            name: "t".to_string(),
            pipeline: vec![
                Transformation::From(vec![ident("people")]),
                Transformation::Take(-3),
            ],
        }),
        Item::SString(vec![query_ast::ast::SStringItem::Expr(ident("x"))]),
        Item::Idents(vec!["a".to_string(), "b".to_string()]),
    ]);
    let copy = item.clone();
    assert_eq!(copy, item);
    let stage = Transformation::Func(FuncCall {
        name: "f".to_string(),
        args: vec![ident("x")],
        named_args: vec![NamedArg {
            name: "k".to_string(),
            arg: Box::new(ident("v")),
        }],
    });
    assert_eq!(stage.clone(), stage);
}
