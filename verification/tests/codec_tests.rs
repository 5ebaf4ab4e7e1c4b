use query_ast::ast::{
    Assign, FuncCall, Function, Item, NamedArg, SStringItem, Table, Transformation,
};
use query_ast::codec::{Node, TAG_IDENT, TAG_PAIR};

fn ident(s: &str) -> Item {
    Item::Ident(s.to_string())
}

fn assign(l: &str, r: Item) -> Assign {
    Assign {
        lvalue: l.to_string(),
        rvalue: Box::new(r),
    }
}

fn round_trip(item: Item) -> Item {
    let expected = item.encode();
    expected.decode().expect("a freshly encoded tree decodes")
}

#[test]
fn round_trip_simple_values() {
    assert_eq!(round_trip(ident("a")), ident("a"));
    assert_eq!(
        round_trip(Item::StringLiteral("s".to_string())),
        Item::StringLiteral("s".to_string())
    );
    assert_eq!(
        round_trip(Item::Idents(vec!["a".to_string(), "b".to_string()])),
        Item::Idents(vec!["a".to_string(), "b".to_string()])
    );
    assert_eq!(round_trip(Item::List(vec![])), Item::List(vec![]));
}

fn sample_pipeline() -> Item {
    Item::Pipeline(vec![
        Transformation::From(vec![ident("employees")]),
        Transformation::Filter(query_ast::ast::Filter(vec![Item::Expr(vec![
            ident("age"),
            Item::Raw(">".to_string()),
            Item::Raw("21".to_string()),
        ])])),
        Transformation::Derive(vec![assign("gross", Item::Expr(vec![ident("salary")]))]),
        Transformation::Aggregate {
            by: vec![ident("dept")],
            calcs: vec![Item::Items(vec![ident("sum"), ident("gross")])],
            assigns: vec![assign("total", ident("gross"))],
        },
        Transformation::Sort(vec![ident("total")]),
        Transformation::Take(-20),
        Transformation::Join(vec![ident("positions")]),
        Transformation::Func(FuncCall {
            name: "myudf".to_string(),
            args: vec![ident("x")],
            named_args: vec![NamedArg {
                name: "flag".to_string(),
                arg: Box::new(Item::Raw("true".to_string())),
            }],
        }),
    ])
}

#[test]
fn round_trip_nested_pipeline() {
    assert_eq!(round_trip(sample_pipeline()), sample_pipeline());
}

fn sample_query() -> Item {
    Item::Query(vec![
        Item::Function(Function {
            name: "double".to_string(),
            args: vec!["x".to_string()],
            body: vec![Item::Expr(vec![
                ident("x"),
                Item::Raw("*".to_string()),
                Item::Raw("2".to_string()),
            ])],
        }),
        Item::Table(Table {
            name: "older".to_string(),
            pipeline: vec![
                Transformation::From(vec![ident("people")]),
                Transformation::Take(3),
            ],
        }),
        Item::SString(vec![
            SStringItem::Fragment("count(".to_string()),
            SStringItem::Expr(ident("salary")),
            SStringItem::Fragment(")".to_string()),
        ]),
        Item::Assign(assign("answer", Item::Raw("42".to_string()))),
        Item::NamedArg(NamedArg {
            name: "limit".to_string(),
            arg: Box::new(Item::Raw("5".to_string())),
        }),
        Item::Transformation(Transformation::Select(vec![ident("name")])),
    ])
}

#[test]
fn round_trip_query_with_definitions() {
    assert_eq!(round_trip(sample_query()), sample_query());
}

#[test]
fn decode_rejects_malformed_trees() {
    // A bare leaf is not an encoded item.
    assert_eq!(Node::Text("a".to_string()).decode(), None);
    assert_eq!(Node::Int(3).decode(), None);
    // An unknown tag is rejected.
    assert_eq!(Node::Branch(200, vec![]).decode(), None);
    // An identifier needs exactly one text child.
    assert_eq!(Node::Branch(TAG_IDENT, vec![]).decode(), None);
    assert_eq!(Node::Branch(TAG_IDENT, vec![Node::Int(1)]).decode(), None);
    assert_eq!(
        Node::Branch(
            TAG_IDENT,
            vec![Node::Text("a".to_string()), Node::Text("b".to_string())]
        )
        .decode(),
        None
    );
    // A pair node is not an item by itself.
    assert_eq!(
        Node::Branch(TAG_PAIR, vec![Node::Text("a".to_string()), Node::Int(1)]).decode(),
        None
    );
}

#[test]
fn encoding_distinguishes_container_variants() {
    let list = Item::List(vec![ident("a")]).encode();
    let items = Item::Items(vec![ident("a")]).encode();
    let expr = Item::Expr(vec![ident("a")]).encode();
    assert_ne!(list, items);
    assert_ne!(items, expr);
    assert_ne!(list, expr);
    assert_eq!(list.decode(), Some(Item::List(vec![ident("a")])));
    assert_eq!(items.decode(), Some(Item::Items(vec![ident("a")])));
    assert_eq!(expr.decode(), Some(Item::Expr(vec![ident("a")])));
}
