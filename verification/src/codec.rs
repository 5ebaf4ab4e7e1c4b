use vstd::prelude::*;

use crate::ast::{
    Assign, AssignV, FuncCall, FuncCallV, Function, FunctionV, Item, ItemV, NamedArg, NamedArgV,
    SStringItem, SStringItemV, Table, TableV, Transformation, TransformationV,
};
use crate::ast::{
    assigns_model, idents_model, items_model, nameds_model, sstrings_model, tfs_model,
};

verus! {

// The wire tag of each syntax-node variant.
pub const TAG_TRANSFORMATION: u64 = 0;
pub const TAG_IDENT: u64 = 1;
pub const TAG_STRING_LITERAL: u64 = 2;
pub const TAG_RAW: u64 = 3;
pub const TAG_ASSIGN: u64 = 4;
pub const TAG_NAMED_ARG: u64 = 5;
pub const TAG_QUERY: u64 = 6;
pub const TAG_PIPELINE: u64 = 7;
pub const TAG_LIST: u64 = 8;
pub const TAG_ITEMS: u64 = 9;
pub const TAG_EXPR: u64 = 10;
pub const TAG_IDENTS: u64 = 11;
pub const TAG_FUNCTION: u64 = 12;
pub const TAG_TABLE: u64 = 13;
pub const TAG_SSTRING: u64 = 14;
pub const TAG_UNIMPLEMENTED: u64 = 15;
// A name bound to an item (assignments and named arguments).
pub const TAG_PAIR: u64 = 20;
// Interpolated-string segments.
pub const TAG_FRAGMENT: u64 = 22;
pub const TAG_SEG_EXPR: u64 = 23;
// Transformation variants.
pub const TAG_FROM: u64 = 30;
pub const TAG_SELECT: u64 = 31;
pub const TAG_FILTER: u64 = 32;
pub const TAG_DERIVE: u64 = 33;
pub const TAG_AGGREGATE: u64 = 34;
pub const TAG_SORT: u64 = 35;
pub const TAG_TAKE: u64 = 36;
pub const TAG_JOIN: u64 = 37;
pub const TAG_FUNC: u64 = 38;
// An anonymous grouping of children inside a variant's payload.
pub const TAG_GROUP: u64 = 99;

/// The encoded form of a syntax tree: a generic, self-describing tree of
/// tagged branches, text leaves and integer leaves. It carries no knowledge
/// of the syntax-node types, so any consumer that can store tagged trees
/// can store an encoded `Item`.
#[derive(Debug, PartialEq)]
pub enum Node {
    Int(i64),
    Text(String),
    Branch(u64, Vec<Node>),
}

/// The mathematical model of a `Node` tree.
#[verifier::ext_equal]
pub enum NodeV {
    Int(int),
    Text(Seq<char>),
    Branch(u64, Seq<NodeV>),
}

/// The models of a sequence of nodes, elementwise.
pub open spec fn nodes_model(s: Seq<Node>) -> Seq<NodeV>
    decreases s,
{
    if s.len() == 0 {
        Seq::empty()
    } else {
        nodes_model(s.drop_last()).push(s.last().model())
    }
}

impl Node {
    /// The mathematical model of this node.
    pub open spec fn model(&self) -> NodeV
        decreases *self,
    {
        match *self {
            Node::Int(n) => NodeV::Int(n as int),
            Node::Text(ref s) => NodeV::Text(s@),
            Node::Branch(tag, ref ch) => NodeV::Branch(tag, nodes_model(ch@)),
        }
    }
}

/// The encoding of an item, at the model level.
pub open spec fn item_to_v(m: ItemV) -> NodeV
    decreases m,
{
    match m {
        ItemV::Transformation(t) => NodeV::Branch(TAG_TRANSFORMATION, seq![tf_to_v(t)]),
        ItemV::Ident(s) => NodeV::Branch(TAG_IDENT, seq![NodeV::Text(s)]),
        ItemV::StringLiteral(s) => NodeV::Branch(TAG_STRING_LITERAL, seq![NodeV::Text(s)]),
        ItemV::Raw(s) => NodeV::Branch(TAG_RAW, seq![NodeV::Text(s)]),
        ItemV::Assign(a) => NodeV::Branch(TAG_ASSIGN, seq![assign_to_v(a)]),
        ItemV::NamedArg(na) => NodeV::Branch(TAG_NAMED_ARG, seq![named_to_v(na)]),
        ItemV::Query(items) => NodeV::Branch(TAG_QUERY, items_to_v(items)),
        ItemV::Pipeline(tfs) => NodeV::Branch(TAG_PIPELINE, tfs_to_v(tfs)),
        ItemV::List(items) => NodeV::Branch(TAG_LIST, items_to_v(items)),
        ItemV::Items(items) => NodeV::Branch(TAG_ITEMS, items_to_v(items)),
        ItemV::Expr(items) => NodeV::Branch(TAG_EXPR, items_to_v(items)),
        ItemV::Idents(ss) => NodeV::Branch(TAG_IDENTS, texts_to_v(ss)),
        ItemV::Function(f) => NodeV::Branch(
            TAG_FUNCTION,
            seq![
                NodeV::Text(f.name),
                NodeV::Branch(TAG_GROUP, texts_to_v(f.args)),
                NodeV::Branch(TAG_GROUP, items_to_v(f.body)),
            ],
        ),
        ItemV::Table(t) => NodeV::Branch(
            TAG_TABLE,
            seq![NodeV::Text(t.name), NodeV::Branch(TAG_GROUP, tfs_to_v(t.pipeline))],
        ),
        ItemV::SString(segs) => NodeV::Branch(TAG_SSTRING, sstrings_to_v(segs)),
        ItemV::Unimplemented(s) => NodeV::Branch(TAG_UNIMPLEMENTED, seq![NodeV::Text(s)]),
    }
}

/// The encoding of a sequence of items, elementwise.
pub open spec fn items_to_v(ms: Seq<ItemV>) -> Seq<NodeV>
    decreases ms,
{
    if ms.len() == 0 {
        Seq::empty()
    } else {
        items_to_v(ms.drop_last()).push(item_to_v(ms.last()))
    }
}

/// The encoding of a sequence of identifiers, elementwise.
pub open spec fn texts_to_v(ss: Seq<Seq<char>>) -> Seq<NodeV> {
    ss.map_values(|s: Seq<char>| NodeV::Text(s))
}

/// The encoding of a transformation, at the model level.
pub open spec fn tf_to_v(t: TransformationV) -> NodeV
    decreases t,
{
    match t {
        TransformationV::From(items) => NodeV::Branch(TAG_FROM, items_to_v(items)),
        TransformationV::Select(items) => NodeV::Branch(TAG_SELECT, items_to_v(items)),
        TransformationV::Filter(items) => NodeV::Branch(TAG_FILTER, items_to_v(items)),
        TransformationV::Derive(assigns) => NodeV::Branch(TAG_DERIVE, assigns_to_v(assigns)),
        TransformationV::Aggregate { by, calcs, assigns } => NodeV::Branch(
            TAG_AGGREGATE,
            seq![
                NodeV::Branch(TAG_GROUP, items_to_v(by)),
                NodeV::Branch(TAG_GROUP, items_to_v(calcs)),
                NodeV::Branch(TAG_GROUP, assigns_to_v(assigns)),
            ],
        ),
        TransformationV::Sort(items) => NodeV::Branch(TAG_SORT, items_to_v(items)),
        TransformationV::Take(n) => NodeV::Branch(TAG_TAKE, seq![NodeV::Int(n)]),
        TransformationV::Join(items) => NodeV::Branch(TAG_JOIN, items_to_v(items)),
        TransformationV::Func(call) => NodeV::Branch(
            TAG_FUNC,
            seq![
                NodeV::Text(call.name),
                NodeV::Branch(TAG_GROUP, items_to_v(call.args)),
                NodeV::Branch(TAG_GROUP, nameds_to_v(call.named_args)),
            ],
        ),
    }
}

/// The encoding of a sequence of transformations, elementwise.
pub open spec fn tfs_to_v(ts: Seq<TransformationV>) -> Seq<NodeV>
    decreases ts,
{
    if ts.len() == 0 {
        Seq::empty()
    } else {
        tfs_to_v(ts.drop_last()).push(tf_to_v(ts.last()))
    }
}

/// The encoding of an assignment: a pair of the bound name and the value.
pub open spec fn assign_to_v(a: AssignV) -> NodeV
    decreases a,
{
    NodeV::Branch(TAG_PAIR, seq![NodeV::Text(a.lvalue), item_to_v(*a.rvalue)])
}

/// The encoding of a sequence of assignments, elementwise.
pub open spec fn assigns_to_v(assigns: Seq<AssignV>) -> Seq<NodeV>
    decreases assigns,
{
    if assigns.len() == 0 {
        Seq::empty()
    } else {
        assigns_to_v(assigns.drop_last()).push(assign_to_v(assigns.last()))
    }
}

/// The encoding of a named argument: a pair of the name and the argument.
pub open spec fn named_to_v(na: NamedArgV) -> NodeV
    decreases na,
{
    NodeV::Branch(TAG_PAIR, seq![NodeV::Text(na.name), item_to_v(*na.arg)])
}

/// The encoding of a sequence of named arguments, elementwise.
pub open spec fn nameds_to_v(nas: Seq<NamedArgV>) -> Seq<NodeV>
    decreases nas,
{
    if nas.len() == 0 {
        Seq::empty()
    } else {
        nameds_to_v(nas.drop_last()).push(named_to_v(nas.last()))
    }
}

/// The encoding of one interpolated-string segment.
pub open spec fn sstring_to_v(seg: SStringItemV) -> NodeV
    decreases seg,
{
    match seg {
        SStringItemV::Fragment(s) => NodeV::Branch(TAG_FRAGMENT, seq![NodeV::Text(s)]),
        SStringItemV::Expr(item) => NodeV::Branch(TAG_SEG_EXPR, seq![item_to_v(*item)]),
    }
}

/// The encoding of a sequence of interpolated-string segments, elementwise.
pub open spec fn sstrings_to_v(segs: Seq<SStringItemV>) -> Seq<NodeV>
    decreases segs,
{
    if segs.len() == 0 {
        Seq::empty()
    } else {
        sstrings_to_v(segs.drop_last()).push(sstring_to_v(segs.last()))
    }
}

/// The decoding of an item, at the model level. Returns `None` when the
/// tree does not carry the shape the tag promises.
pub open spec fn item_from_v(v: NodeV) -> Option<ItemV>
    decreases v,
{
    match v {
        NodeV::Branch(tag, ch) => {
            if tag == TAG_TRANSFORMATION {
                if ch.len() == 1 {
                    match tf_from_v(ch[0]) {
                        Some(t) => Some(ItemV::Transformation(t)),
                        None => None,
                    }
                } else {
                    None
                }
            } else if tag == TAG_IDENT {
                match text_of(ch) {
                    Some(s) => Some(ItemV::Ident(s)),
                    None => None,
                }
            } else if tag == TAG_STRING_LITERAL {
                match text_of(ch) {
                    Some(s) => Some(ItemV::StringLiteral(s)),
                    None => None,
                }
            } else if tag == TAG_RAW {
                match text_of(ch) {
                    Some(s) => Some(ItemV::Raw(s)),
                    None => None,
                }
            } else if tag == TAG_ASSIGN {
                if ch.len() == 1 {
                    match assign_from_v(ch[0]) {
                        Some(a) => Some(ItemV::Assign(a)),
                        None => None,
                    }
                } else {
                    None
                }
            } else if tag == TAG_NAMED_ARG {
                if ch.len() == 1 {
                    match named_from_v(ch[0]) {
                        Some(na) => Some(ItemV::NamedArg(na)),
                        None => None,
                    }
                } else {
                    None
                }
            } else if tag == TAG_QUERY {
                match items_from_v(ch) {
                    Some(ms) => Some(ItemV::Query(ms)),
                    None => None,
                }
            } else if tag == TAG_PIPELINE {
                match tfs_from_v(ch) {
                    Some(ts) => Some(ItemV::Pipeline(ts)),
                    None => None,
                }
            } else if tag == TAG_LIST {
                match items_from_v(ch) {
                    Some(ms) => Some(ItemV::List(ms)),
                    None => None,
                }
            } else if tag == TAG_ITEMS {
                match items_from_v(ch) {
                    Some(ms) => Some(ItemV::Items(ms)),
                    None => None,
                }
            } else if tag == TAG_EXPR {
                match items_from_v(ch) {
                    Some(ms) => Some(ItemV::Expr(ms)),
                    None => None,
                }
            } else if tag == TAG_IDENTS {
                match texts_from_v(ch) {
                    Some(ss) => Some(ItemV::Idents(ss)),
                    None => None,
                }
            } else if tag == TAG_FUNCTION {
                if ch.len() == 3 {
                    match (ch[0], ch[1], ch[2]) {
                        (
                            NodeV::Text(name),
                            NodeV::Branch(gt1, args_ch),
                            NodeV::Branch(gt2, body_ch),
                        ) => {
                            if gt1 == TAG_GROUP && gt2 == TAG_GROUP {
                                match (texts_from_v(args_ch), items_from_v(body_ch)) {
                                    (Some(args), Some(body)) => Some(
                                        ItemV::Function(FunctionV { name, args, body }),
                                    ),
                                    _ => None,
                                }
                            } else {
                                None
                            }
                        },
                        _ => None,
                    }
                } else {
                    None
                }
            } else if tag == TAG_TABLE {
                if ch.len() == 2 {
                    match (ch[0], ch[1]) {
                        (NodeV::Text(name), NodeV::Branch(gt, pipe_ch)) => {
                            if gt == TAG_GROUP {
                                match tfs_from_v(pipe_ch) {
                                    Some(pipeline) => Some(
                                        ItemV::Table(TableV { name, pipeline }),
                                    ),
                                    None => None,
                                }
                            } else {
                                None
                            }
                        },
                        _ => None,
                    }
                } else {
                    None
                }
            } else if tag == TAG_SSTRING {
                match sstrings_from_v(ch) {
                    Some(segs) => Some(ItemV::SString(segs)),
                    None => None,
                }
            } else if tag == TAG_UNIMPLEMENTED {
                match text_of(ch) {
                    Some(s) => Some(ItemV::Unimplemented(s)),
                    None => None,
                }
            } else {
                None
            }
        },
        _ => None,
    }
}

/// The single text leaf a one-element payload holds, if that is its shape.
pub open spec fn text_of(ch: Seq<NodeV>) -> Option<Seq<char>> {
    if ch.len() == 1 {
        match ch[0] {
            NodeV::Text(s) => Some(s),
            _ => None,
        }
    } else {
        None
    }
}

/// The decoding of a sequence of items, elementwise; fails if any element
/// fails.
pub open spec fn items_from_v(s: Seq<NodeV>) -> Option<Seq<ItemV>>
    decreases s,
{
    if s.len() == 0 {
        Some(Seq::empty())
    } else {
        match (items_from_v(s.drop_last()), item_from_v(s.last())) {
            (Some(ms), Some(m)) => Some(ms.push(m)),
            _ => None,
        }
    }
}

/// The decoding of a sequence of identifiers, elementwise.
pub open spec fn texts_from_v(s: Seq<NodeV>) -> Option<Seq<Seq<char>>>
    decreases s,
{
    if s.len() == 0 {
        Some(Seq::empty())
    } else {
        match (texts_from_v(s.drop_last()), s.last()) {
            (Some(ss), NodeV::Text(t)) => Some(ss.push(t)),
            _ => None,
        }
    }
}

/// The decoding of a transformation, at the model level.
pub open spec fn tf_from_v(v: NodeV) -> Option<TransformationV>
    decreases v,
{
    match v {
        NodeV::Branch(tag, ch) => {
            if tag == TAG_FROM {
                match items_from_v(ch) {
                    Some(ms) => Some(TransformationV::From(ms)),
                    None => None,
                }
            } else if tag == TAG_SELECT {
                match items_from_v(ch) {
                    Some(ms) => Some(TransformationV::Select(ms)),
                    None => None,
                }
            } else if tag == TAG_FILTER {
                match items_from_v(ch) {
                    Some(ms) => Some(TransformationV::Filter(ms)),
                    None => None,
                }
            } else if tag == TAG_DERIVE {
                match assigns_from_v(ch) {
                    Some(assigns) => Some(TransformationV::Derive(assigns)),
                    None => None,
                }
            } else if tag == TAG_AGGREGATE {
                if ch.len() == 3 {
                    match (ch[0], ch[1], ch[2]) {
                        (
                            NodeV::Branch(gt1, by_ch),
                            NodeV::Branch(gt2, calcs_ch),
                            NodeV::Branch(gt3, assigns_ch),
                        ) => {
                            if gt1 == TAG_GROUP && gt2 == TAG_GROUP && gt3 == TAG_GROUP {
                                match (
                                    items_from_v(by_ch),
                                    items_from_v(calcs_ch),
                                    assigns_from_v(assigns_ch),
                                ) {
                                    (Some(by), Some(calcs), Some(assigns)) => Some(
                                        TransformationV::Aggregate { by, calcs, assigns },
                                    ),
                                    _ => None,
                                }
                            } else {
                                None
                            }
                        },
                        _ => None,
                    }
                } else {
                    None
                }
            } else if tag == TAG_SORT {
                match items_from_v(ch) {
                    Some(ms) => Some(TransformationV::Sort(ms)),
                    None => None,
                }
            } else if tag == TAG_TAKE {
                if ch.len() == 1 {
                    match ch[0] {
                        NodeV::Int(n) => Some(TransformationV::Take(n)),
                        _ => None,
                    }
                } else {
                    None
                }
            } else if tag == TAG_JOIN {
                match items_from_v(ch) {
                    Some(ms) => Some(TransformationV::Join(ms)),
                    None => None,
                }
            } else if tag == TAG_FUNC {
                if ch.len() == 3 {
                    match (ch[0], ch[1], ch[2]) {
                        (
                            NodeV::Text(name),
                            NodeV::Branch(gt1, args_ch),
                            NodeV::Branch(gt2, nameds_ch),
                        ) => {
                            if gt1 == TAG_GROUP && gt2 == TAG_GROUP {
                                match (items_from_v(args_ch), nameds_from_v(nameds_ch)) {
                                    (Some(args), Some(named_args)) => Some(
                                        TransformationV::Func(
                                            FuncCallV { name, args, named_args },
                                        ),
                                    ),
                                    _ => None,
                                }
                            } else {
                                None
                            }
                        },
                        _ => None,
                    }
                } else {
                    None
                }
            } else {
                None
            }
        },
        _ => None,
    }
}

/// The decoding of a sequence of transformations, elementwise.
pub open spec fn tfs_from_v(s: Seq<NodeV>) -> Option<Seq<TransformationV>>
    decreases s,
{
    if s.len() == 0 {
        Some(Seq::empty())
    } else {
        match (tfs_from_v(s.drop_last()), tf_from_v(s.last())) {
            (Some(ts), Some(t)) => Some(ts.push(t)),
            _ => None,
        }
    }
}

/// The decoding of an assignment pair.
pub open spec fn assign_from_v(v: NodeV) -> Option<AssignV>
    decreases v,
{
    match v {
        NodeV::Branch(tag, ch) => {
            if tag == TAG_PAIR && ch.len() == 2 {
                match (ch[0], item_from_v(ch[1])) {
                    (NodeV::Text(lvalue), Some(rv)) => Some(
                        AssignV { lvalue, rvalue: Box::new(rv) },
                    ),
                    _ => None,
                }
            } else {
                None
            }
        },
        _ => None,
    }
}

/// The decoding of a sequence of assignments, elementwise.
pub open spec fn assigns_from_v(s: Seq<NodeV>) -> Option<Seq<AssignV>>
    decreases s,
{
    if s.len() == 0 {
        Some(Seq::empty())
    } else {
        match (assigns_from_v(s.drop_last()), assign_from_v(s.last())) {
            (Some(assigns), Some(a)) => Some(assigns.push(a)),
            _ => None,
        }
    }
}

/// The decoding of a named-argument pair.
pub open spec fn named_from_v(v: NodeV) -> Option<NamedArgV>
    decreases v,
{
    match v {
        NodeV::Branch(tag, ch) => {
            if tag == TAG_PAIR && ch.len() == 2 {
                match (ch[0], item_from_v(ch[1])) {
                    (NodeV::Text(name), Some(arg)) => Some(
                        NamedArgV { name, arg: Box::new(arg) },
                    ),
                    _ => None,
                }
            } else {
                None
            }
        },
        _ => None,
    }
}

/// The decoding of a sequence of named arguments, elementwise.
pub open spec fn nameds_from_v(s: Seq<NodeV>) -> Option<Seq<NamedArgV>>
    decreases s,
{
    if s.len() == 0 {
        Some(Seq::empty())
    } else {
        match (nameds_from_v(s.drop_last()), named_from_v(s.last())) {
            (Some(nas), Some(na)) => Some(nas.push(na)),
            _ => None,
        }
    }
}

/// The decoding of one interpolated-string segment.
pub open spec fn sstring_from_v(v: NodeV) -> Option<SStringItemV>
    decreases v,
{
    match v {
        NodeV::Branch(tag, ch) => {
            if tag == TAG_FRAGMENT {
                match text_of(ch) {
                    Some(s) => Some(SStringItemV::Fragment(s)),
                    None => None,
                }
            } else if tag == TAG_SEG_EXPR {
                if ch.len() == 1 {
                    match item_from_v(ch[0]) {
                        Some(m) => Some(SStringItemV::Expr(Box::new(m))),
                        None => None,
                    }
                } else {
                    None
                }
            } else {
                None
            }
        },
        _ => None,
    }
}

/// The decoding of a sequence of interpolated-string segments, elementwise.
pub open spec fn sstrings_from_v(s: Seq<NodeV>) -> Option<Seq<SStringItemV>>
    decreases s,
{
    if s.len() == 0 {
        Some(Seq::empty())
    } else {
        match (sstrings_from_v(s.drop_last()), sstring_from_v(s.last())) {
            (Some(segs), Some(seg)) => Some(segs.push(seg)),
            _ => None,
        }
    }
}


/// Clones a vector of nodes, elementwise.
fn dup_nodes(ns: &Vec<Node>) -> (r: Vec<Node>)
    ensures
        nodes_model(r@) == nodes_model(ns@),
    decreases *ns,
{
    let mut out: Vec<Node> = Vec::new();
    let mut i: usize = 0;
    while i < ns.len()
        invariant
            i <= ns@.len(),
            out@.len() == i,
            forall|j: int| 0 <= j < i ==> (#[trigger] out@[j]).model() == ns@[j].model(),
        decreases ns@.len() - i,
    {
        out.push(ns[i].duplicate());
        i += 1;
    }
    proof {
        lemma_nodes_model_pointwise(ns@);
        lemma_nodes_model_pointwise(out@);
        assert(nodes_model(out@) =~= nodes_model(ns@));
    }
    out
}

impl Node {
    /// Builds a structurally equal copy of this encoded tree.
    fn duplicate(&self) -> (r: Node)
        ensures
            r.model() == self.model(),
        decreases *self,
    {
        match self {
            Node::Int(n) => Node::Int(*n),
            Node::Text(s) => Node::Text(s.clone()),
            Node::Branch(tag, ch) => Node::Branch(*tag, dup_nodes(ch)),
        }
    }
}

impl Clone for Node {
    /// Structural cloning: the copy has the same model as the original.
    fn clone(&self) -> (r: Self)
        ensures
            r.model() == self.model(),
    {
        self.duplicate()
    }
}

/// Encoding then decoding any item tree gives the tree back: the encoding
/// is lossless, preserving variant identity and element order exactly.
pub proof fn lemma_item_round_trip(m: ItemV)
    ensures
        item_from_v(item_to_v(m)) == Some(m),
    decreases m,
{
    match m {
        ItemV::Transformation(t) => {
            lemma_tf_round_trip(t);
        },
        ItemV::Ident(_) => {},
        ItemV::StringLiteral(_) => {},
        ItemV::Raw(_) => {},
        ItemV::Assign(a) => {
            lemma_assign_round_trip(a);
        },
        ItemV::NamedArg(na) => {
            lemma_named_round_trip(na);
        },
        ItemV::Query(items) => {
            lemma_items_round_trip(items);
        },
        ItemV::Pipeline(tfs) => {
            lemma_tfs_round_trip(tfs);
        },
        ItemV::List(items) => {
            lemma_items_round_trip(items);
        },
        ItemV::Items(items) => {
            lemma_items_round_trip(items);
        },
        ItemV::Expr(items) => {
            lemma_items_round_trip(items);
        },
        ItemV::Idents(ss) => {
            lemma_texts_round_trip(ss);
        },
        ItemV::Function(f) => {
            lemma_texts_round_trip(f.args);
            lemma_items_round_trip(f.body);
            assert((FunctionV { name: f.name, args: f.args, body: f.body }) =~= f);
        },
        ItemV::Table(t) => {
            lemma_tfs_round_trip(t.pipeline);
            assert((TableV { name: t.name, pipeline: t.pipeline }) =~= t);
        },
        ItemV::SString(segs) => {
            lemma_sstrings_round_trip(segs);
        },
        ItemV::Unimplemented(_) => {},
    }
}

/// Round trip for a sequence of items, elementwise.
pub proof fn lemma_items_round_trip(ms: Seq<ItemV>)
    ensures
        items_from_v(items_to_v(ms)) == Some(ms),
    decreases ms,
{
    if ms.len() == 0 {
        assert(ms =~= Seq::<ItemV>::empty());
    } else {
        lemma_items_round_trip(ms.drop_last());
        lemma_item_round_trip(ms.last());
        assert(items_to_v(ms).drop_last() =~= items_to_v(ms.drop_last()));
        assert(ms.drop_last().push(ms.last()) =~= ms);
    }
}

/// Round trip for a sequence of identifiers, elementwise.
pub proof fn lemma_texts_round_trip(ss: Seq<Seq<char>>)
    ensures
        texts_from_v(texts_to_v(ss)) == Some(ss),
    decreases ss,
{
    if ss.len() == 0 {
        assert(ss =~= Seq::<Seq<char>>::empty());
        assert(texts_to_v(ss) =~= Seq::<NodeV>::empty());
    } else {
        lemma_texts_round_trip(ss.drop_last());
        assert(texts_to_v(ss).drop_last() =~= texts_to_v(ss.drop_last()));
        assert(texts_to_v(ss).last() == NodeV::Text(ss.last()));
        assert(ss.drop_last().push(ss.last()) =~= ss);
    }
}

/// Round trip for a transformation.
pub proof fn lemma_tf_round_trip(t: TransformationV)
    ensures
        tf_from_v(tf_to_v(t)) == Some(t),
    decreases t,
{
    match t {
        TransformationV::From(items) => {
            lemma_items_round_trip(items);
        },
        TransformationV::Select(items) => {
            lemma_items_round_trip(items);
        },
        TransformationV::Filter(items) => {
            lemma_items_round_trip(items);
        },
        TransformationV::Derive(assigns) => {
            lemma_assigns_round_trip(assigns);
        },
        TransformationV::Aggregate { by, calcs, assigns } => {
            lemma_items_round_trip(by);
            lemma_items_round_trip(calcs);
            lemma_assigns_round_trip(assigns);
        },
        TransformationV::Sort(items) => {
            lemma_items_round_trip(items);
        },
        TransformationV::Take(_) => {},
        TransformationV::Join(items) => {
            lemma_items_round_trip(items);
        },
        TransformationV::Func(call) => {
            lemma_items_round_trip(call.args);
            lemma_nameds_round_trip(call.named_args);
            assert((FuncCallV {
                name: call.name,
                args: call.args,
                named_args: call.named_args,
            }) =~= call);
        },
    }
}

/// Round trip for a sequence of transformations, elementwise.
pub proof fn lemma_tfs_round_trip(ts: Seq<TransformationV>)
    ensures
        tfs_from_v(tfs_to_v(ts)) == Some(ts),
    decreases ts,
{
    if ts.len() == 0 {
        assert(ts =~= Seq::<TransformationV>::empty());
    } else {
        lemma_tfs_round_trip(ts.drop_last());
        lemma_tf_round_trip(ts.last());
        assert(tfs_to_v(ts).drop_last() =~= tfs_to_v(ts.drop_last()));
        assert(ts.drop_last().push(ts.last()) =~= ts);
    }
}

/// Round trip for an assignment.
pub proof fn lemma_assign_round_trip(a: AssignV)
    ensures
        assign_from_v(assign_to_v(a)) == Some(a),
    decreases a,
{
    lemma_item_round_trip(*a.rvalue);
    assert((AssignV { lvalue: a.lvalue, rvalue: Box::new(*a.rvalue) }) =~= a);
}

/// Round trip for a sequence of assignments, elementwise.
pub proof fn lemma_assigns_round_trip(assigns: Seq<AssignV>)
    ensures
        assigns_from_v(assigns_to_v(assigns)) == Some(assigns),
    decreases assigns,
{
    if assigns.len() == 0 {
        assert(assigns =~= Seq::<AssignV>::empty());
    } else {
        lemma_assigns_round_trip(assigns.drop_last());
        lemma_assign_round_trip(assigns.last());
        assert(assigns_to_v(assigns).drop_last() =~= assigns_to_v(assigns.drop_last()));
        assert(assigns.drop_last().push(assigns.last()) =~= assigns);
    }
}

/// Round trip for a named argument.
pub proof fn lemma_named_round_trip(na: NamedArgV)
    ensures
        named_from_v(named_to_v(na)) == Some(na),
    decreases na,
{
    lemma_item_round_trip(*na.arg);
    assert((NamedArgV { name: na.name, arg: Box::new(*na.arg) }) =~= na);
}

/// Round trip for a sequence of named arguments, elementwise.
pub proof fn lemma_nameds_round_trip(nas: Seq<NamedArgV>)
    ensures
        nameds_from_v(nameds_to_v(nas)) == Some(nas),
    decreases nas,
{
    if nas.len() == 0 {
        assert(nas =~= Seq::<NamedArgV>::empty());
    } else {
        lemma_nameds_round_trip(nas.drop_last());
        lemma_named_round_trip(nas.last());
        assert(nameds_to_v(nas).drop_last() =~= nameds_to_v(nas.drop_last()));
        assert(nas.drop_last().push(nas.last()) =~= nas);
    }
}

/// Round trip for one interpolated-string segment.
pub proof fn lemma_sstring_round_trip(seg: SStringItemV)
    ensures
        sstring_from_v(sstring_to_v(seg)) == Some(seg),
    decreases seg,
{
    match seg {
        SStringItemV::Fragment(_) => {},
        SStringItemV::Expr(item) => {
            lemma_item_round_trip(*item);
        },
    }
}

/// Round trip for a sequence of interpolated-string segments, elementwise.
pub proof fn lemma_sstrings_round_trip(segs: Seq<SStringItemV>)
    ensures
        sstrings_from_v(sstrings_to_v(segs)) == Some(segs),
    decreases segs,
{
    if segs.len() == 0 {
        assert(segs =~= Seq::<SStringItemV>::empty());
    } else {
        lemma_sstrings_round_trip(segs.drop_last());
        lemma_sstring_round_trip(segs.last());
        assert(sstrings_to_v(segs).drop_last() =~= sstrings_to_v(segs.drop_last()));
        assert(segs.drop_last().push(segs.last()) =~= segs);
    }
}

/// `nodes_model` maps the sequence elementwise.
pub proof fn lemma_nodes_model_pointwise(s: Seq<Node>)
    ensures
        nodes_model(s).len() == s.len(),
        forall|j: int| 0 <= j < s.len() ==> #[trigger] nodes_model(s)[j] == s[j].model(),
    decreases s,
{
    if s.len() > 0 {
        lemma_nodes_model_pointwise(s.drop_last());
    }
}

/// `items_to_v` maps the sequence elementwise.
pub proof fn lemma_items_to_v_pointwise(s: Seq<ItemV>)
    ensures
        items_to_v(s).len() == s.len(),
        forall|j: int| 0 <= j < s.len() ==> #[trigger] items_to_v(s)[j] == item_to_v(s[j]),
    decreases s,
{
    if s.len() > 0 {
        lemma_items_to_v_pointwise(s.drop_last());
    }
}

/// `tfs_to_v` maps the sequence elementwise.
pub proof fn lemma_tfs_to_v_pointwise(s: Seq<TransformationV>)
    ensures
        tfs_to_v(s).len() == s.len(),
        forall|j: int| 0 <= j < s.len() ==> #[trigger] tfs_to_v(s)[j] == tf_to_v(s[j]),
    decreases s,
{
    if s.len() > 0 {
        lemma_tfs_to_v_pointwise(s.drop_last());
    }
}

/// `assigns_to_v` maps the sequence elementwise.
pub proof fn lemma_assigns_to_v_pointwise(s: Seq<AssignV>)
    ensures
        assigns_to_v(s).len() == s.len(),
        forall|j: int| 0 <= j < s.len() ==> #[trigger] assigns_to_v(s)[j] == assign_to_v(s[j]),
    decreases s,
{
    if s.len() > 0 {
        lemma_assigns_to_v_pointwise(s.drop_last());
    }
}

/// `nameds_to_v` maps the sequence elementwise.
pub proof fn lemma_nameds_to_v_pointwise(s: Seq<NamedArgV>)
    ensures
        nameds_to_v(s).len() == s.len(),
        forall|j: int| 0 <= j < s.len() ==> #[trigger] nameds_to_v(s)[j] == named_to_v(s[j]),
    decreases s,
{
    if s.len() > 0 {
        lemma_nameds_to_v_pointwise(s.drop_last());
    }
}

/// `sstrings_to_v` maps the sequence elementwise.
pub proof fn lemma_sstrings_to_v_pointwise(s: Seq<SStringItemV>)
    ensures
        sstrings_to_v(s).len() == s.len(),
        forall|j: int| 0 <= j < s.len() ==> #[trigger] sstrings_to_v(s)[j] == sstring_to_v(s[j]),
    decreases s,
{
    if s.len() > 0 {
        lemma_sstrings_to_v_pointwise(s.drop_last());
    }
}

/// A one-element child vector holding a text leaf.
fn text_child(s: &String) -> (r: Vec<Node>)
    ensures
        nodes_model(r@) == seq![NodeV::Text(s@)],
{
    let mut ch: Vec<Node> = Vec::new();
    ch.push(Node::Text(s.clone()));
    proof {
        lemma_nodes_model_pointwise(ch@);
        assert(nodes_model(ch@) =~= seq![NodeV::Text(s@)]);
    }
    ch
}

/// Encodes a vector of items, elementwise.
fn encode_items(items: &Vec<Item>) -> (r: Vec<Node>)
    ensures
        nodes_model(r@) == items_to_v(items_model(items@)),
    decreases *items,
{
    let mut out: Vec<Node> = Vec::new();
    let mut i: usize = 0;
    while i < items.len()
        invariant
            i <= items@.len(),
            out@.len() == i,
            forall|j: int| 0 <= j < i ==> (#[trigger] out@[j]).model() == item_to_v(
                items@[j].model(),
            ),
        decreases items@.len() - i,
    {
        out.push(items[i].encode());
        i += 1;
    }
    proof {
        crate::ast::lemma_items_model_pointwise(items@);
        lemma_items_to_v_pointwise(items_model(items@));
        lemma_nodes_model_pointwise(out@);
        assert(nodes_model(out@) =~= items_to_v(items_model(items@)));
    }
    out
}

/// Encodes a vector of transformations, elementwise.
fn encode_tfs(tfs: &Vec<Transformation>) -> (r: Vec<Node>)
    ensures
        nodes_model(r@) == tfs_to_v(tfs_model(tfs@)),
    decreases *tfs,
{
    let mut out: Vec<Node> = Vec::new();
    let mut i: usize = 0;
    while i < tfs.len()
        invariant
            i <= tfs@.len(),
            out@.len() == i,
            forall|j: int| 0 <= j < i ==> (#[trigger] out@[j]).model() == tf_to_v(
                tfs@[j].model(),
            ),
        decreases tfs@.len() - i,
    {
        out.push(tfs[i].encode());
        i += 1;
    }
    proof {
        crate::ast::lemma_tfs_model_pointwise(tfs@);
        lemma_tfs_to_v_pointwise(tfs_model(tfs@));
        lemma_nodes_model_pointwise(out@);
        assert(nodes_model(out@) =~= tfs_to_v(tfs_model(tfs@)));
    }
    out
}

/// Encodes a vector of assignments, elementwise.
fn encode_assigns(assigns: &Vec<Assign>) -> (r: Vec<Node>)
    ensures
        nodes_model(r@) == assigns_to_v(assigns_model(assigns@)),
    decreases *assigns,
{
    let mut out: Vec<Node> = Vec::new();
    let mut i: usize = 0;
    while i < assigns.len()
        invariant
            i <= assigns@.len(),
            out@.len() == i,
            forall|j: int| 0 <= j < i ==> (#[trigger] out@[j]).model() == assign_to_v(
                assigns@[j].model(),
            ),
        decreases assigns@.len() - i,
    {
        out.push(assigns[i].encode());
        i += 1;
    }
    proof {
        crate::ast::lemma_assigns_model_pointwise(assigns@);
        lemma_assigns_to_v_pointwise(assigns_model(assigns@));
        lemma_nodes_model_pointwise(out@);
        assert(nodes_model(out@) =~= assigns_to_v(assigns_model(assigns@)));
    }
    out
}

/// Encodes a vector of named arguments, elementwise.
fn encode_nameds(nas: &Vec<NamedArg>) -> (r: Vec<Node>)
    ensures
        nodes_model(r@) == nameds_to_v(nameds_model(nas@)),
    decreases *nas,
{
    let mut out: Vec<Node> = Vec::new();
    let mut i: usize = 0;
    while i < nas.len()
        invariant
            i <= nas@.len(),
            out@.len() == i,
            forall|j: int| 0 <= j < i ==> (#[trigger] out@[j]).model() == named_to_v(
                nas@[j].model(),
            ),
        decreases nas@.len() - i,
    {
        out.push(nas[i].encode());
        i += 1;
    }
    proof {
        crate::ast::lemma_nameds_model_pointwise(nas@);
        lemma_nameds_to_v_pointwise(nameds_model(nas@));
        lemma_nodes_model_pointwise(out@);
        assert(nodes_model(out@) =~= nameds_to_v(nameds_model(nas@)));
    }
    out
}

/// Encodes a vector of interpolated-string segments, elementwise.
fn encode_sstrings(segs: &Vec<SStringItem>) -> (r: Vec<Node>)
    ensures
        nodes_model(r@) == sstrings_to_v(sstrings_model(segs@)),
    decreases *segs,
{
    let mut out: Vec<Node> = Vec::new();
    let mut i: usize = 0;
    while i < segs.len()
        invariant
            i <= segs@.len(),
            out@.len() == i,
            forall|j: int| 0 <= j < i ==> (#[trigger] out@[j]).model() == sstring_to_v(
                segs@[j].model(),
            ),
        decreases segs@.len() - i,
    {
        out.push(segs[i].encode());
        i += 1;
    }
    proof {
        crate::ast::lemma_sstrings_model_pointwise(segs@);
        lemma_sstrings_to_v_pointwise(sstrings_model(segs@));
        lemma_nodes_model_pointwise(out@);
        assert(nodes_model(out@) =~= sstrings_to_v(sstrings_model(segs@)));
    }
    out
}

/// Encodes a vector of identifiers as text leaves, elementwise.
fn encode_texts(ids: &Vec<String>) -> (r: Vec<Node>)
    ensures
        nodes_model(r@) == texts_to_v(idents_model(ids@)),
{
    let mut out: Vec<Node> = Vec::new();
    let mut i: usize = 0;
    while i < ids.len()
        invariant
            i <= ids@.len(),
            out@.len() == i,
            forall|j: int| 0 <= j < i ==> (#[trigger] out@[j]).model() == NodeV::Text(ids@[j]@),
        decreases ids@.len() - i,
    {
        out.push(Node::Text(ids[i].clone()));
        i += 1;
    }
    proof {
        lemma_nodes_model_pointwise(out@);
        assert(nodes_model(out@) =~= texts_to_v(idents_model(ids@)));
    }
    out
}

impl Item {
    /// Encodes this syntax tree as a generic tagged tree. Together with
    /// `Node::decode` this is a lossless round trip: decoding the result
    /// gives back a tree with the same model.
    pub fn encode(&self) -> (r: Node)
        ensures
            r.model() == item_to_v(self.model()),
        decreases *self,
    {
        match self {
            Item::Transformation(t) => {
                let mut ch: Vec<Node> = Vec::new();
                ch.push(t.encode());
                proof {
                    lemma_nodes_model_pointwise(ch@);
                    assert(nodes_model(ch@) =~= seq![tf_to_v(t.model())]);
                }
                Node::Branch(TAG_TRANSFORMATION, ch)
            },
            Item::Ident(s) => Node::Branch(TAG_IDENT, text_child(s)),
            Item::StringLiteral(s) => Node::Branch(TAG_STRING_LITERAL, text_child(s)),
            Item::Raw(s) => Node::Branch(TAG_RAW, text_child(s)),
            Item::Assign(a) => {
                let mut ch: Vec<Node> = Vec::new();
                ch.push(a.encode());
                proof {
                    lemma_nodes_model_pointwise(ch@);
                    assert(nodes_model(ch@) =~= seq![assign_to_v(a.model())]);
                }
                Node::Branch(TAG_ASSIGN, ch)
            },
            Item::NamedArg(na) => {
                let mut ch: Vec<Node> = Vec::new();
                ch.push(na.encode());
                proof {
                    lemma_nodes_model_pointwise(ch@);
                    assert(nodes_model(ch@) =~= seq![named_to_v(na.model())]);
                }
                Node::Branch(TAG_NAMED_ARG, ch)
            },
            Item::Query(items) => Node::Branch(TAG_QUERY, encode_items(items)),
            Item::Pipeline(tfs) => Node::Branch(TAG_PIPELINE, encode_tfs(tfs)),
            Item::List(items) => Node::Branch(TAG_LIST, encode_items(items)),
            Item::Items(items) => Node::Branch(TAG_ITEMS, encode_items(items)),
            Item::Expr(items) => Node::Branch(TAG_EXPR, encode_items(items)),
            Item::Idents(ids) => Node::Branch(TAG_IDENTS, encode_texts(ids)),
            Item::Function(f) => {
                let mut ch: Vec<Node> = Vec::new();
                ch.push(Node::Text(f.name.clone()));
                ch.push(Node::Branch(TAG_GROUP, encode_texts(&f.args)));
                ch.push(Node::Branch(TAG_GROUP, encode_items(&f.body)));
                proof {
                    lemma_nodes_model_pointwise(ch@);
                    assert(nodes_model(ch@) =~= seq![
                        NodeV::Text(f.name@),
                        NodeV::Branch(TAG_GROUP, texts_to_v(idents_model(f.args@))),
                        NodeV::Branch(TAG_GROUP, items_to_v(items_model(f.body@))),
                    ]);
                }
                Node::Branch(TAG_FUNCTION, ch)
            },
            Item::Table(t) => {
                let mut ch: Vec<Node> = Vec::new();
                ch.push(Node::Text(t.name.clone()));
                ch.push(Node::Branch(TAG_GROUP, encode_tfs(&t.pipeline)));
                proof {
                    lemma_nodes_model_pointwise(ch@);
                    assert(nodes_model(ch@) =~= seq![
                        NodeV::Text(t.name@),
                        NodeV::Branch(TAG_GROUP, tfs_to_v(tfs_model(t.pipeline@))),
                    ]);
                }
                Node::Branch(TAG_TABLE, ch)
            },
            Item::SString(segs) => Node::Branch(TAG_SSTRING, encode_sstrings(segs)),
            Item::Unimplemented(s) => Node::Branch(TAG_UNIMPLEMENTED, text_child(s)),
        }
    }
}

impl Transformation {
    /// Encodes this pipeline stage as a generic tagged tree.
    pub fn encode(&self) -> (r: Node)
        ensures
            r.model() == tf_to_v(self.model()),
        decreases *self,
    {
        match self {
            Transformation::From(items) => Node::Branch(TAG_FROM, encode_items(items)),
            Transformation::Select(items) => Node::Branch(TAG_SELECT, encode_items(items)),
            Transformation::Filter(f) => Node::Branch(TAG_FILTER, encode_items(&f.0)),
            Transformation::Derive(assigns) => Node::Branch(TAG_DERIVE, encode_assigns(assigns)),
            Transformation::Aggregate { by, calcs, assigns } => {
                let mut ch: Vec<Node> = Vec::new();
                ch.push(Node::Branch(TAG_GROUP, encode_items(by)));
                ch.push(Node::Branch(TAG_GROUP, encode_items(calcs)));
                ch.push(Node::Branch(TAG_GROUP, encode_assigns(assigns)));
                proof {
                    lemma_nodes_model_pointwise(ch@);
                    assert(nodes_model(ch@) =~= seq![
                        NodeV::Branch(TAG_GROUP, items_to_v(items_model(by@))),
                        NodeV::Branch(TAG_GROUP, items_to_v(items_model(calcs@))),
                        NodeV::Branch(TAG_GROUP, assigns_to_v(assigns_model(assigns@))),
                    ]);
                }
                Node::Branch(TAG_AGGREGATE, ch)
            },
            Transformation::Sort(items) => Node::Branch(TAG_SORT, encode_items(items)),
            Transformation::Take(n) => {
                let mut ch: Vec<Node> = Vec::new();
                ch.push(Node::Int(*n));
                proof {
                    lemma_nodes_model_pointwise(ch@);
                    assert(nodes_model(ch@) =~= seq![NodeV::Int(*n as int)]);
                }
                Node::Branch(TAG_TAKE, ch)
            },
            Transformation::Join(items) => Node::Branch(TAG_JOIN, encode_items(items)),
            Transformation::Func(call) => {
                let mut ch: Vec<Node> = Vec::new();
                ch.push(Node::Text(call.name.clone()));
                ch.push(Node::Branch(TAG_GROUP, encode_items(&call.args)));
                ch.push(Node::Branch(TAG_GROUP, encode_nameds(&call.named_args)));
                proof {
                    lemma_nodes_model_pointwise(ch@);
                    assert(nodes_model(ch@) =~= seq![
                        NodeV::Text(call.name@),
                        NodeV::Branch(TAG_GROUP, items_to_v(items_model(call.args@))),
                        NodeV::Branch(TAG_GROUP, nameds_to_v(nameds_model(call.named_args@))),
                    ]);
                }
                Node::Branch(TAG_FUNC, ch)
            },
        }
    }
}

impl Assign {
    /// Encodes this assignment as a name-and-value pair.
    pub fn encode(&self) -> (r: Node)
        ensures
            r.model() == assign_to_v(self.model()),
        decreases *self,
    {
        let mut ch: Vec<Node> = Vec::new();
        ch.push(Node::Text(self.lvalue.clone()));
        ch.push((*self.rvalue).encode());
        proof {
            lemma_nodes_model_pointwise(ch@);
            assert(nodes_model(ch@) =~= seq![
                NodeV::Text(self.lvalue@),
                item_to_v((*self.rvalue).model()),
            ]);
        }
        Node::Branch(TAG_PAIR, ch)
    }
}

impl NamedArg {
    /// Encodes this named argument as a name-and-value pair.
    pub fn encode(&self) -> (r: Node)
        ensures
            r.model() == named_to_v(self.model()),
        decreases *self,
    {
        let mut ch: Vec<Node> = Vec::new();
        ch.push(Node::Text(self.name.clone()));
        ch.push((*self.arg).encode());
        proof {
            lemma_nodes_model_pointwise(ch@);
            assert(nodes_model(ch@) =~= seq![
                NodeV::Text(self.name@),
                item_to_v((*self.arg).model()),
            ]);
        }
        Node::Branch(TAG_PAIR, ch)
    }
}

impl SStringItem {
    /// Encodes this interpolated-string segment.
    pub fn encode(&self) -> (r: Node)
        ensures
            r.model() == sstring_to_v(self.model()),
        decreases *self,
    {
        match self {
            SStringItem::Fragment(s) => Node::Branch(TAG_FRAGMENT, text_child(s)),
            SStringItem::Expr(item) => {
                let mut ch: Vec<Node> = Vec::new();
                ch.push(item.encode());
                proof {
                    lemma_nodes_model_pointwise(ch@);
                    assert(nodes_model(ch@) =~= seq![item_to_v(item.model())]);
                }
                Node::Branch(TAG_SEG_EXPR, ch)
            },
        }
    }
}

/// `items_from_v` succeeds exactly when every element decodes, and then
/// decodes the sequence elementwise.
pub proof fn lemma_items_from_v_pointwise(s: Seq<NodeV>)
    ensures
        items_from_v(s) is Some <==> (forall|j: int|
            0 <= j < s.len() ==> (#[trigger] item_from_v(s[j])) is Some),
        items_from_v(s) is Some ==> items_from_v(s)->Some_0.len() == s.len(),
        items_from_v(s) is Some ==> forall|j: int|
            0 <= j < s.len() ==> #[trigger] items_from_v(s)->Some_0[j] == item_from_v(
                s[j],
            )->Some_0,
    decreases s,
{
    if s.len() > 0 {
        lemma_items_from_v_pointwise(s.drop_last());
        assert(s.last() == s[s.len() - 1]);
        if items_from_v(s) is Some {
            assert forall|j: int| 0 <= j < s.len() implies (#[trigger] item_from_v(s[j])) is Some by {
                if j < s.len() - 1 {
                    assert(s.drop_last()[j] == s[j]);
                    assert((#[trigger] item_from_v(s.drop_last()[j])) is Some);
                }
            }
        }
        if forall|j: int| 0 <= j < s.len() ==> (#[trigger] item_from_v(s[j])) is Some {
            assert forall|j: int| 0 <= j < s.len() - 1 implies (#[trigger] item_from_v(s.drop_last()[j])) is Some by {
                assert(s.drop_last()[j] == s[j]);
                assert((#[trigger] item_from_v(s[j])) is Some);
            }
            assert((#[trigger] item_from_v(s[s.len() - 1])) is Some);
        }
        assert(forall|j: int| 0 <= j < s.len() - 1 ==> #[trigger] s.drop_last()[j] == s[j]);
    }
}

/// `texts_from_v` succeeds exactly when every element is a text leaf, and
/// then decodes the sequence elementwise.
pub proof fn lemma_texts_from_v_pointwise(s: Seq<NodeV>)
    ensures
        texts_from_v(s) is Some <==> (forall|j: int|
            0 <= j < s.len() ==> (#[trigger] s[j]) is Text),
        texts_from_v(s) is Some ==> texts_from_v(s)->Some_0.len() == s.len(),
        texts_from_v(s) is Some ==> forall|j: int|
            0 <= j < s.len() ==> #[trigger] texts_from_v(s)->Some_0[j] == s[j]->Text_0,
    decreases s,
{
    if s.len() > 0 {
        lemma_texts_from_v_pointwise(s.drop_last());
        assert(s.last() == s[s.len() - 1]);
        if texts_from_v(s) is Some {
            assert forall|j: int| 0 <= j < s.len() implies (#[trigger] s[j]) is Text by {
                if j < s.len() - 1 {
                    assert(s.drop_last()[j] == s[j]);
                    assert((#[trigger] s.drop_last()[j]) is Text);
                }
            }
        }
        if forall|j: int| 0 <= j < s.len() ==> (#[trigger] s[j]) is Text {
            assert forall|j: int| 0 <= j < s.len() - 1 implies (#[trigger] s.drop_last()[j]) is Text by {
                assert(s.drop_last()[j] == s[j]);
                assert((#[trigger] s[j]) is Text);
            }
            assert((#[trigger] s[s.len() - 1]) is Text);
        }
        assert(forall|j: int| 0 <= j < s.len() - 1 ==> #[trigger] s.drop_last()[j] == s[j]);
    }
}

/// `tfs_from_v` succeeds exactly when every element decodes, and then
/// decodes the sequence elementwise.
pub proof fn lemma_tfs_from_v_pointwise(s: Seq<NodeV>)
    ensures
        tfs_from_v(s) is Some <==> (forall|j: int|
            0 <= j < s.len() ==> (#[trigger] tf_from_v(s[j])) is Some),
        tfs_from_v(s) is Some ==> tfs_from_v(s)->Some_0.len() == s.len(),
        tfs_from_v(s) is Some ==> forall|j: int|
            0 <= j < s.len() ==> #[trigger] tfs_from_v(s)->Some_0[j] == tf_from_v(s[j])->Some_0,
    decreases s,
{
    if s.len() > 0 {
        lemma_tfs_from_v_pointwise(s.drop_last());
        assert(s.last() == s[s.len() - 1]);
        if tfs_from_v(s) is Some {
            assert forall|j: int| 0 <= j < s.len() implies (#[trigger] tf_from_v(s[j])) is Some by {
                if j < s.len() - 1 {
                    assert(s.drop_last()[j] == s[j]);
                    assert((#[trigger] tf_from_v(s.drop_last()[j])) is Some);
                }
            }
        }
        if forall|j: int| 0 <= j < s.len() ==> (#[trigger] tf_from_v(s[j])) is Some {
            assert forall|j: int| 0 <= j < s.len() - 1 implies (#[trigger] tf_from_v(s.drop_last()[j])) is Some by {
                assert(s.drop_last()[j] == s[j]);
                assert((#[trigger] tf_from_v(s[j])) is Some);
            }
            assert((#[trigger] tf_from_v(s[s.len() - 1])) is Some);
        }
        assert(forall|j: int| 0 <= j < s.len() - 1 ==> #[trigger] s.drop_last()[j] == s[j]);
    }
}

/// `assigns_from_v` succeeds exactly when every element decodes, and then
/// decodes the sequence elementwise.
pub proof fn lemma_assigns_from_v_pointwise(s: Seq<NodeV>)
    ensures
        assigns_from_v(s) is Some <==> (forall|j: int|
            0 <= j < s.len() ==> (#[trigger] assign_from_v(s[j])) is Some),
        assigns_from_v(s) is Some ==> assigns_from_v(s)->Some_0.len() == s.len(),
        assigns_from_v(s) is Some ==> forall|j: int|
            0 <= j < s.len() ==> #[trigger] assigns_from_v(s)->Some_0[j] == assign_from_v(
                s[j],
            )->Some_0,
    decreases s,
{
    if s.len() > 0 {
        lemma_assigns_from_v_pointwise(s.drop_last());
        assert(s.last() == s[s.len() - 1]);
        if assigns_from_v(s) is Some {
            assert forall|j: int| 0 <= j < s.len() implies (#[trigger] assign_from_v(s[j])) is Some by {
                if j < s.len() - 1 {
                    assert(s.drop_last()[j] == s[j]);
                    assert((#[trigger] assign_from_v(s.drop_last()[j])) is Some);
                }
            }
        }
        if forall|j: int| 0 <= j < s.len() ==> (#[trigger] assign_from_v(s[j])) is Some {
            assert forall|j: int| 0 <= j < s.len() - 1 implies (#[trigger] assign_from_v(s.drop_last()[j])) is Some by {
                assert(s.drop_last()[j] == s[j]);
                assert((#[trigger] assign_from_v(s[j])) is Some);
            }
            assert((#[trigger] assign_from_v(s[s.len() - 1])) is Some);
        }
        assert(forall|j: int| 0 <= j < s.len() - 1 ==> #[trigger] s.drop_last()[j] == s[j]);
    }
}

/// `nameds_from_v` succeeds exactly when every element decodes, and then
/// decodes the sequence elementwise.
pub proof fn lemma_nameds_from_v_pointwise(s: Seq<NodeV>)
    ensures
        nameds_from_v(s) is Some <==> (forall|j: int|
            0 <= j < s.len() ==> (#[trigger] named_from_v(s[j])) is Some),
        nameds_from_v(s) is Some ==> nameds_from_v(s)->Some_0.len() == s.len(),
        nameds_from_v(s) is Some ==> forall|j: int|
            0 <= j < s.len() ==> #[trigger] nameds_from_v(s)->Some_0[j] == named_from_v(
                s[j],
            )->Some_0,
    decreases s,
{
    if s.len() > 0 {
        lemma_nameds_from_v_pointwise(s.drop_last());
        assert(s.last() == s[s.len() - 1]);
        if nameds_from_v(s) is Some {
            assert forall|j: int| 0 <= j < s.len() implies (#[trigger] named_from_v(s[j])) is Some by {
                if j < s.len() - 1 {
                    assert(s.drop_last()[j] == s[j]);
                    assert((#[trigger] named_from_v(s.drop_last()[j])) is Some);
                }
            }
        }
        if forall|j: int| 0 <= j < s.len() ==> (#[trigger] named_from_v(s[j])) is Some {
            assert forall|j: int| 0 <= j < s.len() - 1 implies (#[trigger] named_from_v(s.drop_last()[j])) is Some by {
                assert(s.drop_last()[j] == s[j]);
                assert((#[trigger] named_from_v(s[j])) is Some);
            }
            assert((#[trigger] named_from_v(s[s.len() - 1])) is Some);
        }
        assert(forall|j: int| 0 <= j < s.len() - 1 ==> #[trigger] s.drop_last()[j] == s[j]);
    }
}

/// `sstrings_from_v` succeeds exactly when every element decodes, and then
/// decodes the sequence elementwise.
pub proof fn lemma_sstrings_from_v_pointwise(s: Seq<NodeV>)
    ensures
        sstrings_from_v(s) is Some <==> (forall|j: int|
            0 <= j < s.len() ==> (#[trigger] sstring_from_v(s[j])) is Some),
        sstrings_from_v(s) is Some ==> sstrings_from_v(s)->Some_0.len() == s.len(),
        sstrings_from_v(s) is Some ==> forall|j: int|
            0 <= j < s.len() ==> #[trigger] sstrings_from_v(s)->Some_0[j] == sstring_from_v(
                s[j],
            )->Some_0,
    decreases s,
{
    if s.len() > 0 {
        lemma_sstrings_from_v_pointwise(s.drop_last());
        assert(s.last() == s[s.len() - 1]);
        if sstrings_from_v(s) is Some {
            assert forall|j: int| 0 <= j < s.len() implies (#[trigger] sstring_from_v(s[j])) is Some by {
                if j < s.len() - 1 {
                    assert(s.drop_last()[j] == s[j]);
                    assert((#[trigger] sstring_from_v(s.drop_last()[j])) is Some);
                }
            }
        }
        if forall|j: int| 0 <= j < s.len() ==> (#[trigger] sstring_from_v(s[j])) is Some {
            assert forall|j: int| 0 <= j < s.len() - 1 implies (#[trigger] sstring_from_v(s.drop_last()[j])) is Some by {
                assert(s.drop_last()[j] == s[j]);
                assert((#[trigger] sstring_from_v(s[j])) is Some);
            }
            assert((#[trigger] sstring_from_v(s[s.len() - 1])) is Some);
        }
        assert(forall|j: int| 0 <= j < s.len() - 1 ==> #[trigger] s.drop_last()[j] == s[j]);
    }
}

/// Decodes a one-element text payload.
fn decode_text_child(ch: &Vec<Node>) -> (r: Option<String>)
    ensures
        text_of(nodes_model(ch@)) matches Some(s) ==> r matches Some(y) && y@ == s,
        text_of(nodes_model(ch@)) is None ==> r is None,
{
    proof {
        lemma_nodes_model_pointwise(ch@);
    }
    if ch.len() == 1 {
        match &ch[0] {
            Node::Text(s) => Some(s.clone()),
            _ => None,
        }
    } else {
        None
    }
}

/// Decodes a vector of encoded items, elementwise; fails if any element
/// fails.
fn decode_items(ch: &Vec<Node>) -> (r: Option<Vec<Item>>)
    ensures
        items_from_v(nodes_model(ch@)) matches Some(ms) ==> r matches Some(v) && items_model(v@)
            == ms,
        items_from_v(nodes_model(ch@)) is None ==> r is None,
    decreases *ch,
{
    proof {
        lemma_nodes_model_pointwise(ch@);
        lemma_items_from_v_pointwise(nodes_model(ch@));
    }
    let mut out: Vec<Item> = Vec::new();
    let mut i: usize = 0;
    while i < ch.len()
        invariant
            i <= ch@.len(),
            out@.len() == i,
            nodes_model(ch@).len() == ch@.len(),
            forall|j: int| 0 <= j < ch@.len() ==> #[trigger] nodes_model(ch@)[j]
                == ch@[j].model(),
            forall|j: int| 0 <= j < i ==> (#[trigger] item_from_v(nodes_model(ch@)[j])) is Some,
            forall|j: int| 0 <= j < i ==> (#[trigger] out@[j]).model() == item_from_v(
                nodes_model(ch@)[j],
            )->Some_0,
        decreases ch@.len() - i,
    {
        match ch[i].decode() {
            Some(item) => {
                out.push(item);
            },
            None => {
                proof {
                    lemma_items_from_v_pointwise(nodes_model(ch@));
                    assert(nodes_model(ch@)[i as int] == ch@[i as int].model());
                    assert(!(item_from_v(nodes_model(ch@)[i as int]) is Some));
                    assert(items_from_v(nodes_model(ch@)) is None);
                }
                return None;
            },
        }
        i += 1;
    }
    proof {
        lemma_items_from_v_pointwise(nodes_model(ch@));
        crate::ast::lemma_items_model_pointwise(out@);
        assert(items_model(out@) =~= items_from_v(nodes_model(ch@))->Some_0);
    }
    Some(out)
}

/// Decodes a vector of encoded transformations, elementwise.
fn decode_tfs(ch: &Vec<Node>) -> (r: Option<Vec<Transformation>>)
    ensures
        tfs_from_v(nodes_model(ch@)) matches Some(ts) ==> r matches Some(v) && tfs_model(v@)
            == ts,
        tfs_from_v(nodes_model(ch@)) is None ==> r is None,
    decreases *ch,
{
    proof {
        lemma_nodes_model_pointwise(ch@);
        lemma_tfs_from_v_pointwise(nodes_model(ch@));
    }
    let mut out: Vec<Transformation> = Vec::new();
    let mut i: usize = 0;
    while i < ch.len()
        invariant
            i <= ch@.len(),
            out@.len() == i,
            nodes_model(ch@).len() == ch@.len(),
            forall|j: int| 0 <= j < ch@.len() ==> #[trigger] nodes_model(ch@)[j]
                == ch@[j].model(),
            forall|j: int| 0 <= j < i ==> (#[trigger] tf_from_v(nodes_model(ch@)[j])) is Some,
            forall|j: int| 0 <= j < i ==> (#[trigger] out@[j]).model() == tf_from_v(
                nodes_model(ch@)[j],
            )->Some_0,
        decreases ch@.len() - i,
    {
        match ch[i].decode_tf() {
            Some(t) => {
                out.push(t);
            },
            None => {
                proof {
                    lemma_tfs_from_v_pointwise(nodes_model(ch@));
                    assert(nodes_model(ch@)[i as int] == ch@[i as int].model());
                    assert(!(tf_from_v(nodes_model(ch@)[i as int]) is Some));
                    assert(tfs_from_v(nodes_model(ch@)) is None);
                }
                return None;
            },
        }
        i += 1;
    }
    proof {
        lemma_tfs_from_v_pointwise(nodes_model(ch@));
        crate::ast::lemma_tfs_model_pointwise(out@);
        assert(tfs_model(out@) =~= tfs_from_v(nodes_model(ch@))->Some_0);
    }
    Some(out)
}

/// Decodes a vector of encoded assignments, elementwise.
fn decode_assigns(ch: &Vec<Node>) -> (r: Option<Vec<Assign>>)
    ensures
        assigns_from_v(nodes_model(ch@)) matches Some(assigns) ==> r matches Some(v)
            && assigns_model(v@) == assigns,
        assigns_from_v(nodes_model(ch@)) is None ==> r is None,
    decreases *ch,
{
    proof {
        lemma_nodes_model_pointwise(ch@);
        lemma_assigns_from_v_pointwise(nodes_model(ch@));
    }
    let mut out: Vec<Assign> = Vec::new();
    let mut i: usize = 0;
    while i < ch.len()
        invariant
            i <= ch@.len(),
            out@.len() == i,
            nodes_model(ch@).len() == ch@.len(),
            forall|j: int| 0 <= j < ch@.len() ==> #[trigger] nodes_model(ch@)[j]
                == ch@[j].model(),
            forall|j: int| 0 <= j < i ==> (#[trigger] assign_from_v(
                nodes_model(ch@)[j],
            )) is Some,
            forall|j: int| 0 <= j < i ==> (#[trigger] out@[j]).model() == assign_from_v(
                nodes_model(ch@)[j],
            )->Some_0,
        decreases ch@.len() - i,
    {
        match ch[i].decode_assign() {
            Some(a) => {
                out.push(a);
            },
            None => {
                proof {
                    lemma_assigns_from_v_pointwise(nodes_model(ch@));
                    assert(nodes_model(ch@)[i as int] == ch@[i as int].model());
                    assert(!(assign_from_v(nodes_model(ch@)[i as int]) is Some));
                    assert(assigns_from_v(nodes_model(ch@)) is None);
                }
                return None;
            },
        }
        i += 1;
    }
    proof {
        lemma_assigns_from_v_pointwise(nodes_model(ch@));
        crate::ast::lemma_assigns_model_pointwise(out@);
        assert(assigns_model(out@) =~= assigns_from_v(nodes_model(ch@))->Some_0);
    }
    Some(out)
}

/// Decodes a vector of encoded named arguments, elementwise.
fn decode_nameds(ch: &Vec<Node>) -> (r: Option<Vec<NamedArg>>)
    ensures
        nameds_from_v(nodes_model(ch@)) matches Some(nas) ==> r matches Some(v) && nameds_model(
            v@,
        ) == nas,
        nameds_from_v(nodes_model(ch@)) is None ==> r is None,
    decreases *ch,
{
    proof {
        lemma_nodes_model_pointwise(ch@);
        lemma_nameds_from_v_pointwise(nodes_model(ch@));
    }
    let mut out: Vec<NamedArg> = Vec::new();
    let mut i: usize = 0;
    while i < ch.len()
        invariant
            i <= ch@.len(),
            out@.len() == i,
            nodes_model(ch@).len() == ch@.len(),
            forall|j: int| 0 <= j < ch@.len() ==> #[trigger] nodes_model(ch@)[j]
                == ch@[j].model(),
            forall|j: int| 0 <= j < i ==> (#[trigger] named_from_v(nodes_model(ch@)[j])) is Some,
            forall|j: int| 0 <= j < i ==> (#[trigger] out@[j]).model() == named_from_v(
                nodes_model(ch@)[j],
            )->Some_0,
        decreases ch@.len() - i,
    {
        match ch[i].decode_named() {
            Some(na) => {
                out.push(na);
            },
            None => {
                proof {
                    lemma_nameds_from_v_pointwise(nodes_model(ch@));
                    assert(nodes_model(ch@)[i as int] == ch@[i as int].model());
                    assert(!(named_from_v(nodes_model(ch@)[i as int]) is Some));
                    assert(nameds_from_v(nodes_model(ch@)) is None);
                }
                return None;
            },
        }
        i += 1;
    }
    proof {
        lemma_nameds_from_v_pointwise(nodes_model(ch@));
        crate::ast::lemma_nameds_model_pointwise(out@);
        assert(nameds_model(out@) =~= nameds_from_v(nodes_model(ch@))->Some_0);
    }
    Some(out)
}

/// Decodes a vector of encoded interpolated-string segments, elementwise.
fn decode_sstrings(ch: &Vec<Node>) -> (r: Option<Vec<SStringItem>>)
    ensures
        sstrings_from_v(nodes_model(ch@)) matches Some(segs) ==> r matches Some(v)
            && sstrings_model(v@) == segs,
        sstrings_from_v(nodes_model(ch@)) is None ==> r is None,
    decreases *ch,
{
    proof {
        lemma_nodes_model_pointwise(ch@);
        lemma_sstrings_from_v_pointwise(nodes_model(ch@));
    }
    let mut out: Vec<SStringItem> = Vec::new();
    let mut i: usize = 0;
    while i < ch.len()
        invariant
            i <= ch@.len(),
            out@.len() == i,
            nodes_model(ch@).len() == ch@.len(),
            forall|j: int| 0 <= j < ch@.len() ==> #[trigger] nodes_model(ch@)[j]
                == ch@[j].model(),
            forall|j: int| 0 <= j < i ==> (#[trigger] sstring_from_v(
                nodes_model(ch@)[j],
            )) is Some,
            forall|j: int| 0 <= j < i ==> (#[trigger] out@[j]).model() == sstring_from_v(
                nodes_model(ch@)[j],
            )->Some_0,
        decreases ch@.len() - i,
    {
        match ch[i].decode_sstring() {
            Some(seg) => {
                out.push(seg);
            },
            None => {
                proof {
                    lemma_sstrings_from_v_pointwise(nodes_model(ch@));
                    assert(nodes_model(ch@)[i as int] == ch@[i as int].model());
                    assert(!(sstring_from_v(nodes_model(ch@)[i as int]) is Some));
                    assert(sstrings_from_v(nodes_model(ch@)) is None);
                }
                return None;
            },
        }
        i += 1;
    }
    proof {
        lemma_sstrings_from_v_pointwise(nodes_model(ch@));
        crate::ast::lemma_sstrings_model_pointwise(out@);
        assert(sstrings_model(out@) =~= sstrings_from_v(nodes_model(ch@))->Some_0);
    }
    Some(out)
}

/// Decodes a vector of text leaves into identifiers, elementwise.
fn decode_texts(ch: &Vec<Node>) -> (r: Option<Vec<String>>)
    ensures
        texts_from_v(nodes_model(ch@)) matches Some(ss) ==> r matches Some(v) && idents_model(v@)
            == ss,
        texts_from_v(nodes_model(ch@)) is None ==> r is None,
{
    proof {
        lemma_nodes_model_pointwise(ch@);
        lemma_texts_from_v_pointwise(nodes_model(ch@));
    }
    let mut out: Vec<String> = Vec::new();
    let mut i: usize = 0;
    while i < ch.len()
        invariant
            i <= ch@.len(),
            out@.len() == i,
            nodes_model(ch@).len() == ch@.len(),
            forall|j: int| 0 <= j < ch@.len() ==> #[trigger] nodes_model(ch@)[j]
                == ch@[j].model(),
            forall|j: int| 0 <= j < i ==> (#[trigger] nodes_model(ch@)[j]) is Text,
            forall|j: int| 0 <= j < i ==> (#[trigger] out@[j])@ == nodes_model(
                ch@,
            )[j]->Text_0,
        decreases ch@.len() - i,
    {
        match &ch[i] {
            Node::Text(s) => {
                out.push(s.clone());
            },
            _ => {
                proof {
                    lemma_texts_from_v_pointwise(nodes_model(ch@));
                    assert(nodes_model(ch@)[i as int] == ch@[i as int].model());
                    assert(!(nodes_model(ch@)[i as int] is Text));
                    assert(texts_from_v(nodes_model(ch@)) is None);
                }
                return None;
            },
        }
        i += 1;
    }
    proof {
        lemma_texts_from_v_pointwise(nodes_model(ch@));
        assert(idents_model(out@) =~= texts_from_v(nodes_model(ch@))->Some_0);
    }
    Some(out)
}

impl Node {
    /// Decodes an encoded syntax tree. Returns the tree whose encoding this
    /// node is, or `None` when the node does not carry the shape its tags
    /// promise.
    pub fn decode(&self) -> (r: Option<Item>)
        ensures
            item_from_v(self.model()) matches Some(m) ==> r matches Some(y) && y.model() == m,
            item_from_v(self.model()) is None ==> r is None,
        decreases *self,
    {
        match self {
            Node::Branch(tag, ch) => {
                proof {
                    lemma_nodes_model_pointwise(ch@);
                }
                let t = *tag;
                if t == TAG_TRANSFORMATION {
                    if ch.len() == 1 {
                        match ch[0].decode_tf() {
                            Some(tf) => Some(Item::Transformation(tf)),
                            None => None,
                        }
                    } else {
                        None
                    }
                } else if t == TAG_IDENT {
                    match decode_text_child(ch) {
                        Some(s) => Some(Item::Ident(s)),
                        None => None,
                    }
                } else if t == TAG_STRING_LITERAL {
                    match decode_text_child(ch) {
                        Some(s) => Some(Item::StringLiteral(s)),
                        None => None,
                    }
                } else if t == TAG_RAW {
                    match decode_text_child(ch) {
                        Some(s) => Some(Item::Raw(s)),
                        None => None,
                    }
                } else if t == TAG_ASSIGN {
                    if ch.len() == 1 {
                        match ch[0].decode_assign() {
                            Some(a) => Some(Item::Assign(a)),
                            None => None,
                        }
                    } else {
                        None
                    }
                } else if t == TAG_NAMED_ARG {
                    if ch.len() == 1 {
                        match ch[0].decode_named() {
                            Some(na) => Some(Item::NamedArg(na)),
                            None => None,
                        }
                    } else {
                        None
                    }
                } else if t == TAG_QUERY {
                    match decode_items(ch) {
                        Some(items) => Some(Item::Query(items)),
                        None => None,
                    }
                } else if t == TAG_PIPELINE {
                    match decode_tfs(ch) {
                        Some(tfs) => Some(Item::Pipeline(tfs)),
                        None => None,
                    }
                } else if t == TAG_LIST {
                    match decode_items(ch) {
                        Some(items) => Some(Item::List(items)),
                        None => None,
                    }
                } else if t == TAG_ITEMS {
                    match decode_items(ch) {
                        Some(items) => Some(Item::Items(items)),
                        None => None,
                    }
                } else if t == TAG_EXPR {
                    match decode_items(ch) {
                        Some(items) => Some(Item::Expr(items)),
                        None => None,
                    }
                } else if t == TAG_IDENTS {
                    match decode_texts(ch) {
                        Some(ids) => Some(Item::Idents(ids)),
                        None => None,
                    }
                } else if t == TAG_FUNCTION {
                    if ch.len() == 3 {
                        match (&ch[0], &ch[1], &ch[2]) {
                            (
                                Node::Text(name),
                                Node::Branch(g1, args_ch),
                                Node::Branch(g2, body_ch),
                            ) => {
                                if *g1 == TAG_GROUP && *g2 == TAG_GROUP {
                                    match (decode_texts(args_ch), decode_items(body_ch)) {
                                        (Some(args), Some(body)) => Some(
                                            Item::Function(
                                                Function { name: name.clone(), args, body },
                                            ),
                                        ),
                                        _ => None,
                                    }
                                } else {
                                    None
                                }
                            },
                            _ => None,
                        }
                    } else {
                        None
                    }
                } else if t == TAG_TABLE {
                    if ch.len() == 2 {
                        match (&ch[0], &ch[1]) {
                            (Node::Text(name), Node::Branch(g, pipe_ch)) => {
                                if *g == TAG_GROUP {
                                    match decode_tfs(pipe_ch) {
                                        Some(pipeline) => Some(
                                            Item::Table(Table { name: name.clone(), pipeline }),
                                        ),
                                        None => None,
                                    }
                                } else {
                                    None
                                }
                            },
                            _ => None,
                        }
                    } else {
                        None
                    }
                } else if t == TAG_SSTRING {
                    match decode_sstrings(ch) {
                        Some(segs) => Some(Item::SString(segs)),
                        None => None,
                    }
                } else if t == TAG_UNIMPLEMENTED {
                    match decode_text_child(ch) {
                        Some(s) => Some(Item::Unimplemented(s)),
                        None => None,
                    }
                } else {
                    None
                }
            },
            _ => None,
        }
    }

    /// Decodes an encoded transformation.
    pub fn decode_tf(&self) -> (r: Option<Transformation>)
        ensures
            tf_from_v(self.model()) matches Some(m) ==> r matches Some(y) && y.model() == m,
            tf_from_v(self.model()) is None ==> r is None,
        decreases *self,
    {
        match self {
            Node::Branch(tag, ch) => {
                proof {
                    lemma_nodes_model_pointwise(ch@);
                }
                let t = *tag;
                if t == TAG_FROM {
                    match decode_items(ch) {
                        Some(items) => Some(Transformation::From(items)),
                        None => None,
                    }
                } else if t == TAG_SELECT {
                    match decode_items(ch) {
                        Some(items) => Some(Transformation::Select(items)),
                        None => None,
                    }
                } else if t == TAG_FILTER {
                    match decode_items(ch) {
                        Some(items) => Some(Transformation::Filter(crate::ast::Filter(items))),
                        None => None,
                    }
                } else if t == TAG_DERIVE {
                    match decode_assigns(ch) {
                        Some(assigns) => Some(Transformation::Derive(assigns)),
                        None => None,
                    }
                } else if t == TAG_AGGREGATE {
                    if ch.len() == 3 {
                        match (&ch[0], &ch[1], &ch[2]) {
                            (
                                Node::Branch(g1, by_ch),
                                Node::Branch(g2, calcs_ch),
                                Node::Branch(g3, assigns_ch),
                            ) => {
                                if *g1 == TAG_GROUP && *g2 == TAG_GROUP && *g3 == TAG_GROUP {
                                    match (
                                        decode_items(by_ch),
                                        decode_items(calcs_ch),
                                        decode_assigns(assigns_ch),
                                    ) {
                                        (Some(by), Some(calcs), Some(assigns)) => Some(
                                            Transformation::Aggregate { by, calcs, assigns },
                                        ),
                                        _ => None,
                                    }
                                } else {
                                    None
                                }
                            },
                            _ => None,
                        }
                    } else {
                        None
                    }
                } else if t == TAG_SORT {
                    match decode_items(ch) {
                        Some(items) => Some(Transformation::Sort(items)),
                        None => None,
                    }
                } else if t == TAG_TAKE {
                    if ch.len() == 1 {
                        match &ch[0] {
                            Node::Int(n) => Some(Transformation::Take(*n)),
                            _ => None,
                        }
                    } else {
                        None
                    }
                } else if t == TAG_JOIN {
                    match decode_items(ch) {
                        Some(items) => Some(Transformation::Join(items)),
                        None => None,
                    }
                } else if t == TAG_FUNC {
                    if ch.len() == 3 {
                        match (&ch[0], &ch[1], &ch[2]) {
                            (
                                Node::Text(name),
                                Node::Branch(g1, args_ch),
                                Node::Branch(g2, nameds_ch),
                            ) => {
                                if *g1 == TAG_GROUP && *g2 == TAG_GROUP {
                                    match (decode_items(args_ch), decode_nameds(nameds_ch)) {
                                        (Some(args), Some(named_args)) => Some(
                                            Transformation::Func(
                                                FuncCall {
                                                    name: name.clone(),
                                                    args,
                                                    named_args,
                                                },
                                            ),
                                        ),
                                        _ => None,
                                    }
                                } else {
                                    None
                                }
                            },
                            _ => None,
                        }
                    } else {
                        None
                    }
                } else {
                    None
                }
            },
            _ => None,
        }
    }

    /// Decodes an encoded assignment pair.
    pub fn decode_assign(&self) -> (r: Option<Assign>)
        ensures
            assign_from_v(self.model()) matches Some(m) ==> r matches Some(y) && y.model() == m,
            assign_from_v(self.model()) is None ==> r is None,
        decreases *self,
    {
        match self {
            Node::Branch(tag, ch) => {
                proof {
                    lemma_nodes_model_pointwise(ch@);
                }
                if *tag == TAG_PAIR && ch.len() == 2 {
                    match &ch[0] {
                        Node::Text(lvalue) => {
                            match ch[1].decode() {
                                Some(rv) => Some(
                                    Assign { lvalue: lvalue.clone(), rvalue: Box::new(rv) },
                                ),
                                None => None,
                            }
                        },
                        _ => None,
                    }
                } else {
                    None
                }
            },
            _ => None,
        }
    }

    /// Decodes an encoded named-argument pair.
    pub fn decode_named(&self) -> (r: Option<NamedArg>)
        ensures
            named_from_v(self.model()) matches Some(m) ==> r matches Some(y) && y.model() == m,
            named_from_v(self.model()) is None ==> r is None,
        decreases *self,
    {
        match self {
            Node::Branch(tag, ch) => {
                proof {
                    lemma_nodes_model_pointwise(ch@);
                }
                if *tag == TAG_PAIR && ch.len() == 2 {
                    match &ch[0] {
                        Node::Text(name) => {
                            match ch[1].decode() {
                                Some(arg) => Some(
                                    NamedArg { name: name.clone(), arg: Box::new(arg) },
                                ),
                                None => None,
                            }
                        },
                        _ => None,
                    }
                } else {
                    None
                }
            },
            _ => None,
        }
    }

    /// Decodes an encoded interpolated-string segment.
    pub fn decode_sstring(&self) -> (r: Option<SStringItem>)
        ensures
            sstring_from_v(self.model()) matches Some(m) ==> r matches Some(y) && y.model() == m,
            sstring_from_v(self.model()) is None ==> r is None,
        decreases *self,
    {
        match self {
            Node::Branch(tag, ch) => {
                proof {
                    lemma_nodes_model_pointwise(ch@);
                }
                let t = *tag;
                if t == TAG_FRAGMENT {
                    match decode_text_child(ch) {
                        Some(s) => Some(SStringItem::Fragment(s)),
                        None => None,
                    }
                } else if t == TAG_SEG_EXPR {
                    if ch.len() == 1 {
                        match ch[0].decode() {
                            Some(item) => Some(SStringItem::Expr(item)),
                            None => None,
                        }
                    } else {
                        None
                    }
                } else {
                    None
                }
            },
            _ => None,
        }
    }
}

} // verus!
