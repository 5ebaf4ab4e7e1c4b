use vstd::prelude::*;
use vstd::string::StringExecFns;

use crate::ast::{
    assigns_model, dec_digits, idents_model, items_model, nameds_model, sstrings_model, tfs_model, u64_to_string,
    Assign, AssignV, Item, ItemV, NamedArg, NamedArgV, SStringItem, SStringItemV, Transformation,
    TransformationV,
};
use crate::ast::{
    lemma_assigns_model_pointwise, lemma_items_model_pointwise, lemma_nameds_model_pointwise,
    lemma_sstrings_model_pointwise, lemma_tfs_model_pointwise,
};

verus! {

/// The rendering of an item: its variant name with its contents, textual
/// payloads verbatim between quotes, child sequences between brackets.
pub open spec fn item_text(m: ItemV) -> Seq<char>
    decreases m,
{
    match m {
        ItemV::Transformation(t) => "Transformation("@ + tf_text(t) + ")"@,
        ItemV::Ident(s) => "Ident(\""@ + s + "\")"@,
        ItemV::StringLiteral(s) => "StringLiteral(\""@ + s + "\")"@,
        ItemV::Raw(s) => "Raw(\""@ + s + "\")"@,
        ItemV::Assign(a) => "Assign("@ + assign_text(a) + ")"@,
        ItemV::NamedArg(na) => "NamedArg("@ + named_text(na) + ")"@,
        ItemV::Query(items) => "Query(["@ + items_text(items) + "])"@,
        ItemV::Pipeline(tfs) => "Pipeline(["@ + tfs_text(tfs) + "])"@,
        ItemV::List(items) => "List(["@ + items_text(items) + "])"@,
        ItemV::Items(items) => "Items(["@ + items_text(items) + "])"@,
        ItemV::Expr(items) => "Expr(["@ + items_text(items) + "])"@,
        ItemV::Idents(ss) => "Idents("@ + idents_text(ss) + ")"@,
        ItemV::Function(f) => "Function(\""@ + f.name + "\", "@ + idents_text(f.args) + ", ["@
            + items_text(f.body) + "])"@,
        ItemV::Table(t) => "Table(\""@ + t.name + "\", ["@ + tfs_text(t.pipeline) + "])"@,
        ItemV::SString(segs) => "SString(["@ + sstrings_text(segs) + "])"@,
        ItemV::Unimplemented(s) => "Unimplemented(\""@ + s + "\")"@,
    }
}

/// The rendering of a sequence of items, joined by commas.
pub open spec fn items_text(ms: Seq<ItemV>) -> Seq<char>
    decreases ms,
{
    if ms.len() == 0 {
        Seq::empty()
    } else if ms.len() == 1 {
        item_text(ms[0])
    } else {
        items_text(ms.drop_last()) + ", "@ + item_text(ms.last())
    }
}

/// The rendering of a transformation.
pub open spec fn tf_text(t: TransformationV) -> Seq<char>
    decreases t,
{
    match t {
        TransformationV::From(items) => "From(["@ + items_text(items) + "])"@,
        TransformationV::Select(items) => "Select(["@ + items_text(items) + "])"@,
        TransformationV::Filter(items) => "Filter(["@ + items_text(items) + "])"@,
        TransformationV::Derive(assigns) => "Derive(["@ + assigns_text(assigns) + "])"@,
        TransformationV::Aggregate { by, calcs, assigns } => "Aggregate(["@ + items_text(by)
            + "], ["@ + items_text(calcs) + "], ["@ + assigns_text(assigns) + "])"@,
        TransformationV::Sort(items) => "Sort(["@ + items_text(items) + "])"@,
        TransformationV::Take(n) => "Take("@ + int_text(n) + ")"@,
        TransformationV::Join(items) => "Join(["@ + items_text(items) + "])"@,
        TransformationV::Func(call) => "Func(\""@ + call.name + "\", ["@ + items_text(call.args)
            + "], ["@ + nameds_text(call.named_args) + "])"@,
    }
}

/// The rendering of a sequence of transformations, joined by commas.
pub open spec fn tfs_text(ts: Seq<TransformationV>) -> Seq<char>
    decreases ts,
{
    if ts.len() == 0 {
        Seq::empty()
    } else if ts.len() == 1 {
        tf_text(ts[0])
    } else {
        tfs_text(ts.drop_last()) + ", "@ + tf_text(ts.last())
    }
}

/// The rendering of an assignment: the bound name and the value.
pub open spec fn assign_text(a: AssignV) -> Seq<char>
    decreases a,
{
    "\""@ + a.lvalue + "\" = "@ + item_text(*a.rvalue)
}

/// The rendering of a sequence of assignments, joined by commas.
pub open spec fn assigns_text(assigns: Seq<AssignV>) -> Seq<char>
    decreases assigns,
{
    if assigns.len() == 0 {
        Seq::empty()
    } else if assigns.len() == 1 {
        assign_text(assigns[0])
    } else {
        assigns_text(assigns.drop_last()) + ", "@ + assign_text(assigns.last())
    }
}

/// The rendering of a named argument: the name and the argument.
pub open spec fn named_text(na: NamedArgV) -> Seq<char>
    decreases na,
{
    "\""@ + na.name + "\": "@ + item_text(*na.arg)
}

/// The rendering of a sequence of named arguments, joined by commas.
pub open spec fn nameds_text(nas: Seq<NamedArgV>) -> Seq<char>
    decreases nas,
{
    if nas.len() == 0 {
        Seq::empty()
    } else if nas.len() == 1 {
        named_text(nas[0])
    } else {
        nameds_text(nas.drop_last()) + ", "@ + named_text(nas.last())
    }
}

/// The rendering of one interpolated-string segment.
pub open spec fn sstring_text(seg: SStringItemV) -> Seq<char>
    decreases seg,
{
    match seg {
        SStringItemV::Fragment(s) => "Fragment(\""@ + s + "\")"@,
        SStringItemV::Expr(item) => "Expr("@ + item_text(*item) + ")"@,
    }
}

/// The rendering of a sequence of interpolated-string segments, joined by
/// commas.
pub open spec fn sstrings_text(segs: Seq<SStringItemV>) -> Seq<char>
    decreases segs,
{
    if segs.len() == 0 {
        Seq::empty()
    } else if segs.len() == 1 {
        sstring_text(segs[0])
    } else {
        sstrings_text(segs.drop_last()) + ", "@ + sstring_text(segs.last())
    }
}

/// The rendering of a list of identifiers, each between quotes, the whole
/// between brackets.
pub open spec fn idents_text(ss: Seq<Seq<char>>) -> Seq<char> {
    "["@ + quoted_texts(ss) + "]"@
}

/// The quoted identifiers, joined by commas.
pub open spec fn quoted_texts(ss: Seq<Seq<char>>) -> Seq<char>
    decreases ss,
{
    if ss.len() == 0 {
        Seq::empty()
    } else if ss.len() == 1 {
        "\""@ + ss[0] + "\""@
    } else {
        quoted_texts(ss.drop_last()) + ", \""@ + ss.last() + "\""@
    }
}

/// The rendering of a signed number in decimal.
pub open spec fn int_text(n: int) -> Seq<char> {
    if n < 0 {
        "-"@ + dec_digits((-n) as nat)
    } else {
        dec_digits(n as nat)
    }
}

/// Renders a signed number in decimal.
pub fn i64_to_string(n: i64) -> (r: String)
    ensures
        r@ == int_text(n as int),
{
    if n >= 0 {
        let r = u64_to_string(n as u64);
        proof {
            assert(r@ =~= int_text(n as int));
        }
        r
    } else {
        let mag: u64 = ((-(n + 1)) as u64) + 1;
        proof {
            assert(mag as int == -(n as int));
        }
        let r = String::from_str("-").concat(u64_to_string(mag).as_str());
        proof {
            assert(r@ =~= int_text(n as int));
        }
        r
    }
}

/// Renders a vector of items, joined by commas.
fn render_items(items: &Vec<Item>) -> (r: String)
    ensures
        r@ == items_text(items_model(items@)),
    decreases *items,
{
    let mut acc = String::new();
    let mut i: usize = 0;
    proof {
        assert(items@.take(0) =~= Seq::<Item>::empty());
    }
    while i < items.len()
        invariant
            i <= items@.len(),
            acc@ == items_text(items_model(items@.take(i as int))),
        decreases items@.len() - i,
    {
        let ghost pre = items_model(items@.take(i as int));
        let piece = items[i].render();
        if i > 0 {
            acc.append(", ");
        }
        acc.append(piece.as_str());
        proof {
            lemma_items_model_pointwise(items@.take(i as int));
            assert(items@.take(i as int + 1).drop_last() =~= items@.take(i as int));
            assert(items@.take(i as int + 1).last() == items@[i as int]);
            assert(items_model(items@.take(i as int + 1)) =~= pre.push(
                items@[i as int].model(),
            ));
            if i == 0 {
                assert(acc@ =~= items_text(items_model(items@.take(i as int + 1))));
            } else {
                assert(pre.push(items@[i as int].model()).drop_last() =~= pre);
                assert(acc@ =~= items_text(items_model(items@.take(i as int + 1))));
            }
        }
        i += 1;
    }
    proof {
        assert(items@.take(items@.len() as int) =~= items@);
    }
    acc
}

/// Renders a vector of transformations, joined by commas.
fn render_tfs(tfs: &Vec<Transformation>) -> (r: String)
    ensures
        r@ == tfs_text(tfs_model(tfs@)),
    decreases *tfs,
{
    let mut acc = String::new();
    let mut i: usize = 0;
    proof {
        assert(tfs@.take(0) =~= Seq::<Transformation>::empty());
    }
    while i < tfs.len()
        invariant
            i <= tfs@.len(),
            acc@ == tfs_text(tfs_model(tfs@.take(i as int))),
        decreases tfs@.len() - i,
    {
        let ghost pre = tfs_model(tfs@.take(i as int));
        let piece = tfs[i].render();
        if i > 0 {
            acc.append(", ");
        }
        acc.append(piece.as_str());
        proof {
            lemma_tfs_model_pointwise(tfs@.take(i as int));
            assert(tfs@.take(i as int + 1).drop_last() =~= tfs@.take(i as int));
            assert(tfs@.take(i as int + 1).last() == tfs@[i as int]);
            assert(tfs_model(tfs@.take(i as int + 1)) =~= pre.push(tfs@[i as int].model()));
            if i == 0 {
                assert(acc@ =~= tfs_text(tfs_model(tfs@.take(i as int + 1))));
            } else {
                assert(pre.push(tfs@[i as int].model()).drop_last() =~= pre);
                assert(acc@ =~= tfs_text(tfs_model(tfs@.take(i as int + 1))));
            }
        }
        i += 1;
    }
    proof {
        assert(tfs@.take(tfs@.len() as int) =~= tfs@);
    }
    acc
}

/// Renders a vector of assignments, joined by commas.
fn render_assigns(assigns: &Vec<Assign>) -> (r: String)
    ensures
        r@ == assigns_text(assigns_model(assigns@)),
    decreases *assigns,
{
    let mut acc = String::new();
    let mut i: usize = 0;
    proof {
        assert(assigns@.take(0) =~= Seq::<Assign>::empty());
    }
    while i < assigns.len()
        invariant
            i <= assigns@.len(),
            acc@ == assigns_text(assigns_model(assigns@.take(i as int))),
        decreases assigns@.len() - i,
    {
        let ghost pre = assigns_model(assigns@.take(i as int));
        let piece = assigns[i].render();
        if i > 0 {
            acc.append(", ");
        }
        acc.append(piece.as_str());
        proof {
            lemma_assigns_model_pointwise(assigns@.take(i as int));
            assert(assigns@.take(i as int + 1).drop_last() =~= assigns@.take(i as int));
            assert(assigns@.take(i as int + 1).last() == assigns@[i as int]);
            assert(assigns_model(assigns@.take(i as int + 1)) =~= pre.push(
                assigns@[i as int].model(),
            ));
            if i == 0 {
                assert(acc@ =~= assigns_text(assigns_model(assigns@.take(i as int + 1))));
            } else {
                assert(pre.push(assigns@[i as int].model()).drop_last() =~= pre);
                assert(acc@ =~= assigns_text(assigns_model(assigns@.take(i as int + 1))));
            }
        }
        i += 1;
    }
    proof {
        assert(assigns@.take(assigns@.len() as int) =~= assigns@);
    }
    acc
}

/// Renders a vector of named arguments, joined by commas.
fn render_nameds(nas: &Vec<NamedArg>) -> (r: String)
    ensures
        r@ == nameds_text(nameds_model(nas@)),
    decreases *nas,
{
    let mut acc = String::new();
    let mut i: usize = 0;
    proof {
        assert(nas@.take(0) =~= Seq::<NamedArg>::empty());
    }
    while i < nas.len()
        invariant
            i <= nas@.len(),
            acc@ == nameds_text(nameds_model(nas@.take(i as int))),
        decreases nas@.len() - i,
    {
        let ghost pre = nameds_model(nas@.take(i as int));
        let piece = nas[i].render();
        if i > 0 {
            acc.append(", ");
        }
        acc.append(piece.as_str());
        proof {
            lemma_nameds_model_pointwise(nas@.take(i as int));
            assert(nas@.take(i as int + 1).drop_last() =~= nas@.take(i as int));
            assert(nas@.take(i as int + 1).last() == nas@[i as int]);
            assert(nameds_model(nas@.take(i as int + 1)) =~= pre.push(nas@[i as int].model()));
            if i == 0 {
                assert(acc@ =~= nameds_text(nameds_model(nas@.take(i as int + 1))));
            } else {
                assert(pre.push(nas@[i as int].model()).drop_last() =~= pre);
                assert(acc@ =~= nameds_text(nameds_model(nas@.take(i as int + 1))));
            }
        }
        i += 1;
    }
    proof {
        assert(nas@.take(nas@.len() as int) =~= nas@);
    }
    acc
}

/// Renders a vector of interpolated-string segments, joined by commas.
fn render_sstrings(segs: &Vec<SStringItem>) -> (r: String)
    ensures
        r@ == sstrings_text(sstrings_model(segs@)),
    decreases *segs,
{
    let mut acc = String::new();
    let mut i: usize = 0;
    proof {
        assert(segs@.take(0) =~= Seq::<SStringItem>::empty());
    }
    while i < segs.len()
        invariant
            i <= segs@.len(),
            acc@ == sstrings_text(sstrings_model(segs@.take(i as int))),
        decreases segs@.len() - i,
    {
        let ghost pre = sstrings_model(segs@.take(i as int));
        let piece = segs[i].render();
        if i > 0 {
            acc.append(", ");
        }
        acc.append(piece.as_str());
        proof {
            lemma_sstrings_model_pointwise(segs@.take(i as int));
            assert(segs@.take(i as int + 1).drop_last() =~= segs@.take(i as int));
            assert(segs@.take(i as int + 1).last() == segs@[i as int]);
            assert(sstrings_model(segs@.take(i as int + 1)) =~= pre.push(
                segs@[i as int].model(),
            ));
            if i == 0 {
                assert(acc@ =~= sstrings_text(sstrings_model(segs@.take(i as int + 1))));
            } else {
                assert(pre.push(segs@[i as int].model()).drop_last() =~= pre);
                assert(acc@ =~= sstrings_text(sstrings_model(segs@.take(i as int + 1))));
            }
        }
        i += 1;
    }
    proof {
        assert(segs@.take(segs@.len() as int) =~= segs@);
    }
    acc
}

/// Renders a vector of identifiers as a quoted, bracketed list.
pub(crate) fn render_idents(ids: &Vec<String>) -> (r: String)
    ensures
        r@ == idents_text(idents_model(ids@)),
{
    let mut acc = String::from_str("[");
    let mut i: usize = 0;
    proof {
        assert(idents_model(ids@.take(0)) =~= Seq::<Seq<char>>::empty());
    }
    while i < ids.len()
        invariant
            i <= ids@.len(),
            acc@ == "["@ + quoted_texts(idents_model(ids@.take(i as int))),
        decreases ids@.len() - i,
    {
        let ghost pre = idents_model(ids@.take(i as int));
        if i > 0 {
            acc.append(", \"");
        } else {
            acc.append("\"");
        }
        acc.append(ids[i].as_str());
        acc.append("\"");
        proof {
            assert(idents_model(ids@.take(i as int + 1)) =~= pre.push(ids@[i as int]@));
            if i == 0 {
                assert(acc@ =~= "["@ + quoted_texts(idents_model(ids@.take(i as int + 1))));
            } else {
                assert(pre.push(ids@[i as int]@).drop_last() =~= pre);
                assert(acc@ =~= "["@ + quoted_texts(idents_model(ids@.take(i as int + 1))));
            }
        }
        i += 1;
    }
    acc.append("]");
    proof {
        assert(ids@.take(ids@.len() as int) =~= ids@);
        assert(acc@ =~= idents_text(idents_model(ids@)));
    }
    acc
}

impl Item {
    /// Renders this node for failure messages: the variant name with the
    /// node's contents.
    pub fn render(&self) -> (r: String)
        ensures
            r@ == item_text(self.model()),
        decreases *self,
    {
        let r = match self {
            Item::Transformation(t) => String::from_str("Transformation(").concat(
                t.render().as_str(),
            ).concat(")"),
            Item::Ident(s) => String::from_str("Ident(\"").concat(s.as_str()).concat("\")"),
            Item::StringLiteral(s) => String::from_str("StringLiteral(\"").concat(
                s.as_str(),
            ).concat("\")"),
            Item::Raw(s) => String::from_str("Raw(\"").concat(s.as_str()).concat("\")"),
            Item::Assign(a) => String::from_str("Assign(").concat(a.render().as_str()).concat(
                ")",
            ),
            Item::NamedArg(na) => String::from_str("NamedArg(").concat(
                na.render().as_str(),
            ).concat(")"),
            Item::Query(items) => String::from_str("Query([").concat(
                render_items(items).as_str(),
            ).concat("])"),
            Item::Pipeline(tfs) => String::from_str("Pipeline([").concat(
                render_tfs(tfs).as_str(),
            ).concat("])"),
            Item::List(items) => String::from_str("List([").concat(
                render_items(items).as_str(),
            ).concat("])"),
            Item::Items(items) => String::from_str("Items([").concat(
                render_items(items).as_str(),
            ).concat("])"),
            Item::Expr(items) => String::from_str("Expr([").concat(
                render_items(items).as_str(),
            ).concat("])"),
            Item::Idents(ids) => String::from_str("Idents(").concat(
                render_idents(ids).as_str(),
            ).concat(")"),
            Item::Function(f) => String::from_str("Function(\"").concat(f.name.as_str()).concat(
                "\", ",
            ).concat(render_idents(&f.args).as_str()).concat(", [").concat(
                render_items(&f.body).as_str(),
            ).concat("])"),
            Item::Table(t) => String::from_str("Table(\"").concat(t.name.as_str()).concat(
                "\", [",
            ).concat(render_tfs(&t.pipeline).as_str()).concat("])"),
            Item::SString(segs) => String::from_str("SString([").concat(
                render_sstrings(segs).as_str(),
            ).concat("])"),
            Item::Unimplemented(s) => String::from_str("Unimplemented(\"").concat(
                s.as_str(),
            ).concat("\")"),
        };
        proof {
            assert(r@ =~= item_text(self.model()));
        }
        r
    }
}

impl Transformation {
    /// Renders this pipeline stage for failure messages.
    pub fn render(&self) -> (r: String)
        ensures
            r@ == tf_text(self.model()),
        decreases *self,
    {
        let r = match self {
            Transformation::From(items) => String::from_str("From([").concat(
                render_items(items).as_str(),
            ).concat("])"),
            Transformation::Select(items) => String::from_str("Select([").concat(
                render_items(items).as_str(),
            ).concat("])"),
            Transformation::Filter(f) => String::from_str("Filter([").concat(
                render_items(&f.0).as_str(),
            ).concat("])"),
            Transformation::Derive(assigns) => String::from_str("Derive([").concat(
                render_assigns(assigns).as_str(),
            ).concat("])"),
            Transformation::Aggregate { by, calcs, assigns } => String::from_str(
                "Aggregate([",
            ).concat(render_items(by).as_str()).concat("], [").concat(
                render_items(calcs).as_str(),
            ).concat("], [").concat(render_assigns(assigns).as_str()).concat("])"),
            Transformation::Sort(items) => String::from_str("Sort([").concat(
                render_items(items).as_str(),
            ).concat("])"),
            Transformation::Take(n) => String::from_str("Take(").concat(
                i64_to_string(*n).as_str(),
            ).concat(")"),
            Transformation::Join(items) => String::from_str("Join([").concat(
                render_items(items).as_str(),
            ).concat("])"),
            Transformation::Func(call) => String::from_str("Func(\"").concat(
                call.name.as_str(),
            ).concat("\", [").concat(render_items(&call.args).as_str()).concat("], [").concat(
                render_nameds(&call.named_args).as_str(),
            ).concat("])"),
        };
        proof {
            assert(r@ =~= tf_text(self.model()));
        }
        r
    }
}

impl Assign {
    /// Renders this assignment for failure messages.
    pub fn render(&self) -> (r: String)
        ensures
            r@ == assign_text(self.model()),
        decreases *self,
    {
        let r = String::from_str("\"").concat(self.lvalue.as_str()).concat("\" = ").concat(
            (*self.rvalue).render().as_str(),
        );
        proof {
            assert(r@ =~= assign_text(self.model()));
        }
        r
    }
}

impl NamedArg {
    /// Renders this named argument for failure messages.
    pub fn render(&self) -> (r: String)
        ensures
            r@ == named_text(self.model()),
        decreases *self,
    {
        let r = String::from_str("\"").concat(self.name.as_str()).concat("\": ").concat(
            (*self.arg).render().as_str(),
        );
        proof {
            assert(r@ =~= named_text(self.model()));
        }
        r
    }
}

impl SStringItem {
    /// Renders this interpolated-string segment for failure messages.
    pub fn render(&self) -> (r: String)
        ensures
            r@ == sstring_text(self.model()),
        decreases *self,
    {
        let r = match self {
            SStringItem::Fragment(s) => String::from_str("Fragment(\"").concat(
                s.as_str(),
            ).concat("\")"),
            SStringItem::Expr(item) => String::from_str("Expr(").concat(
                item.render().as_str(),
            ).concat(")"),
        };
        proof {
            assert(r@ =~= sstring_text(self.model()));
        }
        r
    }
}

} // verus!
