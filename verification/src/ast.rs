use vstd::prelude::*;
use vstd::string::StringExecFns;

use crate::render::item_text;

verus! {

/// A single identifier, used for column, table and argument names.
pub type Ident = String;

/// One stage of a data pipeline, or a plain function call used as one.
#[derive(Debug, PartialEq)]
pub enum Transformation {
    From(Vec<Item>),
    Select(Vec<Item>),
    Filter(Filter),
    Derive(Vec<Assign>),
    Aggregate { by: Vec<Item>, calcs: Vec<Item>, assigns: Vec<Assign> },
    Sort(Vec<Item>),
    Take(i64),
    Join(Vec<Item>),
    Func(FuncCall),
}

/// The predicate items of a `filter` stage.
#[derive(Debug, PartialEq)]
pub struct Filter(pub Vec<Item>);

/// A function definition: name, parameter names, body items.
#[derive(Debug, PartialEq)]
pub struct Function {
    pub name: Ident,
    pub args: Vec<Ident>,
    pub body: Vec<Item>,
}

/// A function call: name, positional arguments, named arguments.
#[derive(Debug, PartialEq)]
pub struct FuncCall {
    pub name: String,
    pub args: Vec<Item>,
    pub named_args: Vec<NamedArg>,
}

/// A pipeline bound to a table name.
#[derive(Debug, PartialEq)]
pub struct Table {
    pub name: Ident,
    pub pipeline: Vec<Transformation>,
}

/// A call argument bound by name rather than by position.
#[derive(Debug, PartialEq)]
pub struct NamedArg {
    pub name: Ident,
    pub arg: Box<Item>,
}

/// A name bound to a value expression.
#[derive(Debug, PartialEq)]
pub struct Assign {
    pub lvalue: Ident,
    pub rvalue: Box<Item>,
}

/// One segment of an interpolated string: a literal fragment or an
/// embedded expression.
#[derive(Debug, PartialEq)]
pub enum SStringItem {
    Fragment(String),
    Expr(Item),
}

/// The universal syntax node: exactly one variant is active per value.
#[derive(Debug, PartialEq)]
pub enum Item {
    Transformation(Transformation),
    Ident(Ident),
    StringLiteral(String),
    Raw(String),
    Assign(Assign),
    NamedArg(NamedArg),
    Query(Vec<Item>),
    Pipeline(Vec<Transformation>),
    List(Vec<Item>),
    Items(Vec<Item>),
    Expr(Vec<Item>),
    Idents(Vec<Ident>),
    Function(Function),
    Table(Table),
    SString(Vec<SStringItem>),
    Unimplemented(String),
}

/// The variant tag of an `Item`, used to report what a typed extractor
/// actually found.
#[derive(Clone, Copy, Debug, PartialEq, Eq, Structural)]
pub enum ItemKind {
    Transformation,
    Ident,
    StringLiteral,
    Raw,
    Assign,
    NamedArg,
    Query,
    Pipeline,
    List,
    Items,
    Expr,
    Idents,
    Function,
    Table,
    SString,
    Unimplemented,
}

/// The shape a typed extractor was asked for.
#[derive(Clone, Copy, Debug, PartialEq, Eq, Structural)]
pub enum ShapeKind {
    Identifier,
    ItemSequence,
    NamedArgument,
    Assignment,
    RawContent,
}

/// A recoverable shape mismatch raised by the typed extractors: either the
/// wrong variant altogether, or an `Idents` node whose element count is not
/// exactly one.
#[derive(Debug, PartialEq)]
pub enum ShapeError {
    WrongVariant { expected: ShapeKind, found: ItemKind, value: String },
    WrongIdentCount { count: usize, idents: Vec<Ident> },
}

/// The decimal digits of a number, most significant first.
pub open spec fn dec_digits(n: nat) -> Seq<char>
    decreases n,
{
    if n < 10 {
        seq![digit_char(n)]
    } else {
        dec_digits(n / 10).push(digit_char(n % 10))
    }
}

/// The character of one decimal digit.
pub open spec fn digit_char(d: nat) -> char {
    if d == 0 {
        '0'
    } else if d == 1 {
        '1'
    } else if d == 2 {
        '2'
    } else if d == 3 {
        '3'
    } else if d == 4 {
        '4'
    } else if d == 5 {
        '5'
    } else if d == 6 {
        '6'
    } else if d == 7 {
        '7'
    } else if d == 8 {
        '8'
    } else {
        '9'
    }
}

/// One decimal digit as a string slice.
fn digit_str(d: usize) -> (r: &'static str)
    requires
        d < 10,
    ensures
        r@ == seq![digit_char(d as nat)],
{
    let r: &'static str = match d {
        0 => "0",
        1 => "1",
        2 => "2",
        3 => "3",
        4 => "4",
        5 => "5",
        6 => "6",
        7 => "7",
        8 => "8",
        _ => "9",
    };
    proof {
        reveal_strlit("0");
        reveal_strlit("1");
        reveal_strlit("2");
        reveal_strlit("3");
        reveal_strlit("4");
        reveal_strlit("5");
        reveal_strlit("6");
        reveal_strlit("7");
        reveal_strlit("8");
        reveal_strlit("9");
        assert(r@ =~= seq![digit_char(d as nat)]);
    }
    r
}

/// Renders a number in decimal.
pub fn usize_to_string(n: usize) -> (r: String)
    ensures
        r@ == dec_digits(n as nat),
{
    let mut rest: usize = n / 10;
    let mut acc: String = String::from_str(digit_str(n % 10));
    proof {
        if rest == 0 {
            assert(acc@ =~= dec_digits(n as nat));
        } else {
            assert(dec_digits(n as nat) =~= dec_digits(rest as nat) + acc@);
        }
    }
    while rest > 0
        invariant
            rest == 0 ==> acc@ == dec_digits(n as nat),
            rest > 0 ==> dec_digits(n as nat) == dec_digits(rest as nat) + acc@,
        decreases rest,
    {
        let d = rest % 10;
        let ghost old_acc = acc@;
        let ghost old_rest = rest as nat;
        acc = String::from_str(digit_str(d)).concat(acc.as_str());
        rest = rest / 10;
        proof {
            assert(acc@ =~= seq![digit_char(d as nat)] + old_acc);
            if rest == 0 {
                assert(dec_digits(old_rest) =~= seq![digit_char(d as nat)]);
                assert(acc@ =~= dec_digits(old_rest) + old_acc);
                assert(acc@ =~= dec_digits(n as nat));
            } else {
                assert(dec_digits(old_rest) =~= dec_digits(rest as nat).push(
                    digit_char(d as nat),
                ));
                assert(dec_digits(rest as nat) + acc@ =~= dec_digits(old_rest) + old_acc);
            }
        }
    }
    acc
}

/// Renders a number in decimal.
pub fn u64_to_string(n: u64) -> (r: String)
    ensures
        r@ == dec_digits(n as nat),
{
    let mut rest: u64 = n / 10;
    let mut acc: String = String::from_str(digit_str((n % 10) as usize));
    proof {
        if rest == 0 {
            assert(acc@ =~= dec_digits(n as nat));
        } else {
            assert(dec_digits(n as nat) =~= dec_digits(rest as nat) + acc@);
        }
    }
    while rest > 0
        invariant
            rest == 0 ==> acc@ == dec_digits(n as nat),
            rest > 0 ==> dec_digits(n as nat) == dec_digits(rest as nat) + acc@,
        decreases rest,
    {
        let d = rest % 10;
        let ghost old_acc = acc@;
        let ghost old_rest = rest as nat;
        acc = String::from_str(digit_str(d as usize)).concat(acc.as_str());
        rest = rest / 10;
        proof {
            assert(acc@ =~= seq![digit_char(d as nat)] + old_acc);
            if rest == 0 {
                assert(dec_digits(old_rest) =~= seq![digit_char(d as nat)]);
                assert(acc@ =~= dec_digits(old_rest) + old_acc);
                assert(acc@ =~= dec_digits(n as nat));
            } else {
                assert(dec_digits(old_rest) =~= dec_digits(rest as nat).push(
                    digit_char(d as nat),
                ));
                assert(dec_digits(rest as nat) + acc@ =~= dec_digits(old_rest) + old_acc);
            }
        }
    }
    acc
}

impl ShapeKind {
    /// The name of the expected shape, as the failure messages spell it.
    pub open spec fn label_spec(&self) -> Seq<char> {
        match *self {
            ShapeKind::Identifier => "an Identifier"@,
            ShapeKind::ItemSequence => "Items"@,
            ShapeKind::NamedArgument => "NamedArg"@,
            ShapeKind::Assignment => "Assign"@,
            ShapeKind::RawContent => "RawText"@,
        }
    }

    /// The name of the expected shape.
    pub fn label(&self) -> (r: &'static str)
        ensures
            r@ == self.label_spec(),
    {
        match self {
            ShapeKind::Identifier => "an Identifier",
            ShapeKind::ItemSequence => "Items",
            ShapeKind::NamedArgument => "NamedArg",
            ShapeKind::Assignment => "Assign",
            ShapeKind::RawContent => "RawText",
        }
    }
}

impl ItemKind {
    /// The name of the variant, as the failure messages spell it.
    pub open spec fn label_spec(&self) -> Seq<char> {
        match *self {
            ItemKind::Transformation => "Transformation"@,
            ItemKind::Ident => "Ident"@,
            ItemKind::StringLiteral => "StringLiteral"@,
            ItemKind::Raw => "Raw"@,
            ItemKind::Assign => "Assign"@,
            ItemKind::NamedArg => "NamedArg"@,
            ItemKind::Query => "Query"@,
            ItemKind::Pipeline => "Pipeline"@,
            ItemKind::List => "List"@,
            ItemKind::Items => "Items"@,
            ItemKind::Expr => "Expr"@,
            ItemKind::Idents => "Idents"@,
            ItemKind::Function => "Function"@,
            ItemKind::Table => "Table"@,
            ItemKind::SString => "SString"@,
            ItemKind::Unimplemented => "Unimplemented"@,
        }
    }

    /// The name of the variant.
    pub fn label(&self) -> (r: &'static str)
        ensures
            r@ == self.label_spec(),
    {
        match self {
            ItemKind::Transformation => "Transformation",
            ItemKind::Ident => "Ident",
            ItemKind::StringLiteral => "StringLiteral",
            ItemKind::Raw => "Raw",
            ItemKind::Assign => "Assign",
            ItemKind::NamedArg => "NamedArg",
            ItemKind::Query => "Query",
            ItemKind::Pipeline => "Pipeline",
            ItemKind::List => "List",
            ItemKind::Items => "Items",
            ItemKind::Expr => "Expr",
            ItemKind::Idents => "Idents",
            ItemKind::Function => "Function",
            ItemKind::Table => "Table",
            ItemKind::SString => "SString",
            ItemKind::Unimplemented => "Unimplemented",
        }
    }
}

impl ShapeError {
    /// The human-readable failure message: the expected shape and what was
    /// actually found, with the element count where an `Idents` node held
    /// the wrong number of identifiers.
    pub open spec fn message_spec(&self) -> Seq<char> {
        match *self {
            ShapeError::WrongVariant { expected, found: _, ref value } => "expected "@
                + expected.label_spec() + ", got "@ + value@,
            ShapeError::WrongIdentCount { count, ref idents } => "expected 1 identifier, got "@
                + dec_digits(count as nat) + "; "@ + crate::render::idents_text(
                idents_model(idents@),
            ),
        }
    }

    /// Renders the failure message.
    pub fn message(&self) -> (r: String)
        ensures
            r@ == self.message_spec(),
    {
        match self {
            ShapeError::WrongVariant { expected, found: _, value } => {
                let r = String::from_str("expected ").concat(expected.label()).concat(
                    ", got ",
                ).concat(value.as_str());
                proof {
                    assert(r@ =~= self.message_spec());
                }
                r
            },
            ShapeError::WrongIdentCount { count, idents } => {
                let r = String::from_str("expected 1 identifier, got ").concat(
                    usize_to_string(*count).as_str(),
                ).concat("; ").concat(crate::render::render_idents(idents).as_str());
                proof {
                    assert(r@ =~= self.message_spec());
                }
                r
            },
        }
    }
}

impl Transformation {
    /// The verb token of this pipeline stage; for a generic call, the name
    /// of the called function. A pure function of the variant tag and, for
    /// `Func`, of the call's name field.
    pub open spec fn name_spec(&self) -> Seq<char> {
        match *self {
            Transformation::From(_) => "from"@,
            Transformation::Select(_) => "select"@,
            Transformation::Filter(_) => "filter"@,
            Transformation::Derive(_) => "derive"@,
            Transformation::Aggregate { .. } => "aggregate"@,
            Transformation::Sort(_) => "sort"@,
            Transformation::Take(_) => "take"@,
            Transformation::Join(_) => "join"@,
            Transformation::Func(ref call) => call.name@,
        }
    }

    /// Returns the name of the transformation.
    pub fn name(&self) -> (r: &str)
        ensures
            r@ == self.name_spec(),
    {
        match self {
            Transformation::From(_) => "from",
            Transformation::Select(_) => "select",
            Transformation::Filter(_) => "filter",
            Transformation::Derive(_) => "derive",
            Transformation::Aggregate { .. } => "aggregate",
            Transformation::Sort(_) => "sort",
            Transformation::Take(_) => "take",
            Transformation::Join(_) => "join",
            Transformation::Func(call) => call.name.as_str(),
        }
    }
}

impl Item {
    /// The variant tag of this node.
    pub open spec fn kind_spec(&self) -> ItemKind {
        match *self {
            Item::Transformation(_) => ItemKind::Transformation,
            Item::Ident(_) => ItemKind::Ident,
            Item::StringLiteral(_) => ItemKind::StringLiteral,
            Item::Raw(_) => ItemKind::Raw,
            Item::Assign(_) => ItemKind::Assign,
            Item::NamedArg(_) => ItemKind::NamedArg,
            Item::Query(_) => ItemKind::Query,
            Item::Pipeline(_) => ItemKind::Pipeline,
            Item::List(_) => ItemKind::List,
            Item::Items(_) => ItemKind::Items,
            Item::Expr(_) => ItemKind::Expr,
            Item::Idents(_) => ItemKind::Idents,
            Item::Function(_) => ItemKind::Function,
            Item::Table(_) => ItemKind::Table,
            Item::SString(_) => ItemKind::SString,
            Item::Unimplemented(_) => ItemKind::Unimplemented,
        }
    }

    /// The variant tag of this node.
    pub fn kind(&self) -> (k: ItemKind)
        ensures
            k == self.kind_spec(),
    {
        match self {
            Item::Transformation(_) => ItemKind::Transformation,
            Item::Ident(_) => ItemKind::Ident,
            Item::StringLiteral(_) => ItemKind::StringLiteral,
            Item::Raw(_) => ItemKind::Raw,
            Item::Assign(_) => ItemKind::Assign,
            Item::NamedArg(_) => ItemKind::NamedArg,
            Item::Query(_) => ItemKind::Query,
            Item::Pipeline(_) => ItemKind::Pipeline,
            Item::List(_) => ItemKind::List,
            Item::Items(_) => ItemKind::Items,
            Item::Expr(_) => ItemKind::Expr,
            Item::Idents(_) => ItemKind::Idents,
            Item::Function(_) => ItemKind::Function,
            Item::Table(_) => ItemKind::Table,
            Item::SString(_) => ItemKind::SString,
            Item::Unimplemented(_) => ItemKind::Unimplemented,
        }
    }

    /// Extracts the identifier if this node is `Ident`, or an `Idents`
    /// node holding exactly one identifier; any other shape is a mismatch.
    pub fn as_ident(&self) -> (r: Result<&Ident, ShapeError>)
        ensures
            match *self {
                Item::Ident(ref i) => r matches Ok(x) && x == i,
                Item::Idents(ref v) => {
                    if v@.len() == 1 {
                        r matches Ok(x) && *x == v@[0]
                    } else {
                        r matches Err(e)
                            && e matches ShapeError::WrongIdentCount { count, idents }
                            && count == v@.len() && idents@ == v@
                    }
                },
                _ => r matches Err(e) && e matches (ShapeError::WrongVariant {
                    expected,
                    found,
                    value,
                }) && expected == ShapeKind::Identifier && found == self.kind_spec()
                    && value@ == item_text(self.model()),
            },
    {
        match self {
            Item::Ident(ident) => Ok(ident),
            Item::Idents(idents) => {
                if idents.len() == 1 {
                    Ok(&idents[0])
                } else {
                    let copy = idents.clone();
                    proof {
                        assert(copy@ =~= idents@);
                    }
                    Err(ShapeError::WrongIdentCount { count: idents.len(), idents: copy })
                }
            },
            _ => Err(ShapeError::WrongVariant {
                expected: ShapeKind::Identifier,
                found: self.kind(),
                value: self.render(),
            }),
        }
    }

    /// Extracts the contained sequence if this node is `Items`.
    pub fn as_items(&self) -> (r: Result<&Vec<Item>, ShapeError>)
        ensures
            match *self {
                Item::Items(ref items) => r matches Ok(x) && x == items,
                _ => r matches Err(e) && e matches (ShapeError::WrongVariant {
                    expected,
                    found,
                    value,
                }) && expected == ShapeKind::ItemSequence && found == self.kind_spec()
                    && value@ == item_text(self.model()),
            },
    {
        match self {
            Item::Items(items) => Ok(items),
            _ => Err(ShapeError::WrongVariant {
                expected: ShapeKind::ItemSequence,
                found: self.kind(),
                value: self.render(),
            }),
        }
    }

    /// Extracts the named argument if this node is `NamedArg`.
    pub fn as_named_arg(&self) -> (r: Result<&NamedArg, ShapeError>)
        ensures
            match *self {
                Item::NamedArg(ref named_arg) => r matches Ok(x) && x == named_arg,
                _ => r matches Err(e) && e matches (ShapeError::WrongVariant {
                    expected,
                    found,
                    value,
                }) && expected == ShapeKind::NamedArgument && found == self.kind_spec()
                    && value@ == item_text(self.model()),
            },
    {
        match self {
            Item::NamedArg(named_arg) => Ok(named_arg),
            _ => Err(ShapeError::WrongVariant {
                expected: ShapeKind::NamedArgument,
                found: self.kind(),
                value: self.render(),
            }),
        }
    }

    /// Extracts the assignment if this node is `Assign`.
    pub fn as_assign(&self) -> (r: Result<&Assign, ShapeError>)
        ensures
            match *self {
                Item::Assign(ref assign) => r matches Ok(x) && x == assign,
                _ => r matches Err(e) && e matches (ShapeError::WrongVariant {
                    expected,
                    found,
                    value,
                }) && expected == ShapeKind::Assignment && found == self.kind_spec()
                    && value@ == item_text(self.model()),
            },
    {
        match self {
            Item::Assign(assign) => Ok(assign),
            _ => Err(ShapeError::WrongVariant {
                expected: ShapeKind::Assignment,
                found: self.kind(),
                value: self.render(),
            }),
        }
    }

    /// Extracts the verbatim text if this node is `Raw`.
    pub fn as_raw(&self) -> (r: Result<&String, ShapeError>)
        ensures
            match *self {
                Item::Raw(ref raw) => r matches Ok(x) && x == raw,
                _ => r matches Err(e) && e matches (ShapeError::WrongVariant {
                    expected,
                    found,
                    value,
                }) && expected == ShapeKind::RawContent && found == self.kind_spec()
                    && value@ == item_text(self.model()),
            },
    {
        match self {
            Item::Raw(raw) => Ok(raw),
            _ => Err(ShapeError::WrongVariant {
                expected: ShapeKind::RawContent,
                found: self.kind(),
                value: self.render(),
            }),
        }
    }

    /// Holds exactly when this node is one of the three container
    /// variants that the flattening rules may unwrap.
    pub open spec fn is_container(&self) -> bool {
        match *self {
            Item::List(_) | Item::Items(_) | Item::Expr(_) => true,
            _ => false,
        }
    }

    /// The sequence a container variant holds.
    pub open spec fn container_items(&self) -> Seq<Item>
        recommends
            self.is_container(),
    {
        match *self {
            Item::List(ref items) => items@,
            Item::Items(ref items) => items@,
            Item::Expr(ref items) => items@,
            _ => Seq::empty(),
        }
    }

    /// The sequence this node stands for: a container's contents, or the
    /// node itself as a one-element sequence.
    pub open spec fn to_seq(&self) -> Seq<Item> {
        if self.is_container() {
            self.container_items()
        } else {
            seq![*self]
        }
    }

    /// The canonical scalar form: single-element containers are unwrapped
    /// all the way down, while empty and multi-element containers, and every
    /// non-container node, are fixed points.
    pub open spec fn scalar_deep(&self) -> Item
        decreases *self,
    {
        if self.is_container() && self.container_items().len() == 1 {
            self.container_items()[0].scalar_deep()
        } else {
            *self
        }
    }

    /// Either the contents of a container variant, or the node itself put
    /// into a one-element vector, so that callers can treat one item and a
    /// list of items uniformly.
    pub fn into_items(self) -> (r: Vec<Item>)
        ensures
            r@ == self.to_seq(),
    {
        match self {
            Item::List(items) => items,
            Item::Items(items) => items,
            Item::Expr(items) => items,
            other => {
                let ghost o = other;
                let mut v: Vec<Item> = Vec::new();
                v.push(other);
                proof {
                    assert(v@ =~= seq![o]);
                }
                v
            },
        }
    }

    /// The scalar version of `into_items`: recursively unwraps
    /// single-element containers and returns the most granular single item.
    pub fn into_item(self) -> (r: Item)
        ensures
            r == self.scalar_deep(),
        decreases self,
    {
        match self {
            Item::List(mut items) => {
                if items.len() == 1 {
                    items.pop().unwrap().into_item()
                } else {
                    Item::List(items)
                }
            },
            Item::Items(mut items) => {
                if items.len() == 1 {
                    items.pop().unwrap().into_item()
                } else {
                    Item::Items(items)
                }
            },
            Item::Expr(mut items) => {
                if items.len() == 1 {
                    items.pop().unwrap().into_item()
                } else {
                    Item::Expr(items)
                }
            },
            other => other,
        }
    }

    /// The borrowing form of `into_item`: a read-only probe for the most
    /// granular single item, leaving the tree where it is.
    pub fn as_item(&self) -> (r: &Item)
        ensures
            *r == self.scalar_deep(),
        decreases *self,
    {
        match self {
            Item::List(items) => {
                if items.len() == 1 {
                    items[0].as_item()
                } else {
                    self
                }
            },
            Item::Items(items) => {
                if items.len() == 1 {
                    items[0].as_item()
                } else {
                    self
                }
            },
            Item::Expr(items) => {
                if items.len() == 1 {
                    items[0].as_item()
                } else {
                    self
                }
            },
            _ => self,
        }
    }
}

/// The mathematical model of an `Item` tree: the same shape with sequences
/// in place of vectors and character sequences in place of strings. Two
/// trees with equal models hold the same syntax.
#[verifier::ext_equal]
pub enum ItemV {
    Transformation(TransformationV),
    Ident(Seq<char>),
    StringLiteral(Seq<char>),
    Raw(Seq<char>),
    Assign(AssignV),
    NamedArg(NamedArgV),
    Query(Seq<ItemV>),
    Pipeline(Seq<TransformationV>),
    List(Seq<ItemV>),
    Items(Seq<ItemV>),
    Expr(Seq<ItemV>),
    Idents(Seq<Seq<char>>),
    Function(FunctionV),
    Table(TableV),
    SString(Seq<SStringItemV>),
    Unimplemented(Seq<char>),
}

/// The model of a `Transformation`.
#[verifier::ext_equal]
pub enum TransformationV {
    From(Seq<ItemV>),
    Select(Seq<ItemV>),
    Filter(Seq<ItemV>),
    Derive(Seq<AssignV>),
    Aggregate { by: Seq<ItemV>, calcs: Seq<ItemV>, assigns: Seq<AssignV> },
    Sort(Seq<ItemV>),
    Take(int),
    Join(Seq<ItemV>),
    Func(FuncCallV),
}

/// The model of a `Function`.
#[verifier::ext_equal]
pub struct FunctionV {
    pub name: Seq<char>,
    pub args: Seq<Seq<char>>,
    pub body: Seq<ItemV>,
}

/// The model of a `FuncCall`.
#[verifier::ext_equal]
pub struct FuncCallV {
    pub name: Seq<char>,
    pub args: Seq<ItemV>,
    pub named_args: Seq<NamedArgV>,
}

/// The model of a `Table`.
#[verifier::ext_equal]
pub struct TableV {
    pub name: Seq<char>,
    pub pipeline: Seq<TransformationV>,
}

/// The model of a `NamedArg`.
#[verifier::ext_equal]
pub struct NamedArgV {
    pub name: Seq<char>,
    pub arg: Box<ItemV>,
}

/// The model of an `Assign`.
#[verifier::ext_equal]
pub struct AssignV {
    pub lvalue: Seq<char>,
    pub rvalue: Box<ItemV>,
}

/// The model of one interpolated-string segment.
#[verifier::ext_equal]
pub enum SStringItemV {
    Fragment(Seq<char>),
    Expr(Box<ItemV>),
}

/// The models of a sequence of items, elementwise.
pub open spec fn items_model(s: Seq<Item>) -> Seq<ItemV>
    decreases s,
{
    if s.len() == 0 {
        Seq::empty()
    } else {
        items_model(s.drop_last()).push(s.last().model())
    }
}

/// The models of a sequence of transformations, elementwise.
pub open spec fn tfs_model(s: Seq<Transformation>) -> Seq<TransformationV>
    decreases s,
{
    if s.len() == 0 {
        Seq::empty()
    } else {
        tfs_model(s.drop_last()).push(s.last().model())
    }
}

/// The models of a sequence of assignments, elementwise.
pub open spec fn assigns_model(s: Seq<Assign>) -> Seq<AssignV>
    decreases s,
{
    if s.len() == 0 {
        Seq::empty()
    } else {
        assigns_model(s.drop_last()).push(s.last().model())
    }
}

/// The models of a sequence of identifiers, elementwise.
pub open spec fn idents_model(s: Seq<Ident>) -> Seq<Seq<char>> {
    s.map_values(|i: Ident| i@)
}

/// The models of a sequence of named arguments, elementwise.
pub open spec fn nameds_model(s: Seq<NamedArg>) -> Seq<NamedArgV>
    decreases s,
{
    if s.len() == 0 {
        Seq::empty()
    } else {
        nameds_model(s.drop_last()).push(s.last().model())
    }
}

/// The models of a sequence of interpolated-string segments, elementwise.
pub open spec fn sstrings_model(s: Seq<SStringItem>) -> Seq<SStringItemV>
    decreases s,
{
    if s.len() == 0 {
        Seq::empty()
    } else {
        sstrings_model(s.drop_last()).push(s.last().model())
    }
}

impl Item {
    /// The mathematical model of this node.
    pub open spec fn model(&self) -> ItemV
        decreases *self,
    {
        match *self {
            Item::Transformation(ref t) => ItemV::Transformation(t.model()),
            Item::Ident(ref s) => ItemV::Ident(s@),
            Item::StringLiteral(ref s) => ItemV::StringLiteral(s@),
            Item::Raw(ref s) => ItemV::Raw(s@),
            Item::Assign(ref a) => ItemV::Assign(a.model()),
            Item::NamedArg(ref na) => ItemV::NamedArg(na.model()),
            Item::Query(ref items) => ItemV::Query(items_model(items@)),
            Item::Pipeline(ref tfs) => ItemV::Pipeline(tfs_model(tfs@)),
            Item::List(ref items) => ItemV::List(items_model(items@)),
            Item::Items(ref items) => ItemV::Items(items_model(items@)),
            Item::Expr(ref items) => ItemV::Expr(items_model(items@)),
            Item::Idents(ref ids) => ItemV::Idents(idents_model(ids@)),
            Item::Function(ref f) => ItemV::Function(f.model()),
            Item::Table(ref t) => ItemV::Table(t.model()),
            Item::SString(ref segs) => ItemV::SString(sstrings_model(segs@)),
            Item::Unimplemented(ref s) => ItemV::Unimplemented(s@),
        }
    }
}

impl Transformation {
    /// The mathematical model of this pipeline stage.
    pub open spec fn model(&self) -> TransformationV
        decreases *self,
    {
        match *self {
            Transformation::From(ref items) => TransformationV::From(items_model(items@)),
            Transformation::Select(ref items) => TransformationV::Select(items_model(items@)),
            Transformation::Filter(ref f) => TransformationV::Filter(items_model(f.0@)),
            Transformation::Derive(ref assigns) => TransformationV::Derive(assigns_model(assigns@)),
            Transformation::Aggregate { ref by, ref calcs, ref assigns } => (
                TransformationV::Aggregate {
                    by: items_model(by@),
                    calcs: items_model(calcs@),
                    assigns: assigns_model(assigns@),
                }
            ),
            Transformation::Sort(ref items) => TransformationV::Sort(items_model(items@)),
            Transformation::Take(n) => TransformationV::Take(n as int),
            Transformation::Join(ref items) => TransformationV::Join(items_model(items@)),
            Transformation::Func(ref call) => TransformationV::Func(call.model()),
        }
    }
}

impl Function {
    /// The mathematical model of this function definition.
    pub open spec fn model(&self) -> FunctionV
        decreases *self,
    {
        FunctionV {
            name: self.name@,
            args: idents_model(self.args@),
            body: items_model(self.body@),
        }
    }
}

impl FuncCall {
    /// The mathematical model of this function call.
    pub open spec fn model(&self) -> FuncCallV
        decreases *self,
    {
        FuncCallV {
            name: self.name@,
            args: items_model(self.args@),
            named_args: nameds_model(self.named_args@),
        }
    }
}

impl Table {
    /// The mathematical model of this table definition.
    pub open spec fn model(&self) -> TableV
        decreases *self,
    {
        TableV { name: self.name@, pipeline: tfs_model(self.pipeline@) }
    }
}

impl NamedArg {
    /// The mathematical model of this named argument.
    pub open spec fn model(&self) -> NamedArgV
        decreases *self,
    {
        NamedArgV { name: self.name@, arg: Box::new((*self.arg).model()) }
    }
}

impl Assign {
    /// The mathematical model of this assignment.
    pub open spec fn model(&self) -> AssignV
        decreases *self,
    {
        AssignV { lvalue: self.lvalue@, rvalue: Box::new((*self.rvalue).model()) }
    }
}

impl SStringItem {
    /// The mathematical model of this interpolated-string segment.
    pub open spec fn model(&self) -> SStringItemV
        decreases *self,
    {
        match *self {
            SStringItem::Fragment(ref s) => SStringItemV::Fragment(s@),
            SStringItem::Expr(ref item) => SStringItemV::Expr(Box::new(item.model())),
        }
    }
}

/// `items_model` maps the sequence elementwise.
pub proof fn lemma_items_model_pointwise(s: Seq<Item>)
    ensures
        items_model(s).len() == s.len(),
        forall|j: int| 0 <= j < s.len() ==> #[trigger] items_model(s)[j] == s[j].model(),
    decreases s,
{
    if s.len() > 0 {
        lemma_items_model_pointwise(s.drop_last());
    }
}

/// `tfs_model` maps the sequence elementwise.
pub proof fn lemma_tfs_model_pointwise(s: Seq<Transformation>)
    ensures
        tfs_model(s).len() == s.len(),
        forall|j: int| 0 <= j < s.len() ==> #[trigger] tfs_model(s)[j] == s[j].model(),
    decreases s,
{
    if s.len() > 0 {
        lemma_tfs_model_pointwise(s.drop_last());
    }
}

/// `assigns_model` maps the sequence elementwise.
pub proof fn lemma_assigns_model_pointwise(s: Seq<Assign>)
    ensures
        assigns_model(s).len() == s.len(),
        forall|j: int| 0 <= j < s.len() ==> #[trigger] assigns_model(s)[j] == s[j].model(),
    decreases s,
{
    if s.len() > 0 {
        lemma_assigns_model_pointwise(s.drop_last());
    }
}

/// `nameds_model` maps the sequence elementwise.
pub proof fn lemma_nameds_model_pointwise(s: Seq<NamedArg>)
    ensures
        nameds_model(s).len() == s.len(),
        forall|j: int| 0 <= j < s.len() ==> #[trigger] nameds_model(s)[j] == s[j].model(),
    decreases s,
{
    if s.len() > 0 {
        lemma_nameds_model_pointwise(s.drop_last());
    }
}

/// `sstrings_model` maps the sequence elementwise.
pub proof fn lemma_sstrings_model_pointwise(s: Seq<SStringItem>)
    ensures
        sstrings_model(s).len() == s.len(),
        forall|j: int| 0 <= j < s.len() ==> #[trigger] sstrings_model(s)[j] == s[j].model(),
    decreases s,
{
    if s.len() > 0 {
        lemma_sstrings_model_pointwise(s.drop_last());
    }
}


/// Clones a vector of items, elementwise.
fn dup_items(items: &Vec<Item>) -> (r: Vec<Item>)
    ensures
        items_model(r@) == items_model(items@),
    decreases *items,
{
    let mut out: Vec<Item> = Vec::new();
    let mut i: usize = 0;
    while i < items.len()
        invariant
            i <= items@.len(),
            out@.len() == i,
            forall|j: int| 0 <= j < i ==> (#[trigger] out@[j]).model() == items@[j].model(),
        decreases items@.len() - i,
    {
        out.push(items[i].duplicate());
        i += 1;
    }
    proof {
        lemma_items_model_pointwise(items@);
        lemma_items_model_pointwise(out@);
        assert(items_model(out@) =~= items_model(items@));
    }
    out
}

/// Clones a vector of transformations, elementwise.
fn dup_tfs(tfs: &Vec<Transformation>) -> (r: Vec<Transformation>)
    ensures
        tfs_model(r@) == tfs_model(tfs@),
    decreases *tfs,
{
    let mut out: Vec<Transformation> = Vec::new();
    let mut i: usize = 0;
    while i < tfs.len()
        invariant
            i <= tfs@.len(),
            out@.len() == i,
            forall|j: int| 0 <= j < i ==> (#[trigger] out@[j]).model() == tfs@[j].model(),
        decreases tfs@.len() - i,
    {
        out.push(tfs[i].duplicate());
        i += 1;
    }
    proof {
        lemma_tfs_model_pointwise(tfs@);
        lemma_tfs_model_pointwise(out@);
        assert(tfs_model(out@) =~= tfs_model(tfs@));
    }
    out
}

/// Clones a vector of assignments, elementwise.
fn dup_assigns(assigns: &Vec<Assign>) -> (r: Vec<Assign>)
    ensures
        assigns_model(r@) == assigns_model(assigns@),
    decreases *assigns,
{
    let mut out: Vec<Assign> = Vec::new();
    let mut i: usize = 0;
    while i < assigns.len()
        invariant
            i <= assigns@.len(),
            out@.len() == i,
            forall|j: int| 0 <= j < i ==> (#[trigger] out@[j]).model() == assigns@[j].model(),
        decreases assigns@.len() - i,
    {
        out.push(assigns[i].duplicate());
        i += 1;
    }
    proof {
        lemma_assigns_model_pointwise(assigns@);
        lemma_assigns_model_pointwise(out@);
        assert(assigns_model(out@) =~= assigns_model(assigns@));
    }
    out
}

/// Clones a vector of named arguments, elementwise.
fn dup_nameds(nas: &Vec<NamedArg>) -> (r: Vec<NamedArg>)
    ensures
        nameds_model(r@) == nameds_model(nas@),
    decreases *nas,
{
    let mut out: Vec<NamedArg> = Vec::new();
    let mut i: usize = 0;
    while i < nas.len()
        invariant
            i <= nas@.len(),
            out@.len() == i,
            forall|j: int| 0 <= j < i ==> (#[trigger] out@[j]).model() == nas@[j].model(),
        decreases nas@.len() - i,
    {
        out.push(nas[i].duplicate());
        i += 1;
    }
    proof {
        lemma_nameds_model_pointwise(nas@);
        lemma_nameds_model_pointwise(out@);
        assert(nameds_model(out@) =~= nameds_model(nas@));
    }
    out
}

/// Clones a vector of interpolated-string segments, elementwise.
fn dup_sstrings(segs: &Vec<SStringItem>) -> (r: Vec<SStringItem>)
    ensures
        sstrings_model(r@) == sstrings_model(segs@),
    decreases *segs,
{
    let mut out: Vec<SStringItem> = Vec::new();
    let mut i: usize = 0;
    while i < segs.len()
        invariant
            i <= segs@.len(),
            out@.len() == i,
            forall|j: int| 0 <= j < i ==> (#[trigger] out@[j]).model() == segs@[j].model(),
        decreases segs@.len() - i,
    {
        out.push(segs[i].duplicate());
        i += 1;
    }
    proof {
        lemma_sstrings_model_pointwise(segs@);
        lemma_sstrings_model_pointwise(out@);
        assert(sstrings_model(out@) =~= sstrings_model(segs@));
    }
    out
}

impl Item {
    /// Builds a structurally equal copy of this tree.
    fn duplicate(&self) -> (r: Item)
        ensures
            r.model() == self.model(),
        decreases *self,
    {
        match self {
            Item::Transformation(t) => Item::Transformation(t.duplicate()),
            Item::Ident(s) => Item::Ident(s.clone()),
            Item::StringLiteral(s) => Item::StringLiteral(s.clone()),
            Item::Raw(s) => Item::Raw(s.clone()),
            Item::Assign(a) => Item::Assign(a.duplicate()),
            Item::NamedArg(na) => Item::NamedArg(na.duplicate()),
            Item::Query(items) => Item::Query(dup_items(items)),
            Item::Pipeline(tfs) => Item::Pipeline(dup_tfs(tfs)),
            Item::List(items) => Item::List(dup_items(items)),
            Item::Items(items) => Item::Items(dup_items(items)),
            Item::Expr(items) => Item::Expr(dup_items(items)),
            Item::Idents(ids) => {
                let copy = ids.clone();
                proof {
                    assert(copy@ =~= ids@);
                }
                Item::Idents(copy)
            },
            Item::Function(f) => Item::Function(f.duplicate()),
            Item::Table(t) => Item::Table(t.duplicate()),
            Item::SString(segs) => Item::SString(dup_sstrings(segs)),
            Item::Unimplemented(s) => Item::Unimplemented(s.clone()),
        }
    }
}

impl Clone for Item {
    /// Structural cloning: the copy has the same model as the original.
    fn clone(&self) -> (r: Self)
        ensures
            r.model() == self.model(),
    {
        self.duplicate()
    }
}

impl Transformation {
    /// Builds a structurally equal copy of this pipeline stage.
    fn duplicate(&self) -> (r: Transformation)
        ensures
            r.model() == self.model(),
        decreases *self,
    {
        match self {
            Transformation::From(items) => Transformation::From(dup_items(items)),
            Transformation::Select(items) => Transformation::Select(dup_items(items)),
            Transformation::Filter(f) => Transformation::Filter(Filter(dup_items(&f.0))),
            Transformation::Derive(assigns) => Transformation::Derive(dup_assigns(assigns)),
            Transformation::Aggregate { by, calcs, assigns } => Transformation::Aggregate {
                by: dup_items(by),
                calcs: dup_items(calcs),
                assigns: dup_assigns(assigns),
            },
            Transformation::Sort(items) => Transformation::Sort(dup_items(items)),
            Transformation::Take(n) => Transformation::Take(*n),
            Transformation::Join(items) => Transformation::Join(dup_items(items)),
            Transformation::Func(call) => Transformation::Func(call.duplicate()),
        }
    }
}

impl Clone for Transformation {
    /// Structural cloning: the copy has the same model as the original.
    fn clone(&self) -> (r: Self)
        ensures
            r.model() == self.model(),
    {
        self.duplicate()
    }
}

impl Filter {
    /// Builds a structurally equal copy of this predicate.
    fn duplicate(&self) -> (r: Filter)
        ensures
            items_model(r.0@) == items_model(self.0@),
        decreases *self,
    {
        Filter(dup_items(&self.0))
    }
}

impl Clone for Filter {
    /// Structural cloning: the copy holds items with the same models.
    fn clone(&self) -> (r: Self)
        ensures
            items_model(r.0@) == items_model(self.0@),
    {
        self.duplicate()
    }
}

impl Function {
    /// Builds a structurally equal copy of this definition.
    fn duplicate(&self) -> (r: Function)
        ensures
            r.model() == self.model(),
        decreases *self,
    {
        let args = self.args.clone();
        proof {
            assert(args@ =~= self.args@);
        }
        Function { name: self.name.clone(), args, body: dup_items(&self.body) }
    }
}

impl Clone for Function {
    /// Structural cloning: the copy has the same model as the original.
    fn clone(&self) -> (r: Self)
        ensures
            r.model() == self.model(),
    {
        self.duplicate()
    }
}

impl FuncCall {
    /// Builds a structurally equal copy of this call.
    fn duplicate(&self) -> (r: FuncCall)
        ensures
            r.model() == self.model(),
        decreases *self,
    {
        FuncCall {
            name: self.name.clone(),
            args: dup_items(&self.args),
            named_args: dup_nameds(&self.named_args),
        }
    }
}

impl Clone for FuncCall {
    /// Structural cloning: the copy has the same model as the original.
    fn clone(&self) -> (r: Self)
        ensures
            r.model() == self.model(),
    {
        self.duplicate()
    }
}

impl Table {
    /// Builds a structurally equal copy of this table definition.
    fn duplicate(&self) -> (r: Table)
        ensures
            r.model() == self.model(),
        decreases *self,
    {
        Table { name: self.name.clone(), pipeline: dup_tfs(&self.pipeline) }
    }
}

impl Clone for Table {
    /// Structural cloning: the copy has the same model as the original.
    fn clone(&self) -> (r: Self)
        ensures
            r.model() == self.model(),
    {
        self.duplicate()
    }
}

impl NamedArg {
    /// Builds a structurally equal copy of this named argument.
    fn duplicate(&self) -> (r: NamedArg)
        ensures
            r.model() == self.model(),
        decreases *self,
    {
        NamedArg { name: self.name.clone(), arg: Box::new((*self.arg).duplicate()) }
    }
}

impl Clone for NamedArg {
    /// Structural cloning: the copy has the same model as the original.
    fn clone(&self) -> (r: Self)
        ensures
            r.model() == self.model(),
    {
        self.duplicate()
    }
}

impl Assign {
    /// Builds a structurally equal copy of this assignment.
    fn duplicate(&self) -> (r: Assign)
        ensures
            r.model() == self.model(),
        decreases *self,
    {
        Assign { lvalue: self.lvalue.clone(), rvalue: Box::new((*self.rvalue).duplicate()) }
    }
}

impl Clone for Assign {
    /// Structural cloning: the copy has the same model as the original.
    fn clone(&self) -> (r: Self)
        ensures
            r.model() == self.model(),
    {
        self.duplicate()
    }
}

impl SStringItem {
    /// Builds a structurally equal copy of this segment.
    fn duplicate(&self) -> (r: SStringItem)
        ensures
            r.model() == self.model(),
        decreases *self,
    {
        match self {
            SStringItem::Fragment(s) => SStringItem::Fragment(s.clone()),
            SStringItem::Expr(item) => SStringItem::Expr(item.duplicate()),
        }
    }
}

impl Clone for SStringItem {
    /// Structural cloning: the copy has the same model as the original.
    fn clone(&self) -> (r: Self)
        ensures
            r.model() == self.model(),
    {
        self.duplicate()
    }
}

impl Clone for ShapeError {
    /// Structural cloning: the copy reports the same mismatch.
    fn clone(&self) -> (r: Self)
        ensures
            match *self {
                ShapeError::WrongVariant { expected, found, ref value } => (
                    r matches ShapeError::WrongVariant { expected: e2, found: f2, value: v2 }
                        && e2 == expected && f2 == found && v2@ == value@
                ),
                ShapeError::WrongIdentCount { count, ref idents } => (
                    r matches ShapeError::WrongIdentCount { count: c2, idents: i2 }
                        && c2 == count && i2@ == idents@
                ),
            },
    {
        match self {
            ShapeError::WrongVariant { expected, found, value } => ShapeError::WrongVariant {
                expected: *expected,
                found: *found,
                value: value.clone(),
            },
            ShapeError::WrongIdentCount { count, idents } => {
                let copy = idents.clone();
                proof {
                    assert(copy@ =~= idents@);
                }
                ShapeError::WrongIdentCount { count: *count, idents: copy }
            },
        }
    }
}

/// Flattening is idempotent: taking the canonical scalar form twice gives
/// the same result as taking it once.
pub proof fn lemma_scalar_deep_idempotent(x: Item)
    ensures
        x.scalar_deep().scalar_deep() == x.scalar_deep(),
    decreases x,
{
    if x.is_container() && x.container_items().len() == 1 {
        lemma_scalar_deep_idempotent(x.container_items()[0]);
    }
}

/// A container wrapping exactly one non-container item collapses to that
/// item.
pub proof fn lemma_single_wrap_unwrap(x: Item, c: Item)
    requires
        !x.is_container(),
        c.is_container(),
        c.container_items() == seq![x],
    ensures
        c.scalar_deep() == x,
{
    assert(c.container_items().len() == 1);
    assert(c.container_items()[0] == x);
    assert(x.scalar_deep() == x);
}

/// A container holding two or more items is a fixed point of flattening,
/// whatever the items are.
pub proof fn lemma_multi_element_fixed_point(c: Item)
    requires
        c.is_container(),
        c.container_items().len() >= 2,
    ensures
        c.scalar_deep() == c,
{
}

/// A container holding no items is a fixed point of flattening: it is
/// returned as it is, not unwrapped and not an error.
pub proof fn lemma_empty_container_fixed_point(c: Item)
    requires
        c.is_container(),
        c.container_items().len() == 0,
    ensures
        c.scalar_deep() == c,
{
}

/// The sequence form is total: a non-container item becomes the one-element
/// sequence holding it, and a container contributes exactly its contents in
/// their original order.
pub proof fn lemma_to_seq_totality(x: Item)
    ensures
        !x.is_container() ==> x.to_seq() == seq![x],
        x.is_container() ==> x.to_seq() == x.container_items(),
{
}

} // verus!
