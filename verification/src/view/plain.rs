//! Rendering a value tree to plain values, as a scripting surface takes them.
use crate::view::{Node, View};
use vstd::prelude::*;
use vstd::view::View as _;

verus! {

/// A plain value: addresses are integers like any other, and what is absent is
/// nothing.
#[derive(Debug)]
pub enum Plain {
    Nothing,
    Unsigned(u64),
    Signed(i64),
    Bool(bool),
    Text(String),
    List(Vec<Plain>),
    Dict(Vec<(&'static str, Plain)>),
}

/// What a plain value holds.
pub enum Bare {
    Nothing,
    Unsigned(u64),
    Signed(i64),
    Bool(bool),
    Text(Seq<char>),
    List(Seq<Bare>),
    Dict(Seq<(Seq<char>, Bare)>),
}

impl Plain {
    /// What the value holds.
    pub open spec fn bare(self) -> Bare
        decreases self, 0nat,
    {
        match self {
            Plain::Nothing => Bare::Nothing,
            Plain::Unsigned(n) => Bare::Unsigned(n),
            Plain::Signed(n) => Bare::Signed(n),
            Plain::Bool(b) => Bare::Bool(b),
            Plain::Text(s) => Bare::Text(s@),
            Plain::List(items) => Bare::List(Self::bare_items(items@, items@.len())),
            Plain::Dict(fields) => Bare::Dict(Self::bare_fields(fields@, fields@.len())),
        }
    }

    /// What the first `n` values hold.
    pub open spec fn bare_items(items: Seq<Plain>, n: nat) -> Seq<Bare>
        decreases items, n,
    {
        if n == 0 || n > items.len() {
            Seq::empty()
        } else {
            Self::bare_items(items, (n - 1) as nat).push(items[n - 1].bare())
        }
    }

    /// What the first `n` entries hold.
    pub open spec fn bare_fields(fields: Seq<(&'static str, Plain)>, n: nat) -> Seq<
        (Seq<char>, Bare),
    >
        decreases fields, n,
    {
        if n == 0 || n > fields.len() {
            Seq::empty()
        } else {
            Self::bare_fields(fields, (n - 1) as nat).push((fields[n - 1].0@, fields[n - 1].1.bare()))
        }
    }

    /// What the first `n` values hold does not depend on those after them.
    proof fn lemma_items_prefix(items: Seq<Plain>, more: Plain, n: nat)
        requires
            n <= items.len(),
        ensures
            Self::bare_items(items.push(more), n) == Self::bare_items(items, n),
        decreases n,
    {
        if n > 0 {
            Self::lemma_items_prefix(items, more, (n - 1) as nat);
        }
    }

    /// What the first `n` entries hold does not depend on those after them.
    proof fn lemma_fields_prefix(
        fields: Seq<(&'static str, Plain)>,
        more: (&'static str, Plain),
        n: nat,
    )
        requires
            n <= fields.len(),
        ensures
            Self::bare_fields(fields.push(more), n) == Self::bare_fields(fields, n),
        decreases n,
    {
        if n > 0 {
            Self::lemma_fields_prefix(fields, more, (n - 1) as nat);
        }
    }
}

/// The plain value of a tree.
pub open spec fn plainly(node: Node) -> Bare
    decreases node, 0nat,
{
    match node {
        Node::Hex(n) => Bare::Unsigned(n),
        Node::OptHex(Some(n)) => Bare::Unsigned(n),
        Node::OptHex(None) => Bare::Nothing,
        Node::Num(n) => Bare::Unsigned(n),
        Node::OptNum(Some(n)) => Bare::Unsigned(n),
        Node::OptNum(None) => Bare::Nothing,
        Node::Int(n) => Bare::Signed(n),
        Node::Bool(b) => Bare::Bool(b),
        Node::OptBool(Some(b)) => Bare::Bool(b),
        Node::OptBool(None) => Bare::Nothing,
        Node::Str(s) => Bare::Text(s),
        Node::OptStr(Some(s)) => Bare::Text(s),
        Node::OptStr(None) => Bare::Nothing,
        Node::Null => Bare::Nothing,
        Node::List(items) => Bare::List(plain_items(items, items.len())),
        Node::Object(fields) => Bare::Dict(plain_fields(fields, fields.len())),
    }
}

/// The plain values of the first `n` trees.
pub open spec fn plain_items(items: Seq<Node>, n: nat) -> Seq<Bare>
    decreases items, n,
{
    if n == 0 || n > items.len() {
        Seq::empty()
    } else {
        plain_items(items, (n - 1) as nat).push(plainly(items[n - 1]))
    }
}

/// The plain values of the first `n` fields.
pub open spec fn plain_fields(fields: Seq<(Seq<char>, Node)>, n: nat) -> Seq<(Seq<char>, Bare)>
    decreases fields, n,
{
    if n == 0 || n > fields.len() {
        Seq::empty()
    } else {
        plain_fields(fields, (n - 1) as nat).push((fields[n - 1].0, plainly(fields[n - 1].1)))
    }
}

/// Render a [`View`] to plain values: addresses become plain integers.
pub fn to_plain(v: &View) -> (r: Plain)
    ensures
        r.bare() == plainly(v.shape()),
    decreases *v,
{
    match v {
        View::Hex(n) => Plain::Unsigned(*n),
        View::Num(n) => Plain::Unsigned(*n),
        View::OptHex(o) => match o {
            Some(n) => Plain::Unsigned(*n),
            None => Plain::Nothing,
        },
        View::OptNum(o) => match o {
            Some(n) => Plain::Unsigned(*n),
            None => Plain::Nothing,
        },
        View::Int(n) => Plain::Signed(*n),
        View::Bool(b) => Plain::Bool(*b),
        View::OptBool(o) => match o {
            Some(b) => Plain::Bool(*b),
            None => Plain::Nothing,
        },
        View::Str(s) => Plain::Text(s.clone()),
        View::OptStr(o) => match o {
            Some(s) => Plain::Text(s.clone()),
            None => Plain::Nothing,
        },
        View::Null => Plain::Nothing,
        View::List(items) => {
            let mut out: Vec<Plain> = Vec::new();
            let ghost shapes = v.shape()->List_0;
            let mut i: usize = 0;
            while i < items.len()
                invariant
                    i <= items@.len(),
                    *v == View::List(*items),
                    shapes == v.shape()->List_0,
                    shapes.len() == items@.len(),
                    out@.len() == i,
                    Plain::bare_items(out@, i as nat) == plain_items(shapes, i as nat),
                decreases items@.len() - i,
            {
                assert(decreases_to!(*v => items@));
                assert(decreases_to!(items@ => items@[i as int]));
                let item = to_plain(&items[i]);
                assert(shapes[i as int] == items@[i as int].shape());
                proof {
                    Plain::lemma_items_prefix(out@, item, i as nat);
                }
                out.push(item);
                i += 1;
            }
            Plain::List(out)
        },
        View::Object(fields) => {
            let mut out: Vec<(&'static str, Plain)> = Vec::new();
            let ghost shapes = v.shape()->Object_0;
            let mut i: usize = 0;
            while i < fields.len()
                invariant
                    i <= fields@.len(),
                    *v == View::Object(*fields),
                    shapes == v.shape()->Object_0,
                    shapes.len() == fields@.len(),
                    out@.len() == i,
                    Plain::bare_fields(out@, i as nat) == plain_fields(shapes, i as nat),
                decreases fields@.len() - i,
            {
                assert(decreases_to!(*v => fields@));
                assert(decreases_to!(fields@ => fields@[i as int]));
                assert(decreases_to!(fields@[i as int] => fields@[i as int].1));
                let value = to_plain(&fields[i].1);
                assert(shapes[i as int] == (fields@[i as int].0@, fields@[i as int].1.shape()));
                let entry = (fields[i].0, value);
                proof {
                    Plain::lemma_fields_prefix(out@, entry, i as nat);
                }
                out.push(entry);
                i += 1;
            }
            Plain::Dict(out)
        },
    }
}

} // verus!
