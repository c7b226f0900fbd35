//! A neutral value tree that every structured surface renders from.
pub mod builders;
pub mod field_laws;
pub mod json;
pub mod laws;
pub mod plain;
pub mod render_laws;

use vstd::prelude::*;
use vstd::view::View as _;

verus! {

// Shared shape for structure rendering; surfaces disagree only on how
// address-like values are encoded.
/// A node in a neutral value tree.
#[derive(Debug)]
pub enum View {
    /// An address/pointer/status: hex string for JSON, int for Python.
    Hex(u64),
    OptHex(Option<u64>),
    /// A plain count: a number on both surfaces.
    Num(u64),
    OptNum(Option<u64>),
    /// A signed count.
    Int(i64),
    Bool(bool),
    OptBool(Option<bool>),
    Str(String),
    OptStr(Option<String>),
    Null,
    List(Vec<View>),
    /// An ordered key/value object (insertion order is preserved on render).
    Object(Vec<(&'static str, View)>),
}

/// What a value tree holds.
pub enum Node {
    Hex(u64),
    OptHex(Option<u64>),
    Num(u64),
    OptNum(Option<u64>),
    Int(i64),
    Bool(bool),
    OptBool(Option<bool>),
    Str(Seq<char>),
    OptStr(Option<Seq<char>>),
    Null,
    List(Seq<Node>),
    Object(Seq<(Seq<char>, Node)>),
}

impl View {
    /// What the tree holds.
    pub open spec fn shape(self) -> Node
        decreases self,
    {
        match self {
            View::Hex(n) => Node::Hex(n),
            View::OptHex(n) => Node::OptHex(n),
            View::Num(n) => Node::Num(n),
            View::OptNum(n) => Node::OptNum(n),
            View::Int(n) => Node::Int(n),
            View::Bool(b) => Node::Bool(b),
            View::OptBool(b) => Node::OptBool(b),
            View::Str(s) => Node::Str(s@),
            View::OptStr(s) => Node::OptStr(crate::text::text_opt(s)),
            View::Null => Node::Null,
            View::List(items) => Node::List(
                Seq::new(
                    items@.len(),
                    |i: int|
                        if 0 <= i < items@.len() {
                            items@[i].shape()
                        } else {
                            Node::Null
                        },
                ),
            ),
            View::Object(fields) => Node::Object(
                Seq::new(
                    fields@.len(),
                    |i: int|
                        if 0 <= i < fields@.len() {
                            (fields@[i].0@, fields@[i].1.shape())
                        } else {
                            (Seq::<char>::empty(), Node::Null)
                        },
                ),
            ),
        }
    }
}

/// The shapes of a list of trees.
pub open spec fn shapes(items: Seq<View>) -> Seq<Node> {
    items.map_values(|v: View| v.shape())
}

/// An object under construction.
pub struct Fields {
    pub list: Vec<(&'static str, View)>,
}

impl Fields {
    /// The names and shapes of the fields so far.
    pub open spec fn shape(self) -> Seq<(Seq<char>, Node)> {
        self.list@.map_values(|f: (&'static str, View)| (f.0@, f.1.shape()))
    }

    pub fn new() -> (r: Fields)
        ensures
            r.shape() == Seq::<(Seq<char>, Node)>::empty(),
    {
        let r = Fields { list: Vec::new() };
        assert(r.shape() =~= Seq::<(Seq<char>, Node)>::empty());
        r
    }

    /// Adds a field.
    pub fn with(self, name: &'static str, value: View) -> (r: Fields)
        ensures
            r.shape() == self.shape().push((name@, value.shape())),
    {
        let mut list = self.list;
        list.push((name, value));
        let r = Fields { list };
        assert(r.shape() =~= self.shape().push((name@, value.shape())));
        r
    }

    /// The finished object.
    pub fn done(self) -> (r: View)
        ensures
            r.shape() == Node::Object(self.shape()),
    {
        let ghost fields = self.shape();
        let r = View::Object(self.list);
        assert(r.shape()->Object_0 =~= fields);
        r
    }
}

/// A list of trees.
pub fn list(items: Vec<View>) -> (r: View)
    ensures
        r.shape() == Node::List(shapes(items@)),
{
    let r = View::List(items);
    assert(r.shape()->List_0 =~= shapes(items@));
    r
}

} // verus!
