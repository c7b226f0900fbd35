//! What each part of a value tree is rendered as.
use crate::view::json::{
    items_content, json_content, members_content, rendered, rendered_items, rendered_members,
    to_json, Token,
};
use crate::view::plain::{plainly, to_plain, Bare, Plain};
use crate::view::{Node, View};
use vstd::prelude::*;
use vstd::string::*;
use vstd::view::View as _;

verus! {

/// What a leaf of a tree is in JSON: an address a `0x` text, a number a number, a truth
/// value and a text what they are, and null where there is nothing.
pub open spec fn leaf(v: View) -> Option<Token> {
    match v {
        View::Hex(n) => Some(Token::Text("0x"@ + crate::text::hex(n as nat))),
        View::OptHex(Some(n)) => Some(Token::Text("0x"@ + crate::text::hex(n as nat))),
        View::Num(n) => Some(Token::Number(n as int)),
        View::OptNum(Some(n)) => Some(Token::Number(n as int)),
        View::Int(n) => Some(Token::Number(n as int)),
        View::Bool(b) => Some(Token::Bool(b)),
        View::OptBool(Some(b)) => Some(Token::Bool(b)),
        View::Str(s) => Some(Token::Text(s@)),
        View::OptStr(Some(s)) => Some(Token::Text(s@)),
        View::OptHex(None) => Some(Token::Null),
        View::OptNum(None) => Some(Token::Null),
        View::OptBool(None) => Some(Token::Null),
        View::OptStr(None) => Some(Token::Null),
        View::Null => Some(Token::Null),
        View::List(_) => None,
        View::Object(_) => None,
    }
}

/// A leaf is rendered to JSON as what it is.
pub proof fn law_json_of_a_leaf(v: View, r: serde_json::Value)
    requires
        call_ensures(to_json, (&v,), r),
    ensures
        leaf(v) matches Some(token) ==> json_content(r) == seq![token],
{
}

/// What a leaf of a tree is as a plain value: an address is its number.
pub open spec fn bare_leaf(v: View) -> Option<Bare> {
    match v {
        View::Hex(n) => Some(Bare::Unsigned(n)),
        View::OptHex(Some(n)) => Some(Bare::Unsigned(n)),
        View::Num(n) => Some(Bare::Unsigned(n)),
        View::OptNum(Some(n)) => Some(Bare::Unsigned(n)),
        View::Int(n) => Some(Bare::Signed(n)),
        View::Bool(b) => Some(Bare::Bool(b)),
        View::OptBool(Some(b)) => Some(Bare::Bool(b)),
        View::Str(s) => Some(Bare::Text(s@)),
        View::OptStr(Some(s)) => Some(Bare::Text(s@)),
        View::OptHex(None) => Some(Bare::Nothing),
        View::OptNum(None) => Some(Bare::Nothing),
        View::OptBool(None) => Some(Bare::Nothing),
        View::OptStr(None) => Some(Bare::Nothing),
        View::Null => Some(Bare::Nothing),
        View::List(_) => None,
        View::Object(_) => None,
    }
}

/// A leaf is rendered to a plain value as what it is.
pub proof fn law_plain_of_a_leaf(v: View, r: Plain)
    requires
        call_ensures(to_plain, (&v,), r),
    ensures
        bare_leaf(v) matches Some(value) ==> r.bare() == value,
{
}

proof fn lemma_items(items: Seq<Node>, more: Node, n: nat)
    requires
        n <= items.len(),
    ensures
        rendered_items(items.push(more), n) == rendered_items(items, n),
        crate::view::plain::plain_items(items.push(more), n) == crate::view::plain::plain_items(
            items,
            n,
        ),
    decreases n,
{
    if n > 0 {
        lemma_items(items, more, (n - 1) as nat);
        assert(items.push(more)[n - 1] == items[n - 1]);
    }
}

proof fn lemma_fields(fields: Seq<(Seq<char>, Node)>, more: (Seq<char>, Node), n: nat)
    requires
        n <= fields.len(),
    ensures
        rendered_members(fields.push(more), n) == rendered_members(fields, n),
        crate::view::plain::plain_fields(fields.push(more), n) == crate::view::plain::plain_fields(
            fields,
            n,
        ),
    decreases n,
{
    if n > 0 {
        lemma_fields(fields, more, (n - 1) as nat);
        assert(fields.push(more)[n - 1] == fields[n - 1]);
    }
}

/// A list with one more item is rendered with that item behind all the others.
pub proof fn law_lists_grow_at_the_end(items: Seq<Node>, more: Node)
    ensures
        rendered(Node::List(Seq::empty())) == seq![Token::ListStart, Token::ListEnd],
        rendered(Node::List(items.push(more))) == rendered(Node::List(items)).drop_last() + rendered(
            more,
        ) + seq![Token::ListEnd],
        (plainly(Node::List(items)), plainly(Node::List(items.push(more)))) matches (
            Bare::List(few),
            Bare::List(all),
        ) && all == few.push(plainly(more)),
{
    lemma_items(items, more, items.len());
    let before = rendered_items(items, items.len());
    assert(rendered(Node::List(items)) == seq![Token::ListStart] + before + seq![Token::ListEnd]);
    assert(rendered(Node::List(items)).drop_last() =~= seq![Token::ListStart] + before);
    let all = items.push(more);
    assert(all[all.len() - 1] == more);
    assert(rendered_items(all, all.len()) == before + rendered(more));
    assert(rendered(Node::List(all)) =~= seq![Token::ListStart] + before + rendered(more)
        + seq![Token::ListEnd]);
    assert(rendered(Node::List(Seq::empty())) =~= seq![Token::ListStart, Token::ListEnd]);
}

proof fn lemma_keys(fields: Seq<(Seq<char>, Node)>, n: nat, name: Seq<char>)
    requires
        n <= fields.len(),
        forall|i: int| 0 <= i < fields.len() ==> (#[trigger] fields[i]).0 != name,
    ensures
        forall|i: int|
            0 <= i < rendered_members(fields, n).len() ==> (#[trigger] rendered_members(
                fields,
                n,
            )[i]).0 != name,
    decreases n,
{
    if n > 0 {
        lemma_keys(fields, (n - 1) as nat, name);
        let before = rendered_members(fields, (n - 1) as nat);
        lemma_set_keys(before, fields[n - 1].0, rendered(fields[n - 1].1), name);
    }
}

proof fn lemma_set_keys(
    members: Seq<(Seq<char>, Seq<Token>)>,
    key: Seq<char>,
    content: Seq<Token>,
    name: Seq<char>,
)
    requires
        key != name,
        forall|i: int| 0 <= i < members.len() ==> (#[trigger] members[i]).0 != name,
    ensures
        forall|i: int|
            0 <= i < crate::view::json::member_set(members, key, content).len() ==> (
            #[trigger] crate::view::json::member_set(members, key, content)[i]).0 != name,
    decreases members.len(),
{
    if members.len() > 0 && members[0].0 != key {
        lemma_set_keys(members.drop_first(), key, content, name);
        let rest = crate::view::json::member_set(members.drop_first(), key, content);
        let all = crate::view::json::member_set(members, key, content);
        assert(all == seq![members[0]] + rest);
        assert forall|i: int| 0 <= i < all.len() implies (#[trigger] all[i]).0 != name by {
            if i > 0 {
                assert(all[i] == rest[i - 1]);
            }
        }
    }
}

proof fn lemma_append(members: Seq<(Seq<char>, Seq<Token>)>, key: Seq<char>, content: Seq<Token>)
    requires
        forall|i: int| 0 <= i < members.len() ==> (#[trigger] members[i]).0 != key,
    ensures
        crate::view::json::member_set(members, key, content) == members.push((key, content)),
    decreases members.len(),
{
    if members.len() > 0 {
        assert(members[0].0 != key);
        lemma_append(members.drop_first(), key, content);
        assert(seq![members[0]] + members.drop_first().push((key, content)) =~= members.push(
            (key, content),
        ));
    } else {
        assert(seq![(key, content)] =~= members.push((key, content)));
    }
}

/// An object with one more field, of a name that it does not have, is rendered with that
/// name and value behind all the others.
pub proof fn law_objects_grow_at_the_end(
    fields: Seq<(Seq<char>, Node)>,
    name: Seq<char>,
    value: Node,
)
    requires
        forall|i: int| 0 <= i < fields.len() ==> (#[trigger] fields[i]).0 != name,
    ensures
        rendered(Node::Object(Seq::empty())) == seq![Token::ObjectStart, Token::ObjectEnd],
        rendered(Node::Object(fields.push((name, value)))) == rendered(
            Node::Object(fields),
        ).drop_last() + seq![Token::Key(name)] + rendered(value) + seq![Token::ObjectEnd],
        (plainly(Node::Object(fields)), plainly(Node::Object(fields.push((name, value))))) matches (
            Bare::Dict(few),
            Bare::Dict(all),
        ) && all == few.push((name, plainly(value))),
{
    let all = fields.push((name, value));
    lemma_fields(fields, (name, value), fields.len());
    lemma_keys(fields, fields.len(), name);
    let before = rendered_members(fields, fields.len());
    lemma_append(before, name, rendered(value));
    assert(all[all.len() - 1] == (name, value));
    let after = rendered_members(all, all.len());
    assert(after == before.push((name, rendered(value))));
    assert(after.drop_last() =~= before);
    assert(members_content(after) == members_content(before) + seq![Token::Key(name)] + rendered(
        value,
    ));
    assert(rendered(Node::Object(fields)).drop_last() =~= seq![Token::ObjectStart]
        + members_content(before));
    assert(rendered(Node::Object(all)) =~= seq![Token::ObjectStart] + members_content(before)
        + seq![Token::Key(name)] + rendered(value) + seq![Token::ObjectEnd]);
    assert(rendered(Node::Object(Seq::empty())) =~= seq![Token::ObjectStart, Token::ObjectEnd]);
}

/// A tree holds its items and fields in their order, each field under its own name.
pub proof fn law_trees_hold_their_parts(items: Vec<View>, fields: Vec<(&'static str, View)>)
    ensures
        View::List(items).shape() matches Node::List(nodes) && nodes.len() == items@.len()
            && forall|i: int| 0 <= i < items@.len() ==> #[trigger] nodes[i] == items@[i].shape(),
        View::Object(fields).shape() matches Node::Object(nodes) && nodes.len() == fields@.len()
            && forall|i: int|
            0 <= i < fields@.len() ==> (#[trigger] nodes[i]).0 == fields@[i].0@ && nodes[i].1
                == fields@[i].1.shape(),
{
}

proof fn lemma_bare_items(items: Seq<Plain>, n: nat)
    requires
        n <= items.len(),
    ensures
        Plain::bare_items(items, n).len() == n,
        forall|i: int| 0 <= i < n ==> #[trigger] Plain::bare_items(items, n)[i] == items[i].bare(),
    decreases n,
{
    if n > 0 {
        lemma_bare_items(items, (n - 1) as nat);
    }
}

proof fn lemma_bare_fields(fields: Seq<(&'static str, Plain)>, n: nat)
    requires
        n <= fields.len(),
    ensures
        Plain::bare_fields(fields, n).len() == n,
        forall|i: int|
            0 <= i < n ==> (#[trigger] Plain::bare_fields(fields, n)[i]).0 == fields[i].0@
                && Plain::bare_fields(fields, n)[i].1 == fields[i].1.bare(),
    decreases n,
{
    if n > 0 {
        lemma_bare_fields(fields, (n - 1) as nat);
    }
}

/// A plain value holds its items and entries in their order, each entry under its own key.
pub proof fn law_plain_values_hold_their_parts(
    items: Vec<Plain>,
    fields: Vec<(&'static str, Plain)>,
)
    ensures
        Plain::List(items).bare() matches Bare::List(held) && held.len() == items@.len()
            && forall|i: int| 0 <= i < items@.len() ==> #[trigger] held[i] == items@[i].bare(),
        Plain::Dict(fields).bare() matches Bare::Dict(held) && held.len() == fields@.len()
            && forall|i: int|
            0 <= i < fields@.len() ==> (#[trigger] held[i]).0 == fields@[i].0@ && held[i].1
                == fields@[i].1.bare(),
{
    lemma_bare_items(items@, items@.len());
    lemma_bare_fields(fields@, fields@.len());
}

/// The contents of values stand one behind the other, in the order of the values.
pub proof fn law_contents_stand_in_order(
    items: Seq<serde_json::Value>,
    more: serde_json::Value,
    members: Seq<(Seq<char>, Seq<Token>)>,
    key: Seq<char>,
    content: Seq<Token>,
)
    ensures
        items_content(Seq::empty()) == Seq::<Token>::empty(),
        items_content(items.push(more)) == items_content(items) + json_content(more),
        members_content(Seq::empty()) == Seq::<Token>::empty(),
        members_content(members.push((key, content))) == members_content(members) + seq![
            Token::Key(key),
        ] + content,
{
    assert(items.push(more).drop_last() =~= items);
    assert(members.push((key, content)).drop_last() =~= members);
}

} // verus!
