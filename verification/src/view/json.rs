//! Rendering a value tree to JSON.
use crate::text::{hex_prefixed, hexadecimal_prefixed};
use crate::view::{Node, View};
use vstd::prelude::*;
use vstd::view::View as _;

verus! {

/// A piece of a JSON value, which is a sequence of them.
pub enum Token {
    Null,
    Bool(bool),
    Number(int),
    Text(Seq<char>),
    ListStart,
    ListEnd,
    ObjectStart,
    Key(Seq<char>),
    ObjectEnd,
}

/// A JSON value of `serde_json`.
#[verifier::external_type_specification]
#[verifier::external_body]
pub struct ExJsonValue(serde_json::Value);

/// The members of a JSON object of `serde_json`.
#[verifier::external_type_specification]
#[verifier::external_body]
#[verifier::reject_recursive_types(K)]
#[verifier::reject_recursive_types(V)]
pub struct ExJsonMap<K, V>(serde_json::Map<K, V>);

/// What a JSON value holds, piece by piece.
pub uninterp spec fn json_content(v: serde_json::Value) -> Seq<Token>;

/// The members of a JSON object in order, each with the content of its value.
pub uninterp spec fn json_members(m: serde_json::Map<String, serde_json::Value>) -> Seq<
    (Seq<char>, Seq<Token>),
>;

/// `serde_json::Value::Null`: the null value.
#[verifier::external_body]
fn json_null() -> (r: serde_json::Value)
    ensures
        json_content(r) == seq![Token::Null],
{
    serde_json::Value::Null
}

/// `serde_json::Value::from(u64)`: that number.
#[verifier::external_body]
fn json_unsigned(n: u64) -> (r: serde_json::Value)
    ensures
        json_content(r) == seq![Token::Number(n as int)],
{
    serde_json::Value::from(n)
}

/// `serde_json::Value::from(i64)`: that number.
#[verifier::external_body]
fn json_signed(n: i64) -> (r: serde_json::Value)
    ensures
        json_content(r) == seq![Token::Number(n as int)],
{
    serde_json::Value::from(n)
}

/// `serde_json::Value::from(bool)`: that truth value.
#[verifier::external_body]
fn json_bool(b: bool) -> (r: serde_json::Value)
    ensures
        json_content(r) == seq![Token::Bool(b)],
{
    serde_json::Value::from(b)
}

/// `serde_json::Value::from(String)`: that text.
#[verifier::external_body]
fn json_text(s: String) -> (r: serde_json::Value)
    ensures
        json_content(r) == seq![Token::Text(s@)],
{
    serde_json::Value::from(s)
}

/// The contents of values, one after the other.
pub open spec fn items_content(items: Seq<serde_json::Value>) -> Seq<Token>
    decreases items.len(),
{
    if items.len() == 0 {
        Seq::empty()
    } else {
        items_content(items.drop_last()) + json_content(items.last())
    }
}

/// `serde_json::Value::Array`: the list of these values, in order.
#[verifier::external_body]
fn json_array(items: Vec<serde_json::Value>) -> (r: serde_json::Value)
    ensures
        json_content(r) == seq![Token::ListStart] + items_content(items@) + seq![Token::ListEnd],
{
    serde_json::Value::Array(items)
}

/// `serde_json::Map::new`: an object without members.
#[verifier::external_body]
fn json_map() -> (r: serde_json::Map<String, serde_json::Value>)
    ensures
        json_members(r) == Seq::<(Seq<char>, Seq<Token>)>::empty(),
{
    serde_json::Map::new()
}

/// The members of an object once `key` has this value: a member of that name
/// changes its value where it stands, a new one comes last.
pub open spec fn member_set(
    members: Seq<(Seq<char>, Seq<Token>)>,
    key: Seq<char>,
    content: Seq<Token>,
) -> Seq<(Seq<char>, Seq<Token>)>
    decreases members.len(),
{
    if members.len() == 0 {
        seq![(key, content)]
    } else if members[0].0 == key {
        seq![(key, content)] + members.drop_first()
    } else {
        seq![members[0]] + member_set(members.drop_first(), key, content)
    }
}

/// `serde_json::Map::insert`, which keeps members in the order of their first
/// insertion (feature `preserve_order`): sets the member `key`.
#[verifier::external_body]
fn json_insert(
    map: &mut serde_json::Map<String, serde_json::Value>,
    key: String,
    value: serde_json::Value,
)
    ensures
        json_members(*final(map)) == member_set(json_members(*old(map)), key@, json_content(value)),
{
    map.insert(key, value);
}

/// The members of an object, one after the other.
pub open spec fn members_content(members: Seq<(Seq<char>, Seq<Token>)>) -> Seq<Token>
    decreases members.len(),
{
    if members.len() == 0 {
        Seq::empty()
    } else {
        members_content(members.drop_last()) + seq![Token::Key(members.last().0)]
            + members.last().1
    }
}

/// `serde_json::Value::Object`: the object with these members, in order.
#[verifier::external_body]
fn json_object(map: serde_json::Map<String, serde_json::Value>) -> (r: serde_json::Value)
    ensures
        json_content(r) == seq![Token::ObjectStart] + members_content(json_members(map))
            + seq![Token::ObjectEnd],
{
    serde_json::Value::Object(map)
}

/// The JSON content of a tree: addresses become `0x` hex strings.
pub open spec fn rendered(node: Node) -> Seq<Token>
    decreases node, 0nat,
{
    match node {
        Node::Hex(n) => seq![Token::Text(hex_prefixed(n as nat))],
        Node::OptHex(Some(n)) => seq![Token::Text(hex_prefixed(n as nat))],
        Node::OptHex(None) => seq![Token::Null],
        Node::Num(n) => seq![Token::Number(n as int)],
        Node::OptNum(Some(n)) => seq![Token::Number(n as int)],
        Node::OptNum(None) => seq![Token::Null],
        Node::Int(n) => seq![Token::Number(n as int)],
        Node::Bool(b) => seq![Token::Bool(b)],
        Node::OptBool(Some(b)) => seq![Token::Bool(b)],
        Node::OptBool(None) => seq![Token::Null],
        Node::Str(s) => seq![Token::Text(s)],
        Node::OptStr(Some(s)) => seq![Token::Text(s)],
        Node::OptStr(None) => seq![Token::Null],
        Node::Null => seq![Token::Null],
        Node::List(items) => seq![Token::ListStart] + rendered_items(items, items.len())
            + seq![Token::ListEnd],
        Node::Object(fields) => seq![Token::ObjectStart] + members_content(
            rendered_members(fields, fields.len()),
        ) + seq![Token::ObjectEnd],
    }
}

/// The contents of the first `n` trees, one after the other.
pub open spec fn rendered_items(items: Seq<Node>, n: nat) -> Seq<Token>
    decreases items, n,
{
    if n == 0 || n > items.len() {
        Seq::empty()
    } else {
        rendered_items(items, (n - 1) as nat) + rendered(items[n - 1])
    }
}

/// The members that setting each of the first `n` fields in turn leaves.
pub open spec fn rendered_members(fields: Seq<(Seq<char>, Node)>, n: nat) -> Seq<
    (Seq<char>, Seq<Token>),
>
    decreases fields, n,
{
    if n == 0 || n > fields.len() {
        Seq::empty()
    } else {
        member_set(
            rendered_members(fields, (n - 1) as nat),
            fields[n - 1].0,
            rendered(fields[n - 1].1),
        )
    }
}

/// Render a [`View`] to JSON: addresses become `0x` hex strings.
pub fn to_json(v: &View) -> (r: serde_json::Value)
    ensures
        json_content(r) == rendered(v.shape()),
    decreases *v,
{
    match v {
        View::Hex(n) => json_text(hexadecimal_prefixed(*n)),
        View::OptHex(o) => match o {
            Some(n) => json_text(hexadecimal_prefixed(*n)),
            None => json_null(),
        },
        View::Num(n) => json_unsigned(*n),
        View::OptNum(o) => match o {
            Some(n) => json_unsigned(*n),
            None => json_null(),
        },
        View::Int(n) => json_signed(*n),
        View::Bool(b) => json_bool(*b),
        View::OptBool(o) => match o {
            Some(b) => json_bool(*b),
            None => json_null(),
        },
        View::Str(s) => json_text(s.clone()),
        View::OptStr(o) => match o {
            Some(s) => json_text(s.clone()),
            None => json_null(),
        },
        View::Null => json_null(),
        View::List(items) => {
            let mut out: Vec<serde_json::Value> = Vec::new();
            let ghost shapes = v.shape()->List_0;
            let mut i: usize = 0;
            while i < items.len()
                invariant
                    i <= items@.len(),
                    *v == View::List(*items),
                    shapes == v.shape()->List_0,
                    shapes.len() == items@.len(),
                    items_content(out@) == rendered_items(shapes, i as nat),
                decreases items@.len() - i,
            {
                let ghost before = out@;
                assert(decreases_to!(*v => items@));
                assert(decreases_to!(items@ => items@[i as int]));
                let item = to_json(&items[i]);
                assert(shapes[i as int] == items@[i as int].shape());
                out.push(item);
                assert(out@.drop_last() =~= before);
                i += 1;
            }
            json_array(out)
        },
        View::Object(fields) => {
            let mut map = json_map();
            let ghost shapes = v.shape()->Object_0;
            let mut i: usize = 0;
            while i < fields.len()
                invariant
                    i <= fields@.len(),
                    *v == View::Object(*fields),
                    shapes == v.shape()->Object_0,
                    shapes.len() == fields@.len(),
                    json_members(map) == rendered_members(shapes, i as nat),
                decreases fields@.len() - i,
            {
                assert(decreases_to!(*v => fields@));
                assert(decreases_to!(fields@ => fields@[i as int]));
                assert(decreases_to!(fields@[i as int] => fields@[i as int].1));
                let value = to_json(&fields[i].1);
                assert(shapes[i as int] == (fields@[i as int].0@, fields@[i as int].1.shape()));
                json_insert(&mut map, crate::text::text(fields[i].0), value);
                i += 1;
            }
            json_object(map)
        },
    }
}

/// Setting a member that is not there yet appends it.
proof fn lemma_new_member(members: Seq<(Seq<char>, Seq<Token>)>, key: Seq<char>, content: Seq<Token>)
    requires
        forall|i: int| 0 <= i < members.len() ==> (#[trigger] members[i]).0 != key,
    ensures
        member_set(members, key, content) == members.push((key, content)),
    decreases members.len(),
{
    if members.len() > 0 {
        assert forall|i: int| 0 <= i < members.drop_first().len() implies (
        #[trigger] members.drop_first()[i]).0 != key by {
            assert(members.drop_first()[i] == members[i + 1]);
        }
        lemma_new_member(members.drop_first(), key, content);
        assert(member_set(members, key, content) =~= members.push((key, content)));
    } else {
        assert(member_set(members, key, content) =~= members.push((key, content)));
    }
}

/// Rendering keeps the order of an object's fields: where no name occurs
/// twice, the members are the fields, in their order.
pub proof fn law_order_is_kept(fields: Seq<(Seq<char>, Node)>, n: nat)
    requires
        n <= fields.len(),
        forall|i: int, j: int|
            0 <= i < j < fields.len() ==> (#[trigger] fields[i]).0 != (#[trigger] fields[j]).0,
    ensures
        rendered_members(fields, n) =~= Seq::new(
            n,
            |i: int| (fields[i].0, rendered(fields[i].1)),
        ),
    decreases n,
{
    if n > 0 {
        law_order_is_kept(fields, (n - 1) as nat);
        let members = rendered_members(fields, (n - 1) as nat);
        assert forall|i: int| 0 <= i < members.len() implies (#[trigger] members[i]).0
            != fields[n - 1].0 by {
            assert(members[i] == (fields[i].0, rendered(fields[i].1)));
        }
        lemma_new_member(members, fields[n - 1].0, rendered(fields[n - 1].1));
    }
}

} // verus!
