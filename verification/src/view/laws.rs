//! How the renderings of a value tree relate to each other.
use crate::text::hex_prefixed;
use crate::view::json::{
    member_set, members_content, rendered, rendered_items, rendered_members, Token,
};
use crate::view::plain::{plain_fields, plain_items, plainly, Bare};
use crate::view::Node;
use vstd::prelude::*;

verus! {

/// A tree with each address replaced by its `0x` text.
pub open spec fn worded(node: Node) -> Node
    decreases node,
{
    match node {
        Node::Hex(n) => Node::Str(hex_prefixed(n as nat)),
        Node::OptHex(Some(n)) => Node::Str(hex_prefixed(n as nat)),
        Node::List(items) => Node::List(
            Seq::new(
                items.len(),
                |i: int|
                    if 0 <= i < items.len() {
                        worded(items[i])
                    } else {
                        Node::Null
                    },
            ),
        ),
        Node::Object(fields) => Node::Object(
            Seq::new(
                fields.len(),
                |i: int|
                    if 0 <= i < fields.len() {
                        (fields[i].0, worded(fields[i].1))
                    } else {
                        (Seq::<char>::empty(), Node::Null)
                    },
            ),
        ),
        _ => node,
    }
}

/// The JSON content of a plain value.
pub open spec fn encoded(value: Bare) -> Seq<Token>
    decreases value, 0nat,
{
    match value {
        Bare::Nothing => seq![Token::Null],
        Bare::Unsigned(n) => seq![Token::Number(n as int)],
        Bare::Signed(n) => seq![Token::Number(n as int)],
        Bare::Bool(b) => seq![Token::Bool(b)],
        Bare::Text(s) => seq![Token::Text(s)],
        Bare::List(items) => seq![Token::ListStart] + encoded_items(items, items.len())
            + seq![Token::ListEnd],
        Bare::Dict(fields) => seq![Token::ObjectStart] + members_content(
            encoded_members(fields, fields.len()),
        ) + seq![Token::ObjectEnd],
    }
}

/// The contents of the first `n` values, one after the other.
pub open spec fn encoded_items(items: Seq<Bare>, n: nat) -> Seq<Token>
    decreases items, n,
{
    if n == 0 || n > items.len() {
        Seq::empty()
    } else {
        encoded_items(items, (n - 1) as nat) + encoded(items[n - 1])
    }
}

/// The members that setting each of the first `n` entries in turn leaves.
pub open spec fn encoded_members(fields: Seq<(Seq<char>, Bare)>, n: nat) -> Seq<
    (Seq<char>, Seq<Token>),
>
    decreases fields, n,
{
    if n == 0 || n > fields.len() {
        Seq::empty()
    } else {
        member_set(
            encoded_members(fields, (n - 1) as nat),
            fields[n - 1].0,
            encoded(fields[n - 1].1),
        )
    }
}

proof fn lemma_plain_items(items: Seq<Node>, n: nat)
    requires
        n <= items.len(),
    ensures
        plain_items(items, n).len() == n,
        forall|i: int| 0 <= i < n ==> #[trigger] plain_items(items, n)[i] == plainly(items[i]),
    decreases n,
{
    if n > 0 {
        lemma_plain_items(items, (n - 1) as nat);
    }
}

proof fn lemma_plain_fields(fields: Seq<(Seq<char>, Node)>, n: nat)
    requires
        n <= fields.len(),
    ensures
        plain_fields(fields, n).len() == n,
        forall|i: int|
            0 <= i < n ==> #[trigger] plain_fields(fields, n)[i] == (
                fields[i].0,
                plainly(fields[i].1),
            ),
    decreases n,
{
    if n > 0 {
        lemma_plain_fields(fields, (n - 1) as nat);
    }
}

proof fn lemma_items_agree(items: Seq<Node>, values: Seq<Bare>, n: nat)
    requires
        n <= items.len() == values.len(),
        forall|i: int|
            0 <= i < items.len() ==> #[trigger] values[i] == plainly(worded(items[i])),
    ensures
        rendered_items(items, n) == encoded_items(values, n),
    decreases items, n,
{
    if n > 0 {
        lemma_items_agree(items, values, (n - 1) as nat);
        law_surfaces_agree(items[n - 1]);
    }
}

proof fn lemma_members_agree(
    fields: Seq<(Seq<char>, Node)>,
    values: Seq<(Seq<char>, Bare)>,
    n: nat,
)
    requires
        n <= fields.len() == values.len(),
        forall|i: int|
            0 <= i < fields.len() ==> #[trigger] values[i] == (
                fields[i].0,
                plainly(worded(fields[i].1)),
            ),
    ensures
        rendered_members(fields, n) == encoded_members(values, n),
    decreases fields, n,
{
    if n > 0 {
        lemma_members_agree(fields, values, (n - 1) as nat);
        assert(decreases_to!(fields => fields[n - 1]));
        assert(decreases_to!(fields[n - 1] => fields[n - 1].1));
        law_surfaces_agree(fields[n - 1].1);
    }
}

/// The surfaces disagree only on how addresses are encoded: the JSON of a tree
/// is that of its plain value, but that each address stands as its `0x` text.
pub proof fn law_surfaces_agree(node: Node)
    ensures
        rendered(node) == encoded(plainly(worded(node))),
    decreases node, 0nat,
{
    match node {
        Node::List(items) => {
            let others = worded(node)->List_0;
            let values = plain_items(others, others.len());
            lemma_plain_items(others, others.len());
            assert forall|i: int| 0 <= i < items.len() implies #[trigger] values[i] == plainly(
                worded(items[i]),
            ) by {
                assert(others[i] == worded(items[i]));
            }
            lemma_items_agree(items, values, items.len());
        },
        Node::Object(fields) => {
            let others = worded(node)->Object_0;
            let values = plain_fields(others, others.len());
            lemma_plain_fields(others, others.len());
            assert forall|i: int| 0 <= i < fields.len() implies #[trigger] values[i] == (
                fields[i].0,
                plainly(worded(fields[i].1)),
            ) by {
                assert(others[i] == (fields[i].0, worded(fields[i].1)));
            }
            lemma_members_agree(fields, values, fields.len());
        },
        _ => {},
    }
}

} // verus!
