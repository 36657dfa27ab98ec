//! Printing helpers for nodes and their optional punctuation.
use vstd::prelude::*;

use crate::node::{flat_tokens, Node};
use crate::text::{push_chars, string_from_chars};
use crate::tokenizer::{display_references, lemma_display_references_append, TokenReference};

verus! {

/// The text of a node: that of its token references, one after the other.
fn node_text<T: Node>(node: &T) -> (r: Vec<char>)
    ensures
        r@ == display_references(node.spec_tokens()),
{
    node.tokens().text()
}

/// The texts of the items, one after the other.
pub fn join_vec<T: Node>(vec: &[T]) -> (r: String)
    ensures
        r@ == display_references(flat_tokens(vec@)),
{
    let mut chars: Vec<char> = Vec::new();
    let mut i: usize = 0;
    while i < vec.len()
        invariant
            i <= vec@.len(),
            chars@ == display_references(flat_tokens(vec@.take(i as int))),
        decreases vec@.len() - i,
    {
        let text = node_text(&vec[i]);
        proof {
            assert(vec@.take(i + 1).drop_last() =~= vec@.take(i as int));
            lemma_display_references_append(flat_tokens(vec@.take(i as int)), vec@[i as int].spec_tokens());
        }
        push_chars(&mut chars, &text);
        i += 1;
    }
    assert(vec@.take(vec@.len() as int) =~= vec@);
    string_from_chars(chars.as_slice())
}

/// The text of the node, if there is one; the empty string otherwise.
pub fn display_option<T: Node>(option: &Option<T>) -> (r: String)
    ensures
        r@ == display_references(option.spec_tokens()),
{
    let chars = node_text(option);
    string_from_chars(chars.as_slice())
}

/// The text of the node, then that of the punctuation that may follow it.
pub fn display_optional_punctuated<T: Node>(pair: &(T, Option<TokenReference>)) -> (r: String)
    ensures
        r@ == display_references(pair.spec_tokens()),
{
    let chars = node_text(pair);
    string_from_chars(chars.as_slice())
}

/// The texts of the nodes, each followed by that of the punctuation that may follow it.
pub fn display_optional_punctuated_vec<T: Node>(vec: &[(T, Option<TokenReference>)]) -> (r: String)
    ensures
        r@ == display_references(flat_tokens(vec@)),
{
    join_vec(vec)
}

/// Whether the vector is empty or full of `None`s.
pub fn empty_optional_vector<T>(vec: &Vec<Option<T>>) -> (r: bool)
    ensures
        r == forall|i: int| 0 <= i < vec@.len() ==> (#[trigger] vec@[i]) is None,
{
    let mut i: usize = 0;
    while i < vec.len()
        invariant
            i <= vec@.len(),
            forall|k: int| 0 <= k < i ==> (#[trigger] vec@[k]) is None,
        decreases vec@.len() - i,
    {
        if vec[i].is_some() {
            return false;
        }
        i += 1;
    }
    true
}

/// The text of a node: that of its token references, one after the other.
pub open spec fn node_display<T: Node>(node: T) -> Seq<char> {
    display_references(node.spec_tokens())
}

/// The text [`join_iterators`] gives for the first `n` parameters: each parameter, its two
/// optional items and its optional punctuation.
pub open spec fn joined_iterators<T1: Node, T2: Node, T3: Node>(
    parameters: Seq<(T1, Option<TokenReference>)>,
    first: Seq<Option<T2>>,
    second: Seq<Option<T3>>,
    n: int,
) -> Seq<char>
    decreases n,
{
    if n <= 0 {
        Seq::empty()
    } else {
        joined_iterators(parameters, first, second, n - 1) + node_display(parameters[n - 1].0)
            + node_display(first[n - 1]) + node_display(second[n - 1]) + node_display(
            parameters[n - 1].1,
        )
    }
}

/// Each parameter, followed by the items of `first` and `second` at its place and by its
/// punctuation, for as long as the three last.
pub fn join_iterators<T1: Node, T2: Node, T3: Node>(
    parameters: &[(T1, Option<TokenReference>)],
    first: &[Option<T2>],
    second: &[Option<T3>],
) -> (r: String)
    ensures
        r@ == joined_iterators(
            parameters@,
            first@,
            second@,
            vstd::math::min(vstd::math::min(parameters@.len() as int, first@.len() as int), second@.len() as int),
        ),
{
    let mut n = parameters.len();
    if first.len() < n {
        n = first.len();
    }
    if second.len() < n {
        n = second.len();
    }
    let mut chars: Vec<char> = Vec::new();
    let mut i: usize = 0;
    while i < n
        invariant
            i <= n,
            n <= parameters@.len(),
            n <= first@.len(),
            n <= second@.len(),
            chars@ == joined_iterators(parameters@, first@, second@, i as int),
        decreases n - i,
    {
        push_chars(&mut chars, &node_text(&parameters[i].0));
        push_chars(&mut chars, &node_text(&first[i]));
        push_chars(&mut chars, &node_text(&second[i]));
        push_chars(&mut chars, &node_text(&parameters[i].1));
        i += 1;
    }
    string_from_chars(chars.as_slice())
}

/// The text [`join_type_specifiers`] gives for the first `n` parameters: each parameter, its
/// type specifier if it has one, and its optional punctuation.
pub open spec fn joined_type_specifiers<T1: Node, T2: Node>(
    parameters: Seq<(T1, Option<TokenReference>)>,
    type_specifiers: Seq<Option<T2>>,
    n: int,
) -> Seq<char>
    decreases n,
{
    if n <= 0 {
        Seq::empty()
    } else {
        joined_type_specifiers(parameters, type_specifiers, n - 1) + node_display(
            parameters[n - 1].0,
        ) + (if n - 1 < type_specifiers.len() {
            node_display(type_specifiers[n - 1])
        } else {
            Seq::empty()
        }) + node_display(parameters[n - 1].1)
    }
}

/// Each parameter, followed by its type specifier if it has one, and by its punctuation.
pub fn join_type_specifiers<T1: Node, T2: Node>(
    parameters: &[(T1, Option<TokenReference>)],
    type_specifiers: &[Option<T2>],
) -> (r: String)
    ensures
        r@ == joined_type_specifiers(parameters@, type_specifiers@, parameters@.len() as int),
{
    let mut chars: Vec<char> = Vec::new();
    let mut i: usize = 0;
    while i < parameters.len()
        invariant
            i <= parameters@.len(),
            chars@ == joined_type_specifiers(parameters@, type_specifiers@, i as int),
        decreases parameters@.len() - i,
    {
        push_chars(&mut chars, &node_text(&parameters[i].0));
        if i < type_specifiers.len() {
            push_chars(&mut chars, &node_text(&type_specifiers[i]));
        } else {
            assert(chars@ + Seq::<char>::empty() =~= chars@);
        }
        push_chars(&mut chars, &node_text(&parameters[i].1));
        i += 1;
    }
    string_from_chars(chars.as_slice())
}

} // verus!
