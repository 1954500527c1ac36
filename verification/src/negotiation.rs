//! Negotiation: choosing the first of the algorithms that a peer accepts
//! which the registry holds.
//!
//! The peer's order of preference alone decides. A name that the registry
//! does not hold is passed over. The identity is never chosen: it is what
//! remains when nothing is.

use crate::compressor::IDENTITY;
use crate::list::{candidates, is_item, lemma_candidates_of_written, texts, written};
use crate::registry::{Entry, Registry};
use crate::text::str_eq;
use vstd::prelude::*;

verus! {

/// Whether `name` can be chosen: it is not the identity, and it is one of
/// `known`.
pub open spec fn eligible(name: Seq<char>, known: Seq<Seq<char>>) -> bool {
    name != IDENTITY@ && known.contains(name)
}

/// The first of `accepted` that can be chosen.
pub open spec fn first_supported(accepted: Seq<Seq<char>>, known: Seq<Seq<char>>) -> Option<
    Seq<char>,
>
    decreases accepted.len(),
{
    if accepted.len() == 0 {
        None
    } else if eligible(accepted.first(), known) {
        Some(accepted.first())
    } else {
        first_supported(accepted.drop_first(), known)
    }
}

/// The entry of `registry` that the names `accepted` select, if any.
pub open spec fn selection(registry: &Registry, accepted: Seq<Seq<char>>) -> Option<Entry> {
    match first_supported(accepted, registry.names()) {
        Some(name) => registry.lookup(name),
        None => None,
    }
}

/// The entry of `registry` that a peer selects with the list `accept_encoding`.
pub open spec fn negotiated(registry: &Registry, accept_encoding: Seq<char>) -> Option<Entry> {
    selection(registry, candidates(accept_encoding))
}

/// The first of the names `accepted`, the identity aside, that `registry`
/// holds.
pub fn first_supported_compressor<'a>(registry: &'a Registry, accepted: &Vec<&str>) -> (chosen:
    Option<&'a Entry>)
    ensures
        match chosen {
            Some(entry) => selection(registry, texts(accepted@)) == Some(*entry),
            None => selection(registry, texts(accepted@)) is None,
        },
{
    let ghost names = texts(accepted@);
    let mut i: usize = 0;
    assert(names.skip(0) == names);
    while i < accepted.len()
        invariant
            i <= accepted.len(),
            names == texts(accepted@),
            first_supported(names, registry.names()) == first_supported(
                names.skip(i as int),
                registry.names(),
            ),
        decreases accepted.len() - i,
    {
        let name = accepted[i];
        assert(names.skip(i as int).drop_first() == names.skip(i + 1));
        proof {
            registry.lemma_lookup(name@);
        }
        if !str_eq(name, IDENTITY) {
            let found = registry.get(name);
            if found.is_some() {
                return found;
            }
        }
        i = i + 1;
    }
    None
}

/// Whether `i` is the place of the first of `accepted` that can be chosen.
pub open spec fn is_first_eligible(accepted: Seq<Seq<char>>, known: Seq<Seq<char>>, i: int) -> bool {
    &&& 0 <= i < accepted.len()
    &&& eligible(accepted[i], known)
    &&& forall|j: int| 0 <= j < i ==> !eligible(#[trigger] accepted[j], known)
}

/// The choice goes by the order of the list alone: `first_supported` gives
/// the first name of `accepted` that is not the identity and is one of
/// `known`, and nothing exactly when `accepted` holds no such name.
pub proof fn lemma_first_supported(accepted: Seq<Seq<char>>, known: Seq<Seq<char>>)
    ensures
        match first_supported(accepted, known) {
            Some(name) => exists|i: int| #[trigger]
                is_first_eligible(accepted, known, i) && accepted[i] == name,
            None => forall|i: int| 0 <= i < accepted.len() ==> !eligible(#[trigger] accepted[i], known),
        },
    decreases accepted.len(),
{
    if accepted.len() == 0 {
    } else if eligible(accepted.first(), known) {
        assert(is_first_eligible(accepted, known, 0));
    } else {
        let rest = accepted.drop_first();
        lemma_first_supported(rest, known);
        match first_supported(rest, known) {
            Some(name) => {
                let i = choose|i: int| #[trigger]
                    is_first_eligible(rest, known, i) && rest[i] == name;
                assert forall|j: int| 0 <= j < i + 1 implies !eligible(
                    #[trigger] accepted[j],
                    known,
                ) by {
                    if j > 0 {
                        assert(accepted[j] == rest[j - 1]);
                    }
                }
                assert(is_first_eligible(accepted, known, i + 1));
            },
            None => {
                assert forall|i: int| 0 <= i < accepted.len() implies !eligible(
                    #[trigger] accepted[i],
                    known,
                ) by {
                    if i > 0 {
                        assert(accepted[i] == rest[i - 1]);
                    }
                }
            },
        }
    }
}

/// A peer selects the first name of its list, the identity aside, under
/// which `registry` holds an algorithm, and the entry of that name; it
/// selects nothing exactly when its list holds no such name.
pub proof fn lemma_negotiated(registry: &Registry, accept_encoding: Seq<char>)
    ensures
        match negotiated(registry, accept_encoding) {
            Some(entry) => {
                &&& registry.entries().contains(entry)
                &&& !entry.is_identity()
                &&& exists|i: int| #[trigger]
                    is_first_eligible(candidates(accept_encoding), registry.names(), i)
                        && candidates(accept_encoding)[i] == entry.name()@
            },
            None => forall|i: int|
                0 <= i < candidates(accept_encoding).len() ==> !eligible(
                    #[trigger] candidates(accept_encoding)[i],
                    registry.names(),
                ),
        },
{
    let accepted = candidates(accept_encoding);
    lemma_first_supported(accepted, registry.names());
    match first_supported(accepted, registry.names()) {
        Some(name) => {
            registry.lemma_lookup(name);
        },
        None => {},
    }
}

/// A peer that lists one registered name and nothing else selects the
/// algorithm of that name, unless it is the identity.
pub proof fn lemma_single_name(registry: &Registry, name: Seq<char>)
    requires
        registry.contains(name),
        name != IDENTITY@,
        is_item(name),
    ensures
        negotiated(registry, name) == registry.lookup(name),
{
    let none = Seq::<char>::empty();
    lemma_candidates_of_written(seq![name], seq![none], seq![none]);
    assert(written(seq![name], seq![none], seq![none]) == name);
}

} // verus!
