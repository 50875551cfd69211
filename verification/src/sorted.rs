//! Transfers in the order of their tokens' identifiers.

use crate::rune::{id_le, Edict};
use vstd::prelude::*;

verus! {

/// Whether the identifiers of `edicts` never descend.
pub open spec fn ordered(edicts: Seq<Edict>) -> bool {
    forall|i: int, j: int| 0 <= i < j < edicts.len() ==> id_le(edicts[i].id, edicts[j].id)
}

/// Where `edict` goes into `edicts`: behind the last transfer whose
/// identifier does not come after its own.
pub open spec fn insert_position(edicts: Seq<Edict>, edict: Edict) -> int
    decreases edicts.len(),
{
    if edicts.len() == 0 || id_le(edicts.last().id, edict.id) {
        edicts.len() as int
    } else {
        insert_position(edicts.drop_last(), edict)
    }
}

/// `edicts` in the order of their identifiers; transfers of one token keep
/// the order in which they stand.
pub open spec fn sorted_by_id(edicts: Seq<Edict>) -> Seq<Edict>
    decreases edicts.len(),
{
    if edicts.len() == 0 {
        Seq::empty()
    } else {
        let front = sorted_by_id(edicts.drop_last());
        front.insert(insert_position(front, edicts.last()), edicts.last())
    }
}

/// The position lies within the sequence, no transfer from it on has an
/// identifier that the new one's follows or equals, and the one before it
/// has.
pub proof fn lemma_insert_position(edicts: Seq<Edict>, edict: Edict)
    ensures
        0 <= insert_position(edicts, edict) <= edicts.len(),
        forall|j: int|
            insert_position(edicts, edict) <= j < edicts.len() ==> !id_le(
                (#[trigger] edicts[j]).id,
                edict.id,
            ),
        insert_position(edicts, edict) > 0 ==> id_le(
            edicts[insert_position(edicts, edict) - 1].id,
            edict.id,
        ),
    decreases edicts.len(),
{
    if !(edicts.len() == 0 || id_le(edicts.last().id, edict.id)) {
        lemma_insert_position(edicts.drop_last(), edict);
        let p = insert_position(edicts.drop_last(), edict);
        assert forall|j: int| p <= j < edicts.len() implies !id_le(
            (#[trigger] edicts[j]).id,
            edict.id,
        ) by {
            if j < edicts.len() - 1 {
                assert(edicts.drop_last()[j] == edicts[j]);
            }
        }
        if p > 0 {
            assert(edicts.drop_last()[p - 1] == edicts[p - 1]);
        }
    }
}

/// A position with the properties of `insert_position` is that position.
pub proof fn lemma_insert_position_unique(edicts: Seq<Edict>, edict: Edict, at: int)
    requires
        0 <= at <= edicts.len(),
        forall|j: int| at <= j < edicts.len() ==> !id_le((#[trigger] edicts[j]).id, edict.id),
        at > 0 ==> id_le(edicts[at - 1].id, edict.id),
    ensures
        insert_position(edicts, edict) == at,
    decreases edicts.len(),
{
    if edicts.len() > 0 {
        if id_le(edicts.last().id, edict.id) {
            assert(at == edicts.len()) by {
                if at < edicts.len() {
                    assert(!id_le(edicts[edicts.len() - 1].id, edict.id));
                }
            }
        } else {
            assert(at < edicts.len());
            assert forall|j: int| at <= j < edicts.drop_last().len() implies !id_le(
                (#[trigger] edicts.drop_last()[j]).id,
                edict.id,
            ) by {
                assert(edicts.drop_last()[j] == edicts[j]);
            }
            if at > 0 {
                assert(edicts.drop_last()[at - 1] == edicts[at - 1]);
            }
            lemma_insert_position_unique(edicts.drop_last(), edict, at);
        }
    }
}

/// Inserting a transfer at its position keeps an ordered sequence ordered.
pub proof fn lemma_insert_keeps_order(edicts: Seq<Edict>, edict: Edict)
    requires
        ordered(edicts),
    ensures
        ordered(edicts.insert(insert_position(edicts, edict), edict)),
{
    lemma_insert_position(edicts, edict);
    let p = insert_position(edicts, edict);
    let after = edicts.insert(p, edict);
    assert forall|i: int, j: int| 0 <= i < j < after.len() implies id_le(
        after[i].id,
        after[j].id,
    ) by {
        if i < p && j == p {
            assert(id_le(edicts[p - 1].id, edict.id));
            assert(after[i] == edicts[i]);
            if i < p - 1 {
                assert(id_le(edicts[i].id, edicts[p - 1].id));
            }
        } else if i == p {
            assert(after[j] == edicts[j - 1]);
            assert(!id_le(edicts[j - 1].id, edict.id));
        } else if j < p {
            assert(after[i] == edicts[i] && after[j] == edicts[j]);
        } else if i < p {
            assert(after[i] == edicts[i] && after[j] == edicts[j - 1]);
        } else {
            assert(after[i] == edicts[i - 1] && after[j] == edicts[j - 1]);
        }
    }
}

/// The sorted transfers are ordered, and as many as were given.
pub proof fn lemma_sorted_is_ordered(edicts: Seq<Edict>)
    ensures
        ordered(sorted_by_id(edicts)),
        sorted_by_id(edicts).len() == edicts.len(),
    decreases edicts.len(),
{
    if edicts.len() > 0 {
        lemma_sorted_is_ordered(edicts.drop_last());
        lemma_insert_position(sorted_by_id(edicts.drop_last()), edicts.last());
        lemma_insert_keeps_order(sorted_by_id(edicts.drop_last()), edicts.last());
    }
}

/// Sorting keeps every transfer, as often as it was given.
pub proof fn lemma_sorted_is_permutation(edicts: Seq<Edict>)
    ensures
        sorted_by_id(edicts).to_multiset() == edicts.to_multiset(),
    decreases edicts.len(),
{
    broadcast use vstd::seq_lib::group_to_multiset_ensures;

    if edicts.len() > 0 {
        let front = sorted_by_id(edicts.drop_last());
        let last = edicts.last();
        lemma_sorted_is_permutation(edicts.drop_last());
        lemma_insert_position(front, last);
        assert(edicts.drop_last().push(last) =~= edicts);
        assert(front.insert(insert_position(front, last), last).to_multiset()
            =~= front.to_multiset().insert(last));
    } else {
        assert(sorted_by_id(edicts) =~= edicts);
    }
}

/// Puts `edict` into `sorted` at its position.
pub fn insert_edict(sorted: &mut Vec<Edict>, edict: Edict)
    ensures
        final(sorted)@ == old(sorted)@.insert(insert_position(old(sorted)@, edict), edict),
{
    let mut at: usize = sorted.len();
    while at > 0 && !sorted[at - 1].id.precedes(edict.id)
        invariant
            at <= sorted@.len(),
            sorted@ == old(sorted)@,
            forall|j: int| at <= j < sorted@.len() ==> !id_le((#[trigger] sorted@[j]).id, edict.id),
        decreases at,
    {
        at = at - 1;
    }
    proof {
        lemma_insert_position_unique(sorted@, edict, at as int);
    }
    sorted.insert(at, edict);
}

/// `edicts` in the order of their identifiers.
pub fn sort_edicts(edicts: &Vec<Edict>) -> (r: Vec<Edict>)
    ensures
        r@ == sorted_by_id(edicts@),
{
    let mut sorted: Vec<Edict> = Vec::new();
    let mut i: usize = 0;
    assert(edicts@.take(0) =~= Seq::<Edict>::empty());
    while i < edicts.len()
        invariant
            i <= edicts@.len(),
            sorted@ == sorted_by_id(edicts@.take(i as int)),
        decreases edicts@.len() - i,
    {
        assert(edicts@.take(i + 1).drop_last() =~= edicts@.take(i as int));
        assert(edicts@.take(i + 1).last() == edicts@[i as int]);
        insert_edict(&mut sorted, edicts[i]);
        i = i + 1;
    }
    assert(edicts@.take(edicts@.len() as int) =~= edicts@);
    sorted
}

} // verus!
