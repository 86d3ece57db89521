//! Sequence sets: unions of single values and inclusive ranges over
//! 1-based message positions or UIDs.
use vstd::prelude::*;

verus! {

/// One endpoint of a sequence clause: a concrete positive value, or `*`.
#[derive(Clone, Copy, Debug, PartialEq, Eq, Structural)]
pub enum SeqOrUid {
    Value(u32),
    Asterisk,
}

/// One clause of a sequence set.
#[derive(Clone, Copy, Debug, PartialEq, Eq, Structural)]
pub enum Sequence {
    Single(SeqOrUid),
    Range(SeqOrUid, SeqOrUid),
}

/// Does the clause admit `id`, where `max` is the highest identifier
/// present? A lone `*` stands for `max`; a wildcard endpoint satisfies its
/// side of a range; two concrete endpoints may come in either order.
pub open spec fn clause_matches(c: Sequence, id: int, max: int) -> bool {
    match c {
        Sequence::Single(SeqOrUid::Asterisk) => id == max,
        Sequence::Single(SeqOrUid::Value(v)) => id == v,
        Sequence::Range(SeqOrUid::Asterisk, SeqOrUid::Asterisk) => true,
        Sequence::Range(SeqOrUid::Asterisk, SeqOrUid::Value(e)) => id <= e,
        Sequence::Range(SeqOrUid::Value(s), SeqOrUid::Asterisk) => s <= id,
        Sequence::Range(SeqOrUid::Value(s), SeqOrUid::Value(e)) => (s <= id && id <= e) || (e <= id
            && id <= s),
    }
}

/// A sequence set admits `id` when one of its clauses does.
pub open spec fn set_matches(set: Seq<Sequence>, id: int, max: int) -> bool {
    exists|i: int| 0 <= i < set.len() && clause_matches(#[trigger] set[i], id, max)
}

/// The positions in `1..=bound` that a clause lists, written out as
/// intervals, where `max` is the highest identifier present.
pub open spec fn clause_members(c: Sequence, bound: int, max: int) -> Set<int> {
    let (lo, hi) = match c {
        Sequence::Single(SeqOrUid::Asterisk) => (max, max),
        Sequence::Single(SeqOrUid::Value(v)) => (v as int, v as int),
        Sequence::Range(SeqOrUid::Asterisk, SeqOrUid::Asterisk) => (1, bound),
        Sequence::Range(SeqOrUid::Asterisk, SeqOrUid::Value(e)) => (1, e as int),
        Sequence::Range(SeqOrUid::Value(s), SeqOrUid::Asterisk) => (s as int, bound),
        Sequence::Range(SeqOrUid::Value(s), SeqOrUid::Value(e)) => if s <= e {
            (s as int, e as int)
        } else {
            (e as int, s as int)
        },
    };
    Set::new(|x: int| 1 <= x <= bound && lo <= x <= hi)
}

/// The positions in `1..=bound` that a sequence set lists, clause by clause.
pub open spec fn enumerate(set: Seq<Sequence>, bound: int, max: int) -> Set<int>
    decreases set.len(),
{
    if set.len() == 0 {
        Set::empty()
    } else {
        enumerate(set.drop_last(), bound, max).union(clause_members(set.last(), bound, max))
    }
}

/// Does `set` admit `id`, where `max` is the highest identifier present?
pub fn matches(set: &Vec<Sequence>, id: u32, max: u32) -> (r: bool)
    ensures
        r == set_matches(set@, id as int, max as int),
{
    let mut i: usize = 0;
    while i < set.len()
        invariant
            i <= set@.len(),
            forall|j: int| 0 <= j < i ==> !clause_matches(#[trigger] set@[j], id as int, max as int),
        decreases set.len() - i,
    {
        let hit = match set[i] {
            Sequence::Single(SeqOrUid::Asterisk) => id == max,
            Sequence::Single(SeqOrUid::Value(v)) => v == id,
            Sequence::Range(start, end) => {
                match (start, end) {
                    (SeqOrUid::Asterisk, SeqOrUid::Asterisk) => true,
                    (SeqOrUid::Asterisk, SeqOrUid::Value(e)) => id <= e,
                    (SeqOrUid::Value(s), SeqOrUid::Asterisk) => s <= id,
                    (SeqOrUid::Value(s), SeqOrUid::Value(e)) => (s <= id && id <= e) || (e <= id
                        && id <= s),
                }
            },
        };
        if hit {
            assert(clause_matches(set@[i as int], id as int, max as int));
            return true;
        }
        i = i + 1;
    }
    false
}

/// Matching agrees with naive enumeration: for every position `p` in
/// `1..=bound`, a sequence set admits `p` exactly when `p` is among the
/// positions its clauses list.
pub proof fn lemma_matches_enumeration(set: Seq<Sequence>, bound: int, max: int, p: int)
    requires
        1 <= p <= bound,
    ensures
        set_matches(set, p, max) <==> enumerate(set, bound, max).contains(p),
    decreases set.len(),
{
    if set.len() > 0 {
        let init = set.drop_last();
        lemma_matches_enumeration(init, bound, max, p);
        if set_matches(set, p, max) {
            let i = choose|i: int| 0 <= i < set.len() && clause_matches(#[trigger] set[i], p, max);
            if i < set.len() - 1 {
                assert(init[i] == set[i]);
            }
        }
        if set_matches(init, p, max) {
            let i = choose|i: int| 0 <= i < init.len() && clause_matches(#[trigger] init[i], p, max);
            assert(set[i] == init[i]);
        }
        if clause_matches(set.last(), p, max) {
            assert(clause_matches(set[set.len() - 1], p, max));
        }
    }
}

/// A wildcard endpoint always satisfies its side of a range: `*:e` admits
/// every identifier up to `e`, and `s:*` every one from `s` on; a lone `*`
/// admits the highest identifier present and no other.
pub proof fn lemma_wildcard_sides(s: u32, e: u32, p: int, max: int)
    ensures
        p <= e ==> clause_matches(Sequence::Range(SeqOrUid::Asterisk, SeqOrUid::Value(e)), p, max),
        s <= p ==> clause_matches(Sequence::Range(SeqOrUid::Value(s), SeqOrUid::Asterisk), p, max),
        clause_matches(Sequence::Range(SeqOrUid::Asterisk, SeqOrUid::Asterisk), p, max),
        clause_matches(Sequence::Single(SeqOrUid::Asterisk), p, max) <==> p == max,
{
}

} // verus!
