//! Ranking: every candidate, the most preferred first.

use crate::candidate::{
    binary_lt, lemma_binary_lt_total, lemma_not_below_transitive, UnityDapBinary,
    UnityDapBinaryView,
};
use crate::text::lex_lt;
use vstd::multiset::{lemma_multiset_empty_len, Multiset};
use vstd::prelude::*;
use vstd::seq_lib::{to_multiset_build, to_multiset_insert, to_multiset_len, to_multiset_remove};

verus! {

/// No candidate stands before one that is above it.
pub open spec fn is_ranked(r: Seq<UnityDapBinaryView>) -> bool {
    forall|i: int, j: int| 0 <= i < j < r.len() ==> !binary_lt(#[trigger] r[i], #[trigger] r[j])
}

/// `r` holds exactly the candidates of `pool`, the most preferred first.
pub open spec fn is_ranking_of(r: Seq<UnityDapBinaryView>, pool: Seq<UnityDapBinaryView>) -> bool {
    is_ranked(r) && r.to_multiset() == pool.to_multiset()
}

/// The ranking of a pool of candidates. Every pool has one, and only one.
pub open spec fn ranking(pool: Seq<UnityDapBinaryView>) -> Seq<UnityDapBinaryView> {
    choose|r: Seq<UnityDapBinaryView>| is_ranking_of(r, pool)
}

/// The candidates that take part in a ranking: the remote one, if there is
/// one, and the local ones.
pub open spec fn pool_of(
    remote: Option<UnityDapBinaryView>,
    locals: Seq<UnityDapBinaryView>,
) -> Seq<UnityDapBinaryView> {
    match remote {
        Some(candidate) => locals.push(candidate),
        None => locals,
    }
}

/// Where a further candidate goes in a ranked sequence: behind all that are
/// above it.
pub open spec fn place_of(r: Seq<UnityDapBinaryView>, x: UnityDapBinaryView) -> int
    decreases r.len(),
{
    if r.len() == 0 || !binary_lt(x, r[0]) {
        0
    } else {
        1 + place_of(r.drop_first(), x)
    }
}

proof fn lemma_place_of(r: Seq<UnityDapBinaryView>, x: UnityDapBinaryView)
    ensures
        0 <= place_of(r, x) <= r.len(),
        forall|i: int| 0 <= i < place_of(r, x) ==> binary_lt(x, #[trigger] r[i]),
        place_of(r, x) < r.len() ==> !binary_lt(x, r[place_of(r, x)]),
    decreases r.len(),
{
    if r.len() == 0 || !binary_lt(x, r[0]) {
    } else {
        let rest = r.drop_first();
        lemma_place_of(rest, x);
        assert forall|i: int| 0 <= i < place_of(r, x) implies binary_lt(x, #[trigger] r[i]) by {
            if i > 0 {
                assert(r[i] == rest[i - 1]);
            }
        }
    }
}

/// Putting a candidate at its place keeps a ranked sequence ranked.
proof fn lemma_insert_keeps_ranked(r: Seq<UnityDapBinaryView>, x: UnityDapBinaryView, p: int)
    requires
        is_ranked(r),
        0 <= p <= r.len(),
        forall|i: int| 0 <= i < p ==> binary_lt(x, #[trigger] r[i]),
        p < r.len() ==> !binary_lt(x, r[p]),
    ensures
        is_ranked(r.insert(p, x)),
{
    let s = r.insert(p, x);
    assert forall|i: int, j: int| 0 <= i < j < s.len() implies !binary_lt(
        #[trigger] s[i],
        #[trigger] s[j],
    ) by {
        if j == p {
            // s[i] is above x
            assert(s[i] == r[i]);
            lemma_binary_lt_total(x, r[i]);
        } else if i == p {
            // s[j] lies at or behind the place of x
            assert(s[j] == r[j - 1]);
            if j - 1 > p {
                assert(!binary_lt(r[p], r[j - 1]));
            }
            lemma_binary_lt_total(r[p], r[p]);
            lemma_not_below_transitive(x, r[p], r[j - 1]);
        } else {
            let i0 = if i < p {
                i
            } else {
                i - 1
            };
            let j0 = if j < p {
                j
            } else {
                j - 1
            };
            assert(s[i] == r[i0]);
            assert(s[j] == r[j0]);
        }
    }
}

/// Every pool of candidates has a ranking.
pub proof fn lemma_ranking_exists(pool: Seq<UnityDapBinaryView>) -> (r: Seq<UnityDapBinaryView>)
    ensures
        is_ranking_of(r, pool),
    decreases pool.len(),
{
    if pool.len() == 0 {
        pool
    } else {
        let shorter = lemma_ranking_exists(pool.drop_last());
        let x = pool.last();
        let p = place_of(shorter, x);
        lemma_place_of(shorter, x);
        lemma_insert_keeps_ranked(shorter, x, p);
        to_multiset_insert(shorter, p, x);
        to_multiset_build(pool.drop_last(), x);
        assert(pool.drop_last().push(x) =~= pool);
        shorter.insert(p, x)
    }
}

/// Two ranked sequences that hold the same candidates are the same sequence.
pub proof fn lemma_ranking_unique(a: Seq<UnityDapBinaryView>, b: Seq<UnityDapBinaryView>)
    requires
        is_ranked(a),
        is_ranked(b),
        a.to_multiset() == b.to_multiset(),
    ensures
        a == b,
    decreases a.len(),
{
    to_multiset_len(a);
    to_multiset_len(b);
    if a.len() == 0 {
        assert(a =~= b);
    } else {
        lemma_heads_agree(a, b);
        lemma_heads_agree(b, a);
        lemma_binary_lt_total(a[0], b[0]);
        assert(a[0] == b[0]);
        to_multiset_remove(a, 0);
        to_multiset_remove(b, 0);
        assert(a.remove(0) =~= a.drop_first());
        assert(b.remove(0) =~= b.drop_first());
        assert forall|i: int, j: int| 0 <= i < j < a.drop_first().len() implies !binary_lt(
            #[trigger] a.drop_first()[i],
            #[trigger] a.drop_first()[j],
        ) by {
            assert(a.drop_first()[i] == a[i + 1]);
            assert(a.drop_first()[j] == a[j + 1]);
        }
        assert forall|i: int, j: int| 0 <= i < j < b.drop_first().len() implies !binary_lt(
            #[trigger] b.drop_first()[i],
            #[trigger] b.drop_first()[j],
        ) by {
            assert(b.drop_first()[i] == b[i + 1]);
            assert(b.drop_first()[j] == b[j + 1]);
        }
        lemma_ranking_unique(a.drop_first(), b.drop_first());
        assert(a =~= seq![a[0]] + a.drop_first());
        assert(b =~= seq![b[0]] + b.drop_first());
    }
}

/// The head of a ranked sequence is not below the head of any sequence with
/// the same candidates.
proof fn lemma_heads_agree(a: Seq<UnityDapBinaryView>, b: Seq<UnityDapBinaryView>)
    requires
        is_ranked(a),
        a.to_multiset() == b.to_multiset(),
        a.len() > 0,
        b.len() > 0,
    ensures
        !binary_lt(a[0], b[0]),
{
    a.to_multiset_ensures();
    b.to_multiset_ensures();
    assert(b.contains(b[0]));
    assert(b.to_multiset().count(b[0]) > 0);
    assert(a.contains(b[0]));
    let k = choose|k: int| 0 <= k < a.len() && a[k] == b[0];
    if k == 0 {
        lemma_binary_lt_total(a[0], b[0]);
    } else {
        assert(!binary_lt(a[0], a[k]));
    }
}

/// The ranking of a pool is ranked, holds exactly the candidates of the
/// pool, and is the only sequence of which both are true.
pub proof fn lemma_ranking_is_the_ranking(pool: Seq<UnityDapBinaryView>)
    ensures
        is_ranking_of(ranking(pool), pool),
        forall|r: Seq<UnityDapBinaryView>| is_ranking_of(r, pool) ==> r == ranking(pool),
{
    let witness = lemma_ranking_exists(pool);
    assert forall|r: Seq<UnityDapBinaryView>| is_ranking_of(r, pool) implies r == ranking(
        pool,
    ) by {
        lemma_ranking_unique(r, ranking(pool));
    }
}

/// Ranking does not depend on the order in which the candidates are handed
/// in: two pools that hold the same candidates, each as often as the other,
/// have the same ranking.
pub proof fn lemma_ranking_ignores_input_order(
    first: Seq<UnityDapBinaryView>,
    second: Seq<UnityDapBinaryView>,
)
    requires
        first.to_multiset() == second.to_multiset(),
    ensures
        ranking(first) == ranking(second),
{
    lemma_ranking_is_the_ranking(first);
    lemma_ranking_is_the_ranking(second);
    lemma_ranking_unique(ranking(first), ranking(second));
}

/// The order of a ranking is total: of two different candidates in it, the one
/// that is above the other stands first, wherever they stood in the pool.
pub proof fn lemma_ranking_is_descending(pool: Seq<UnityDapBinaryView>, i: int, j: int)
    requires
        0 <= i < ranking(pool).len(),
        0 <= j < ranking(pool).len(),
        binary_lt(ranking(pool)[j], ranking(pool)[i]),
    ensures
        i < j,
{
    lemma_ranking_is_the_ranking(pool);
    let r = ranking(pool);
    lemma_binary_lt_total(r[i], r[j]);
    if j < i {
        assert(!binary_lt(r[j], r[i]));
    }
}

/// In a ranking the directory names never ascend: no candidate stands before
/// one whose name comes later in dictionary order.
pub proof fn lemma_ranking_descends_by_name(pool: Seq<UnityDapBinaryView>, i: int, j: int)
    requires
        0 <= i < j < ranking(pool).len(),
    ensures
        !lex_lt(ranking(pool)[i].dir_name, ranking(pool)[j].dir_name),
{
    lemma_ranking_is_the_ranking(pool);
    assert(!binary_lt(ranking(pool)[i], ranking(pool)[j]));
}

/// In a ranking a local candidate stands before a remote candidate of the
/// same directory name.
pub proof fn lemma_local_before_remote(pool: Seq<UnityDapBinaryView>, i: int, j: int)
    requires
        0 <= i < ranking(pool).len(),
        0 <= j < ranking(pool).len(),
        ranking(pool)[i].dir_name == ranking(pool)[j].dir_name,
        ranking(pool)[i].source is Local,
        ranking(pool)[j].source is Github,
    ensures
        i < j,
{
    lemma_ranking_is_descending(pool, i, j);
}

proof fn lemma_multiset_of_nothing(s: Seq<UnityDapBinaryView>)
    requires
        s.len() == 0,
    ensures
        s.to_multiset() == Multiset::<UnityDapBinaryView>::empty(),
{
    to_multiset_len(s);
    lemma_multiset_empty_len(s.to_multiset());
}

/// Ranks the remote candidate, if there is one, together with the local ones:
/// descending by directory name, and of two candidates with the same name
/// the local one first.
pub fn rank(remote: Option<UnityDapBinary>, locals: Vec<UnityDapBinary>) -> (r: Vec<
    UnityDapBinary,
>)
    ensures
        is_ranking_of(r.deep_view(), pool_of(remote.deep_view(), locals.deep_view())),
        r.deep_view() == ranking(pool_of(remote.deep_view(), locals.deep_view())),
{
    let ghost pool = pool_of(remote.deep_view(), locals.deep_view());
    let mut waiting = locals;
    if let Some(candidate) = remote {
        waiting.push(candidate);
    }
    let mut ranked: Vec<UnityDapBinary> = Vec::new();
    proof {
        assert(waiting.deep_view() =~= pool);
        assert(ranked.deep_view() =~= Seq::empty());
        lemma_multiset_of_nothing(ranked.deep_view());
        assert(Multiset::empty().add(pool.to_multiset()) =~= pool.to_multiset());
    }
    while waiting.len() > 0
        invariant
            is_ranked(ranked.deep_view()),
            ranked.deep_view().to_multiset().add(waiting.deep_view().to_multiset())
                == pool.to_multiset(),
        decreases waiting.len(),
    {
        let ghost before = ranked.deep_view();
        let ghost rest = waiting.deep_view();
        let candidate = waiting.pop().unwrap();
        let place = place_in(&ranked, &candidate);
        ranked.insert(place, candidate);
        proof {
            assert(waiting.deep_view() =~= rest.drop_last());
            assert(ranked.deep_view() =~= before.insert(place as int, candidate@));
            lemma_insert_keeps_ranked(before, candidate@, place as int);
            to_multiset_insert(before, place as int, candidate@);
            to_multiset_build(rest.drop_last(), candidate@);
            assert(rest.drop_last().push(candidate@) =~= rest);
            assert(before.to_multiset().insert(candidate@).add(rest.drop_last().to_multiset())
                =~= before.to_multiset().add(rest.drop_last().to_multiset().insert(candidate@)));
        }
    }
    proof {
        lemma_multiset_of_nothing(waiting.deep_view());
        assert(ranked.deep_view().to_multiset().add(Multiset::empty())
            =~= ranked.deep_view().to_multiset());
        lemma_ranking_is_the_ranking(pool);
    }
    ranked
}

/// Finds where `candidate` goes in `ranked`: behind all that are above it.
fn place_in(ranked: &Vec<UnityDapBinary>, candidate: &UnityDapBinary) -> (place: usize)
    ensures
        place <= ranked.len(),
        forall|i: int| 0 <= i < place ==> binary_lt(candidate@, #[trigger] ranked.deep_view()[i]),
        place < ranked.len() ==> !binary_lt(candidate@, ranked.deep_view()[place as int]),
{
    let mut place: usize = 0;
    while place < ranked.len() && candidate.is_below(&ranked[place])
        invariant
            place <= ranked.len(),
            forall|i: int|
                0 <= i < place ==> binary_lt(candidate@, #[trigger] ranked.deep_view()[i]),
        decreases ranked.len() - place,
    {
        place = place + 1;
    }
    place
}

} // verus!
