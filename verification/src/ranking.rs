//! The order of search results: best score first, and among equal scores the
//! older post first.

use vstd::prelude::*;

use crate::error::Error;

verus! {

/// The greatest bits that a score can have: those of infinity. Above them
/// stand what is no number and the negative numbers, which are no scores.
pub const MAX_SCORE: u32 = 0x7F80_0000;

/// A post that a search found, with the score that the search gave it.
///
/// The score is held as the bits of a 32-bit float. Of two scores that are
/// not negative, the greater one has the greater bits, so scores are
/// compared as numbers. A hit that is made of a match has such a score.
#[derive(Debug, Clone, Copy, PartialEq, Eq, Structural)]
pub struct Hit {
    pub score: u32,
    pub post_id: u32,
}

/// Whether `a` may stand before `b` in a ranking: it has the better score,
/// or the same score and not the greater id. Ids grow with time, so among
/// equal scores the post that was indexed earlier stands first.
pub open spec fn ranks_before(a: Hit, b: Hit) -> bool {
    a.score > b.score || (a.score == b.score && a.post_id <= b.post_id)
}

/// Whether a run of hits is a ranking: every hit may stand before all that follow it.
pub open spec fn ranked(hits: Seq<Hit>) -> bool {
    forall|i: int, j: int| 0 <= i < j < hits.len() ==> ranks_before(#[trigger] hits[i], #[trigger] hits[j])
}

/// The post ids of a run of hits.
pub open spec fn post_ids_of(hits: Seq<Hit>) -> Seq<u32> {
    hits.map_values(|h: Hit| h.post_id)
}

/// Whether `a` may stand before `b` in a ranking.
pub fn may_precede(a: &Hit, b: &Hit) -> (r: bool)
    ensures
        r == ranks_before(*a, *b),
{
    a.score > b.score || (a.score == b.score && a.post_id <= b.post_id)
}

/// The ranking of a run of hits: the same hits, best score first, equal
/// scores by id. There is one and only one.
pub open spec fn ranking_of(hits: Seq<Hit>) -> Seq<Hit> {
    choose|r: Seq<Hit>| ranked(r) && r.to_multiset() == hits.to_multiset()
}

/// Ranks hits: the same hits, best score first, equal scores by id.
pub fn rank(hits: &Vec<Hit>) -> (r: Vec<Hit>)
    ensures
        ranked(r@),
        r@.to_multiset() == hits@.to_multiset(),
        r@ == ranking_of(hits@),
{
    let mut out: Vec<Hit> = Vec::new();
    let mut i: usize = 0;
    proof {
        assert(hits@.take(0) =~= out@);
    }
    while i < hits.len()
        invariant
            i <= hits.len(),
            ranked(out@),
            out@.to_multiset() == hits@.take(i as int).to_multiset(),
        decreases hits.len() - i,
    {
        let hit = hits[i];
        let mut p: usize = 0;
        while p < out.len() && may_precede(&out[p], &hit)
            invariant
                p <= out.len(),
                forall|k: int| 0 <= k < p ==> ranks_before(#[trigger] out@[k], hit),
            decreases out.len() - p,
        {
            p += 1;
        }
        let ghost before = out@;
        out.insert(p, hit);
        proof {
            assert forall|a: int, b: int| 0 <= a < b < out@.len() implies ranks_before(
                #[trigger] out@[a],
                #[trigger] out@[b],
            ) by {
                if b < p {
                    assert(out@[a] == before[a] && out@[b] == before[b]);
                } else if b == p {
                    assert(out@[a] == before[a]);
                } else if a < p {
                    assert(out@[a] == before[a] && out@[b] == before[b - 1]);
                } else if a == p {
                    assert(out@[b] == before[b - 1]);
                    assert(!ranks_before(before[p as int], hit));
                    if p < b - 1 {
                        assert(ranks_before(before[p as int], before[b - 1]));
                    }
                } else {
                    assert(out@[a] == before[a - 1] && out@[b] == before[b - 1]);
                }
            }
            assert(out@.remove(p as int) =~= before);
            vstd::seq_lib::to_multiset_remove(out@, p as int);
            assert(out@.to_multiset().count(hit) > 0) by {
                out@.to_multiset_ensures();
                assert(out@[p as int] == hit);
                assert(out@.contains(hit));
            }
            assert(out@.to_multiset() =~= before.to_multiset().insert(hit));
            assert(hits@.take(i + 1) =~= hits@.take(i as int).push(hit));
            vstd::seq_lib::to_multiset_build(hits@.take(i as int), hit);
        }
        i += 1;
    }
    proof {
        assert(hits@.take(i as int) =~= hits@);
        ranking_is_unique(out@, ranking_of(hits@));
    }
    out
}

/// The post ids of a run of hits, in the order of the hits.
pub fn post_ids(hits: &Vec<Hit>) -> (r: Vec<u32>)
    ensures
        r@ == post_ids_of(hits@),
{
    let mut ids: Vec<u32> = Vec::new();
    let mut i: usize = 0;
    while i < hits.len()
        invariant
            i <= hits.len(),
            ids@ == post_ids_of(hits@.take(i as int)),
        decreases hits.len() - i,
    {
        ids.push(hits[i].post_id);
        proof {
            assert(post_ids_of(hits@.take(i + 1)) =~= post_ids_of(hits@.take(i as int)).push(
                hits@[i as int].post_id,
            ));
        }
        i += 1;
    }
    proof {
        assert(hits@.take(i as int) =~= hits@);
    }
    ids
}

/// What the search engine returned for one match: the score, as the bits of
/// a 32-bit float, and the number that the matching entry stores as its post
/// id, if it stores one.
#[derive(Debug, Clone, Copy, PartialEq, Eq, Structural)]
pub struct Found {
    pub score: u32,
    pub stored: Option<u64>,
}

/// The hit that a match stands for: `None` where the entry stores no number
/// or one that is no post id, and where the score is negative or no number.
/// Such a match is a fault of the index.
pub open spec fn hit_of(found: Found) -> Option<Hit> {
    match found.stored {
        Some(id) => if id <= u32::MAX && found.score <= MAX_SCORE {
            Some(Hit { score: found.score, post_id: id as u32 })
        } else {
            None
        },
        None => None,
    }
}

/// Whether every match stands for a hit.
pub open spec fn all_name_posts(found: Seq<Found>) -> bool {
    forall|i: int| 0 <= i < found.len() ==> hit_of(#[trigger] found[i]) is Some
}

/// The hits that a run of matches stands for, where every match stands for one.
pub open spec fn hits_of(found: Seq<Found>) -> Seq<Hit> {
    found.map_values(|f: Found| hit_of(f)->Some_0)
}

/// The hit that a match stands for.
pub fn to_hit(found: &Found) -> (r: Option<Hit>)
    ensures
        r == hit_of(*found),
{
    match found.stored {
        Some(id) => if id <= u32::MAX as u64 && found.score <= MAX_SCORE {
            Some(Hit { score: found.score, post_id: id as u32 })
        } else {
            None
        },
        None => None,
    }
}

/// A run of ids without its repeats: of every id only the first stays.
pub open spec fn without_repeats(ids: Seq<u32>) -> Seq<u32>
    decreases ids.len(),
{
    if ids.len() == 0 {
        Seq::empty()
    } else {
        let rest = without_repeats(ids.drop_last());
        if rest.contains(ids.last()) {
            rest
        } else {
            rest.push(ids.last())
        }
    }
}

/// A run without its repeats holds no id twice, holds the ids of the run
/// and no others, and is no longer than the run.
pub proof fn without_repeats_is_distinct(ids: Seq<u32>)
    ensures
        without_repeats(ids).no_duplicates(),
        without_repeats(ids).len() <= ids.len(),
        forall|id: u32| without_repeats(ids).contains(id) <==> ids.contains(id),
    decreases ids.len(),
{
    let out = without_repeats(ids);
    if ids.len() > 0 {
        let front = ids.drop_last();
        let rest = without_repeats(front);
        without_repeats_is_distinct(front);
        assert forall|id: u32| out.contains(id) <==> ids.contains(id) by {
            if out.contains(id) {
                let k = choose|k: int| 0 <= k < out.len() && out[k] == id;
                if k < rest.len() {
                    assert(rest[k] == id);
                    assert(rest.contains(id));
                    assert(without_repeats(front).contains(id) <==> front.contains(id));
                    let j = choose|j: int| 0 <= j < front.len() && front[j] == id;
                    assert(ids[j] == id);
                } else {
                    assert(ids[ids.len() - 1] == id);
                }
            }
            if ids.contains(id) {
                let j = choose|j: int| 0 <= j < ids.len() && ids[j] == id;
                if j < front.len() {
                    assert(front[j] == id);
                    assert(front.contains(id));
                    assert(without_repeats(front).contains(id) <==> front.contains(id));
                    let k = choose|k: int| 0 <= k < rest.len() && rest[k] == id;
                    assert(out[k] == id);
                } else if rest.contains(id) {
                    let k = choose|k: int| 0 <= k < rest.len() && rest[k] == id;
                    assert(out[k] == id);
                } else {
                    assert(out[out.len() - 1] == id);
                }
            }
        }
        if !rest.contains(ids.last()) {
            assert forall|i: int, j: int| 0 <= i < out.len() && 0 <= j < out.len() && i != j implies out[i]
                != out[j] by {
                if i < rest.len() && j < rest.len() {
                    assert(rest[i] != rest[j]);
                } else if i < rest.len() {
                    assert(rest[i] == out[i]);
                } else {
                    assert(rest[j] == out[j]);
                }
            }
        }
    }
}

/// Drops the repeats of a run of ids: of every id only the first stays.
pub fn drop_repeats(ids: &Vec<u32>) -> (r: Vec<u32>)
    ensures
        r@ == without_repeats(ids@),
        r@.no_duplicates(),
        r@.len() <= ids@.len(),
{
    let mut out: Vec<u32> = Vec::new();
    let mut i: usize = 0;
    proof {
        assert(ids@.take(0) =~= Seq::<u32>::empty());
    }
    while i < ids.len()
        invariant
            i <= ids.len(),
            out@ == without_repeats(ids@.take(i as int)),
        decreases ids.len() - i,
    {
        let id = ids[i];
        let mut seen = false;
        let mut k: usize = 0;
        while k < out.len()
            invariant
                k <= out.len(),
                seen == exists|j: int| 0 <= j < k && out@[j] == id,
            decreases out.len() - k,
        {
            if out[k] == id {
                seen = true;
            }
            k += 1;
        }
        proof {
            assert(ids@.take(i + 1).drop_last() =~= ids@.take(i as int));
            assert(ids@.take(i + 1).last() == id);
            assert(seen == out@.contains(id));
        }
        if !seen {
            out.push(id);
        }
        i += 1;
    }
    proof {
        assert(ids@.take(i as int) =~= ids@);
        without_repeats_is_distinct(ids@);
    }
    out
}

/// The result of a search, given what the engine returned: the post ids of
/// the matches, ranked, each id once. Where a match names no post or has no
/// score the search fails.
pub open spec fn results_of(found: Seq<Found>) -> Result<Seq<u32>, Error> {
    if all_name_posts(found) {
        Ok(without_repeats(post_ids_of(ranking_of(hits_of(found)))))
    } else {
        Err(Error::SearchErr)
    }
}

/// Whether a result is what was to be returned: the same failure, or the same ids.
pub open spec fn is_result(r: Result<Vec<u32>, Error>, wanted: Result<Seq<u32>, Error>) -> bool {
    match wanted {
        Ok(ids) => r is Ok && r->Ok_0@ == ids,
        Err(e) => r == Err::<Vec<u32>, Error>(e),
    }
}

/// The result of a search, given what the engine returned: the post ids of
/// the matches, ranked, each id once. Where a match names no post the
/// search fails. Where the engine found nothing the result is empty, and no
/// failure.
pub fn results(found: &Vec<Found>) -> (r: Result<Vec<u32>, Error>)
    ensures
        is_result(r, results_of(found@)),
        r is Ok ==> r->Ok_0@.no_duplicates() && r->Ok_0@.len() <= found@.len(),
        found@.len() == 0 ==> r is Ok && r->Ok_0@.len() == 0,
{
    let mut hits: Vec<Hit> = Vec::new();
    let mut i: usize = 0;
    proof {
        assert(hits@ =~= hits_of(found@.take(0)));
    }
    while i < found.len()
        invariant
            i <= found.len(),
            all_name_posts(found@.take(i as int)),
            hits@ == hits_of(found@.take(i as int)),
        decreases found.len() - i,
    {
        proof {
            assert(found@.take(i + 1) =~= found@.take(i as int).push(found@[i as int]));
        }
        match to_hit(&found[i]) {
            Some(hit) => {
                hits.push(hit);
                proof {
                    assert forall|k: int| 0 <= k < i + 1 implies hit_of(
                        #[trigger] found@.take(i + 1)[k],
                    ) is Some by {
                        if k < i {
                            assert(found@.take(i + 1)[k] == found@.take(i as int)[k]);
                        }
                    }
                    assert(hits@ =~= hits_of(found@.take(i + 1)));
                }
            },
            None => {
                proof {
                    assert(hit_of(found@[i as int]) is None);
                }
                return Err(Error::SearchErr);
            },
        }
        i += 1;
    }
    proof {
        assert(found@.take(i as int) =~= found@);
    }
    let ranking = rank(&hits);
    proof {
        hits@.to_multiset_ensures();
        ranking@.to_multiset_ensures();
    }
    let ids = post_ids(&ranking);
    Ok(drop_repeats(&ids))
}

/// A ranking is decided by the hits in it: two rankings of the same hits are equal.
pub proof fn ranking_is_unique(a: Seq<Hit>, b: Seq<Hit>)
    requires
        ranked(a),
        ranked(b),
        a.to_multiset() == b.to_multiset(),
    ensures
        a == b,
    decreases a.len(),
{
    a.to_multiset_ensures();
    b.to_multiset_ensures();
    if a.len() > 0 {
        // The first hit of each ranking may stand before every hit of the
        // other one, itself included: the two are the same hit.
        let x = a[0];
        let y = b[0];
        assert(a.contains(x));
        assert(a.to_multiset().count(x) > 0);
        assert(b.to_multiset().count(x) > 0);
        assert(b.contains(x));
        assert(b.contains(y));
        assert(b.to_multiset().count(y) > 0);
        assert(a.to_multiset().count(y) > 0);
        assert(a.contains(y));
        let i = choose|i: int| 0 <= i < b.len() && b[i] == x;
        let j = choose|j: int| 0 <= j < a.len() && a[j] == y;
        if i > 0 {
            assert(ranks_before(b[0], b[i]));
        }
        if j > 0 {
            assert(ranks_before(a[0], a[j]));
        }
        assert(x == y);
        vstd::seq_lib::to_multiset_remove(a, 0);
        vstd::seq_lib::to_multiset_remove(b, 0);
        let ra = a.remove(0);
        let rb = b.remove(0);
        assert forall|p: int, q: int| 0 <= p < q < ra.len() implies ranks_before(
            #[trigger] ra[p],
            #[trigger] ra[q],
        ) by {
            assert(ra[p] == a[p + 1] && ra[q] == a[q + 1]);
        }
        assert forall|p: int, q: int| 0 <= p < q < rb.len() implies ranks_before(
            #[trigger] rb[p],
            #[trigger] rb[q],
        ) by {
            assert(rb[p] == b[p + 1] && rb[q] == b[q + 1]);
        }
        ranking_is_unique(ra, rb);
        assert(a =~= seq![x] + ra);
        assert(b =~= seq![y] + rb);
    } else {
        assert(b.len() == 0);
        assert(a =~= b);
    }
}

} // verus!
