//! Turning nearest-neighbour answers of the vector corpus into vector
//! candidate pairs for search.
//!
//! Each query declaration gets the corpus declarations nearest to it. The
//! query itself and names outside the eligible corpus are passed over, the
//! others are ranked from 1 up to the top-k, and a pair already found (in
//! either direction) is kept only once. The candidates are then listed by
//! anchor name, rank and candidate name.
//!
//! A validation run merges the candidates of all its queries instead: one
//! per pair, in pair-key order, a later candidate replacing an earlier one
//! for the same pair when its rank is better, or its rank equal and its
//! score higher.
use vstd::prelude::*;

use crate::declaration::HydratedDeclaration;
use crate::text::{lemma_lex_irreflexive, lemma_lex_transitive, lemma_lex_trichotomy, lex_lt, str_eq, str_lt};
use crate::vector_candidates::{
    pair_key, pair_key_of, SearchVectorCandidateStatus, SearchVectorCandidateSummary,
};

verus! {

/// One nearest-neighbour answer: a corpus declaration's name and content
/// hash, and the similarity score as the bits of its `f32`.
#[derive(Debug, Clone)]
pub struct NearestHit {
    pub declaration_name: String,
    pub content_hash: String,
    pub score_bits: u32,
}

/// A vector candidate pair: the query (anchor) declaration and a corpus
/// declaration, given by its position among the eligible corpus
/// declarations, with its rank for the anchor.
#[derive(Debug, Clone)]
pub struct VectorCandidate {
    pub anchor_name: String,
    pub anchor_content_hash: String,
    pub declaration_index: usize,
    pub declaration_name: String,
    pub declaration_content_hash: String,
    pub score_bits: u32,
    pub rank: usize,
}

/// The plain facts of a candidate.
pub type CandidateView = (Seq<char>, Seq<char>, usize, Seq<char>, Seq<char>, u32, usize);

pub open spec fn candidate_view(c: VectorCandidate) -> CandidateView {
    (
        c.anchor_name@,
        c.anchor_content_hash@,
        c.declaration_index,
        c.declaration_name@,
        c.declaration_content_hash@,
        c.score_bits,
        c.rank,
    )
}

pub open spec fn candidate_views(cs: Seq<VectorCandidate>) -> Seq<CandidateView> {
    cs.map_values(|c: VectorCandidate| candidate_view(c))
}

pub open spec fn hit_views(hs: Seq<NearestHit>) -> Seq<(Seq<char>, Seq<char>, u32)> {
    hs.map_values(|h: NearestHit| (h.declaration_name@, h.content_hash@, h.score_bits))
}

/// The position of the last corpus declaration named `name`, as a map from
/// names to declarations built in corpus order keeps it.
pub open spec fn last_named(corpus: Seq<HydratedDeclaration>, name: Seq<char>) -> Option<int>
    decreases corpus.len(),
{
    if corpus.len() == 0 {
        None
    } else if corpus.last().qualified_name@ == name {
        Some(corpus.len() - 1)
    } else {
        last_named(corpus.drop_last(), name)
    }
}

/// Whether a candidate in `cs` already has the pair key `key`.
pub open spec fn has_pair(cs: Seq<CandidateView>, key: (Seq<char>, Seq<char>)) -> bool {
    exists|k: int| 0 <= k < cs.len() && pair_key_of((#[trigger] cs[k]).0, cs[k].3) == key
}

/// The candidates after taking the answers `hits` for the query `q` (with
/// content hash `qh`), `rank` answers having been ranked already.
pub open spec fn after_hits(
    cs: Seq<CandidateView>,
    q: Seq<char>,
    qh: Seq<char>,
    hits: Seq<(Seq<char>, Seq<char>, u32)>,
    corpus: Seq<HydratedDeclaration>,
    top_k: nat,
    rank: nat,
) -> Seq<CandidateView>
    decreases hits.len(),
{
    if hits.len() == 0 {
        cs
    } else {
        let h = hits[0];
        if h.0 == q {
            after_hits(cs, q, qh, hits.drop_first(), corpus, top_k, rank)
        } else {
            match last_named(corpus, h.0) {
                None => after_hits(cs, q, qh, hits.drop_first(), corpus, top_k, rank),
                Some(d) => {
                    if rank + 1 > top_k {
                        cs
                    } else {
                        let c = (q, qh, d as usize, h.0, h.1, h.2, (rank + 1) as usize);
                        let next = if has_pair(cs, pair_key_of(q, h.0)) {
                            cs
                        } else {
                            cs.push(c)
                        };
                        after_hits(next, q, qh, hits.drop_first(), corpus, top_k, rank + 1)
                    }
                },
            }
        }
    }
}

fn last_named_index(corpus: &Vec<HydratedDeclaration>, name: &str) -> (r: Option<usize>)
    ensures
        match r {
            Some(i) => last_named(corpus@, name@) == Some(i as int),
            None => last_named(corpus@, name@) is None,
        },
{
    let mut i = corpus.len();
    assert(corpus@.take(i as int) =~= corpus@);
    while i > 0
        invariant
            i <= corpus@.len(),
            last_named(corpus@, name@) == last_named(corpus@.take(i as int), name@),
        decreases i,
    {
        proof {
            assert(corpus@.take(i as int).drop_last() =~= corpus@.take(i - 1));
        }
        if str_eq(corpus[i - 1].qualified_name.as_str(), name) {
            return Some(i - 1);
        }
        i = i - 1;
    }
    proof {
        assert(corpus@.take(0) =~= Seq::<HydratedDeclaration>::empty());
    }
    None
}

fn has_pair_key(cs: &Vec<VectorCandidate>, left: &str, right: &str) -> (r: bool)
    ensures
        r == has_pair(candidate_views(cs@), pair_key_of(left@, right@)),
{
    let key = pair_key(left, right);
    let mut k: usize = 0;
    while k < cs.len()
        invariant
            k <= cs@.len(),
            (key.0@, key.1@) == pair_key_of(left@, right@),
            forall|j: int|
                0 <= j < k ==> pair_key_of(
                    (#[trigger] candidate_views(cs@)[j]).0,
                    candidate_views(cs@)[j].3,
                ) != pair_key_of(left@, right@),
        decreases cs@.len() - k,
    {
        let other = pair_key(cs[k].anchor_name.as_str(), cs[k].declaration_name.as_str());
        if str_eq(other.0.as_str(), key.0.as_str()) && str_eq(other.1.as_str(), key.1.as_str()) {
            proof {
                assert(candidate_views(cs@)[k as int].0 == cs@[k as int].anchor_name@);
            }
            return true;
        }
        proof {
            assert(candidate_views(cs@)[k as int].3 == cs@[k as int].declaration_name@);
        }
        k = k + 1;
    }
    false
}

/// Takes the nearest-neighbour answers for one query: passes over the
/// query itself and names outside the eligible corpus, ranks the others
/// up to `top_k`, and adds each pair not found before.
pub fn add_query_hits(
    candidates: &mut Vec<VectorCandidate>,
    query_name: &String,
    query_hash: &String,
    hits: &Vec<NearestHit>,
    corpus: &Vec<HydratedDeclaration>,
    top_k: usize,
)
    ensures
        candidate_views(final(candidates)@) == after_hits(
            candidate_views(old(candidates)@),
            query_name@,
            query_hash@,
            hit_views(hits@),
            corpus@,
            top_k as nat,
            0,
        ),
{
    let ghost goal = after_hits(
        candidate_views(candidates@),
        query_name@,
        query_hash@,
        hit_views(hits@),
        corpus@,
        top_k as nat,
        0,
    );
    assert(candidates@ == old(candidates)@);
    let mut rank: usize = 0;
    let mut i: usize = 0;
    assert(hit_views(hits@).skip(0) =~= hit_views(hits@));
    while i < hits.len()
        invariant
            i <= hits@.len(),
            rank <= top_k,
            goal == after_hits(
                candidate_views(old(candidates)@),
                query_name@,
                query_hash@,
                hit_views(hits@),
                corpus@,
                top_k as nat,
                0,
            ),
            goal == after_hits(
                candidate_views(candidates@),
                query_name@,
                query_hash@,
                hit_views(hits@).skip(i as int),
                corpus@,
                top_k as nat,
                rank as nat,
            ),
        decreases hits@.len() - i,
    {
        let ghost rest = hit_views(hits@).skip(i as int);
        proof {
            assert(rest[0] == (hits@[i as int].declaration_name@, hits@[i as int].content_hash@, hits@[i as int].score_bits));
            assert(rest.drop_first() =~= hit_views(hits@).skip(i + 1));
        }
        let hit = &hits[i];
        if !str_eq(hit.declaration_name.as_str(), query_name.as_str()) {
            match last_named_index(corpus, hit.declaration_name.as_str()) {
                None => {},
                Some(d) => {
                    if rank >= top_k {
                        proof {
                            assert(rest.len() > 0 && rest[0].0 != query_name@);
                            assert(last_named(corpus@, rest[0].0) == Some(d as int));
                            assert(goal == candidate_views(candidates@));
                        }
                        return;
                    }
                    rank = rank + 1;
                    if !has_pair_key(candidates, query_name.as_str(), hit.declaration_name.as_str()) {
                        let ghost before = candidates@;
                        candidates.push(
                            VectorCandidate {
                                anchor_name: query_name.clone(),
                                anchor_content_hash: query_hash.clone(),
                                declaration_index: d,
                                declaration_name: hit.declaration_name.clone(),
                                declaration_content_hash: hit.content_hash.clone(),
                                score_bits: hit.score_bits,
                                rank,
                            },
                        );
                        proof {
                            assert(candidate_views(candidates@) =~= candidate_views(before).push(
                                candidate_views(candidates@).last(),
                            ));
                        }
                    }
                },
            }
        }
        i = i + 1;
    }
    proof {
        assert(hit_views(hits@).skip(i as int) =~= Seq::<(Seq<char>, Seq<char>, u32)>::empty());
    }
}


/// Whether candidate `a` is listed before `b`: by anchor name, then rank,
/// then candidate name.
pub open spec fn listed_before(a: CandidateView, b: CandidateView) -> bool {
    if a.0 != b.0 {
        lex_lt(a.0, b.0)
    } else if a.6 != b.6 {
        a.6 < b.6
    } else {
        lex_lt(a.3, b.3)
    }
}

/// `s` with `x` placed before the first candidate it is listed before.
pub open spec fn insert_listed(s: Seq<CandidateView>, x: CandidateView) -> Seq<CandidateView>
    decreases s.len(),
{
    if s.len() == 0 {
        seq![x]
    } else if listed_before(x, s[0]) {
        seq![x] + s
    } else {
        seq![s[0]] + insert_listed(s.drop_first(), x)
    }
}

/// The candidates of `s` in listing order, equal ones keeping their order.
pub open spec fn in_listing_order(s: Seq<CandidateView>) -> Seq<CandidateView>
    decreases s.len(),
{
    if s.len() == 0 {
        s
    } else {
        insert_listed(in_listing_order(s.drop_last()), s.last())
    }
}

proof fn lemma_insert_listed_at(s: Seq<CandidateView>, x: CandidateView, p: int)
    requires
        0 <= p <= s.len(),
        forall|i: int| 0 <= i < p ==> !listed_before(x, #[trigger] s[i]),
        p == s.len() || listed_before(x, s[p]),
    ensures
        insert_listed(s, x) == s.take(p).push(x) + s.skip(p),
    decreases s.len(),
{
    if s.len() == 0 {
        assert(s.take(p).push(x) + s.skip(p) =~= seq![x]);
    } else if p == 0 {
        assert(s.take(0).push(x) + s.skip(0) =~= seq![x] + s);
    } else {
        let t = s.drop_first();
        assert forall|i: int| 0 <= i < p - 1 implies !listed_before(x, #[trigger] t[i]) by {
            assert(t[i] == s[i + 1]);
        }
        if p - 1 < t.len() {
            assert(t[p - 1] == s[p]);
        }
        lemma_insert_listed_at(t, x, p - 1);
        assert(s.take(p).push(x) + s.skip(p) =~= seq![s[0]] + (t.take(p - 1).push(x) + t.skip(p - 1)));
    }
}

fn lists_before(a: &VectorCandidate, b: &VectorCandidate) -> (r: bool)
    ensures
        r == listed_before(candidate_view(*a), candidate_view(*b)),
{
    if !str_eq(a.anchor_name.as_str(), b.anchor_name.as_str()) {
        str_lt(a.anchor_name.as_str(), b.anchor_name.as_str())
    } else if a.rank != b.rank {
        a.rank < b.rank
    } else {
        str_lt(a.declaration_name.as_str(), b.declaration_name.as_str())
    }
}

fn insert_candidate(out: &mut Vec<VectorCandidate>, x: VectorCandidate)
    ensures
        candidate_views(final(out)@) == insert_listed(candidate_views(old(out)@), candidate_view(x)),
{
    let ghost v = candidate_views(out@);
    let mut p: usize = 0;
    while p < out.len() && !lists_before(&x, &out[p])
        invariant
            p <= out@.len(),
            out@ == old(out)@,
            v == candidate_views(out@),
            forall|i: int| 0 <= i < p ==> !listed_before(candidate_view(x), #[trigger] v[i]),
        decreases out@.len() - p,
    {
        p = p + 1;
    }
    proof {
        lemma_insert_listed_at(v, candidate_view(x), p as int);
    }
    out.insert(p, x);
    assert(candidate_views(out@) =~= v.take(p as int).push(candidate_view(x)) + v.skip(p as int));
}

/// Lists the candidates by anchor name, then rank, then candidate name.
pub fn list_candidates(candidates: Vec<VectorCandidate>) -> (r: Vec<VectorCandidate>)
    ensures
        candidate_views(r@) == in_listing_order(candidate_views(candidates@)),
{
    let ghost all = candidate_views(candidates@);
    let mut input = candidates;
    let mut sorted: Vec<VectorCandidate> = Vec::new();
    let mut done: usize = 0;
    let n = input.len();
    while input.len() > 0
        invariant
            all.len() == n,
            done + input@.len() == n,
            candidate_views(input@) == all.skip(done as int),
            candidate_views(sorted@) == in_listing_order(all.take(done as int)),
        decreases input@.len(),
    {
        let ghost before = input@;
        let x = input.remove(0);
        proof {
            assert(candidate_views(before)[0] == candidate_view(x));
            assert(all.take(done + 1).drop_last() =~= all.take(done as int));
            assert(all.take(done + 1).last() == candidate_view(x));
            assert forall|k: int| 0 <= k < input@.len() implies candidate_views(input@)[k] == all.skip(done + 1)[k] by {
                assert(input@[k] == before[k + 1]);
                assert(candidate_views(before)[k + 1] == all.skip(done as int)[k + 1]);
            }
            assert(candidate_views(input@) =~= all.skip(done + 1));
        }
        insert_candidate(&mut sorted, x);
        done = done + 1;
    }
    proof {
        assert(all.take(done as int) =~= all);
    }
    sorted
}

/// Closes a run that generated candidates: lists them and records the
/// count in the summary, with the run marked as having generated them.
pub fn finish_vector_candidates(summary: &mut SearchVectorCandidateSummary, candidates: Vec<VectorCandidate>) -> (r: Vec<
    VectorCandidate,
>)
    ensures
        candidate_views(r@) == in_listing_order(candidate_views(candidates@)),
        *final(summary) == (SearchVectorCandidateSummary {
            status: SearchVectorCandidateStatus::Generated,
            reason: None,
            vector_generated_candidate_count: r@.len() as usize,
            ..*old(summary)
        }),
{
    let listed = list_candidates(candidates);
    summary.status = SearchVectorCandidateStatus::Generated;
    summary.reason = None;
    summary.vector_generated_candidate_count = listed.len();
    listed
}


/// A candidate found by a validation query, with an integer that orders
/// candidates as their similarity scores do.
#[derive(Debug, Clone)]
pub struct ScoredCandidate {
    pub candidate: VectorCandidate,
    pub score_key: i64,
}

pub type ScoredView = (CandidateView, i64);

pub open spec fn scored_view(c: ScoredCandidate) -> ScoredView {
    (candidate_view(c.candidate), c.score_key)
}

pub open spec fn scored_views(cs: Seq<ScoredCandidate>) -> Seq<ScoredView> {
    cs.map_values(|c: ScoredCandidate| scored_view(c))
}

/// The order-independent key of a candidate's pair.
pub open spec fn scored_key(c: ScoredView) -> (Seq<char>, Seq<char>) {
    pair_key_of(c.0.0, c.0.3)
}

/// Strict order of pair keys: by the first name, then the second.
pub open spec fn key_lt(a: (Seq<char>, Seq<char>), b: (Seq<char>, Seq<char>)) -> bool {
    lex_lt(a.0, b.0) || (a.0 == b.0 && lex_lt(a.1, b.1))
}

proof fn lemma_key_order(a: (Seq<char>, Seq<char>), b: (Seq<char>, Seq<char>), c: (Seq<char>, Seq<char>))
    ensures
        !key_lt(a, a),
        key_lt(a, b) || a == b || key_lt(b, a),
        key_lt(a, b) && key_lt(b, c) ==> key_lt(a, c),
{
    lemma_lex_irreflexive(a.0);
    lemma_lex_irreflexive(a.1);
    lemma_lex_trichotomy(a.0, b.0);
    lemma_lex_trichotomy(a.1, b.1);
    lemma_lex_trichotomy(b.0, c.0);
    lemma_lex_trichotomy(a.0, c.0);
    if lex_lt(a.0, b.0) && lex_lt(b.0, c.0) {
        lemma_lex_transitive(a.0, b.0, c.0);
    }
    if lex_lt(a.1, b.1) && lex_lt(b.1, c.1) {
        lemma_lex_transitive(a.1, b.1, c.1);
    }
}

/// Whether `next` replaces `current` for the same pair: a better (lower)
/// rank, or the same rank with a higher score.
pub open spec fn replaces(current: ScoredView, next: ScoredView) -> bool {
    next.0.6 < current.0.6 || (next.0.6 == current.0.6 && next.1 > current.1)
}

/// The candidate kept for pair key `k` after taking the candidates `cs` in
/// order: the first one for the key, replaced by each later one that
/// `replaces` it.
pub open spec fn kept_for(cs: Seq<ScoredView>, k: (Seq<char>, Seq<char>)) -> Option<ScoredView>
    decreases cs.len(),
{
    if cs.len() == 0 {
        None
    } else {
        let x = cs.last();
        let before = kept_for(cs.drop_last(), k);
        if scored_key(x) != k {
            before
        } else {
            match before {
                None => Some(x),
                Some(c) => if replaces(c, x) {
                    Some(x)
                } else {
                    Some(c)
                },
            }
        }
    }
}

/// `m` holds one candidate per pair key of `cs`, in key order, each the
/// one kept for its key.
pub open spec fn merged_from(m: Seq<ScoredView>, cs: Seq<ScoredView>) -> bool {
    &&& forall|i: int, j: int| 0 <= i < j < m.len() ==> key_lt(scored_key(#[trigger] m[i]), scored_key(#[trigger] m[j]))
    &&& m.map_values(|c: ScoredView| scored_key(c)).to_set() == cs.map_values(|c: ScoredView| scored_key(c)).to_set()
    &&& forall|i: int| 0 <= i < m.len() ==> kept_for(cs, scored_key(#[trigger] m[i])) == Some(m[i])
}

fn key_less(a: &(String, String), b: &(String, String)) -> (r: bool)
    ensures
        r == key_lt((a.0@, a.1@), (b.0@, b.1@)),
{
    str_lt(a.0.as_str(), b.0.as_str()) || (str_eq(a.0.as_str(), b.0.as_str()) && str_lt(a.1.as_str(), b.1.as_str()))
}

/// Takes one more query candidate into the merged list: a new pair goes in
/// at its key's place; a pair already there keeps its candidate unless the
/// new one has a better rank, or the same rank and a higher score.
fn merge_candidate(merged: &mut Vec<ScoredCandidate>, next: ScoredCandidate, Ghost(seen): Ghost<Seq<ScoredView>>)
    requires
        merged_from(scored_views(old(merged)@), seen),
    ensures
        merged_from(scored_views(final(merged)@), seen.push(scored_view(next))),
{
    let ghost before = scored_views(merged@);
    let ghost x = scored_view(next);
    let ghost xk = scored_key(x);
    let ghost after_seen = seen.push(x);
    let key = pair_key(next.candidate.anchor_name.as_str(), next.candidate.declaration_name.as_str());
    let mut p: usize = 0;
    while p < merged.len()
        invariant
            p <= merged@.len(),
            before == scored_views(merged@),
            (key.0@, key.1@) == xk,
            forall|i: int| 0 <= i < p ==> key_lt(scored_key(#[trigger] before[i]), xk),
        ensures
            p <= merged@.len(),
            before == scored_views(merged@),
            forall|i: int| 0 <= i < p ==> key_lt(scored_key(#[trigger] before[i]), xk),
            p == merged@.len() || !key_lt(scored_key(before[p as int]), xk),
        decreases merged@.len() - p,
    {
        let k = pair_key(merged[p].candidate.anchor_name.as_str(), merged[p].candidate.declaration_name.as_str());
        proof {
            assert(before[p as int] == scored_view(merged@[p as int]));
        }
        if !key_less(&k, &key) {
            break;
        }
        p = p + 1;
    }
    proof {
        assert forall|k: (Seq<char>, Seq<char>)| #[trigger] kept_for(after_seen, k) == if xk != k {
            kept_for(seen, k)
        } else {
            match kept_for(seen, k) {
                None => Some(x),
                Some(c) => if replaces(c, x) {
                    Some(x)
                } else {
                    Some(c)
                },
            }
        } by {
            assert(after_seen.drop_last() =~= seen);
        }
        let keys = seen.map_values(|c: ScoredView| scored_key(c));
        assert(after_seen.map_values(|c: ScoredView| scored_key(c)) =~= keys.push(xk));
        keys.lemma_push_to_set_commute(xk);
    }
    let ghost mk = before.map_values(|c: ScoredView| scored_key(c));
    let same = if p < merged.len() {
        let k = pair_key(merged[p].candidate.anchor_name.as_str(), merged[p].candidate.declaration_name.as_str());
        proof {
            assert(before[p as int] == scored_view(merged@[p as int]));
        }
        let r = str_eq(k.0.as_str(), key.0.as_str()) && str_eq(k.1.as_str(), key.1.as_str());
        proof {
            assert(r == (scored_key(before[p as int]) == xk));
        }
        r
    } else {
        false
    };
    assert(same == (p < before.len() && scored_key(before[p as int]) == xk));
    if same {
        proof {
            assert(scored_key(before[p as int]) == xk);
            assert(mk[p as int] == xk);
            assert(mk.to_set().contains(xk));
            assert(kept_for(seen, xk) == Some(before[p as int]));
        }
        let current = &merged[p];
        let replace = next.candidate.rank < current.candidate.rank || (next.candidate.rank == current.candidate.rank
            && next.score_key > current.score_key);
        proof {
            assert(replace == replaces(before[p as int], x));
        }
        if replace {
            merged.set(p, next);
        }
        proof {
            let now = scored_views(merged@);
            assert(now.map_values(|c: ScoredView| scored_key(c)) =~= mk) by {
                assert forall|i: int| 0 <= i < mk.len() implies scored_key(now[i]) == mk[i] by {
                    if i != p {
                        assert(merged@[i] == old(merged)@[i]);
                    }
                }
            }
            assert forall|i: int| 0 <= i < now.len() implies kept_for(after_seen, scored_key(#[trigger] now[i]))
                == Some(now[i]) by {
                if i != p {
                    assert(now[i] == before[i]);
                    if i < p {
                        lemma_key_order(scored_key(before[i]), xk, xk);
                    } else {
                        assert(key_lt(scored_key(before[p as int]), scored_key(before[i])));
                        lemma_key_order(xk, xk, xk);
                    }
                }
            }
            assert forall|i: int, j: int| 0 <= i < j < now.len() implies key_lt(
                scored_key(#[trigger] now[i]),
                scored_key(#[trigger] now[j]),
            ) by {
                assert(scored_key(now[i]) == mk[i] && scored_key(now[j]) == mk[j]);
                assert(mk[i] == scored_key(before[i]) && mk[j] == scored_key(before[j]));
            }
            assert(mk.to_set().insert(xk) =~= mk.to_set());
            assert(merged_from(now, after_seen));
        }
    } else {
        proof {
            if p < before.len() {
                lemma_key_order(scored_key(before[p as int]), xk, xk);
            }
            assert(!mk.to_set().contains(xk)) by {
                if mk.to_set().contains(xk) {
                    let q = choose|q: int| 0 <= q < mk.len() && mk[q] == xk;
                    assert(mk[q] == scored_key(before[q]));
                    if q < p {
                        lemma_key_order(xk, xk, xk);
                    } else if q > p {
                        assert(key_lt(scored_key(before[p as int]), scored_key(before[q])));
                        lemma_key_order(xk, xk, xk);
                    }
                }
            }
            assert(kept_for(seen, xk) is None) by {
                if kept_for(seen, xk) is Some {
                    lemma_kept_has_key(seen, xk);
                }
            }
        }
        merged.insert(p, next);
        proof {
            let now = scored_views(merged@);
            assert(now =~= before.insert(p as int, x));
            assert(now.map_values(|c: ScoredView| scored_key(c)) =~= mk.insert(p as int, xk));
            assert(mk.insert(p as int, xk).to_set() =~= mk.to_set().insert(xk)) by {
                assert forall|k| mk.insert(p as int, xk).to_set().contains(k) <==> mk.to_set().insert(xk).contains(k) by {
                    if mk.insert(p as int, xk).contains(k) {
                        let q = choose|q: int| 0 <= q < mk.len() + 1 && mk.insert(p as int, xk)[q] == k;
                        if q < p {
                            assert(mk[q] == k);
                        } else if q > p {
                            assert(mk[q - 1] == k);
                        }
                    }
                    if mk.contains(k) {
                        let q = choose|q: int| 0 <= q < mk.len() && mk[q] == k;
                        if q < p {
                            assert(mk.insert(p as int, xk)[q] == k);
                        } else {
                            assert(mk.insert(p as int, xk)[q + 1] == k);
                        }
                    }
                    if k == xk {
                        assert(mk.insert(p as int, xk)[p as int] == k);
                    }
                }
            }
            assert forall|i: int, j: int| 0 <= i < j < now.len() implies key_lt(
                scored_key(#[trigger] now[i]),
                scored_key(#[trigger] now[j]),
            ) by {
                if j < p {
                    assert(now[i] == before[i] && now[j] == before[j]);
                } else if j == p {
                    assert(now[i] == before[i]);
                } else if i == p {
                    assert(now[j] == before[j - 1]);
                    if j - 1 > p {
                        assert(key_lt(scored_key(before[p as int]), scored_key(before[j - 1])));
                        lemma_key_order(xk, scored_key(before[p as int]), scored_key(before[j - 1]));
                    }
                } else if i < p {
                    assert(now[i] == before[i] && now[j] == before[j - 1]);
                    if j - 1 > p {
                        assert(key_lt(scored_key(before[p as int]), scored_key(before[j - 1])));
                        lemma_key_order(xk, scored_key(before[p as int]), scored_key(before[j - 1]));
                    }
                    lemma_key_order(scored_key(before[i]), xk, scored_key(before[j - 1]));
                } else {
                    assert(now[i] == before[i - 1] && now[j] == before[j - 1]);
                }
            }
            assert forall|i: int| 0 <= i < now.len() implies kept_for(after_seen, scored_key(#[trigger] now[i]))
                == Some(now[i]) by {
                if i != p {
                    let ii = if i < p {
                        i
                    } else {
                        i - 1
                    };
                    assert(now[i] == before[ii]);
                    if scored_key(before[ii]) == xk {
                        assert(mk[ii] == xk);
                    }
                }
            }
        }
    }
}

proof fn lemma_kept_has_key(cs: Seq<ScoredView>, k: (Seq<char>, Seq<char>))
    requires
        kept_for(cs, k) is Some,
    ensures
        cs.map_values(|c: ScoredView| scored_key(c)).contains(k),
    decreases cs.len(),
{
    let keys = cs.map_values(|c: ScoredView| scored_key(c));
    if scored_key(cs.last()) == k {
        assert(keys[cs.len() - 1] == k);
    } else {
        lemma_kept_has_key(cs.drop_last(), k);
        let dk = cs.drop_last().map_values(|c: ScoredView| scored_key(c));
        let q = choose|q: int| 0 <= q < dk.len() && dk[q] == k;
        assert(keys[q] == k);
    }
}


/// Merges the candidates that validation queries found, in the order they
/// were found: one candidate per pair (whichever way round it is named),
/// in pair-key order, each the first found for its pair unless a later one
/// has a better rank, or the same rank and a higher score.
pub fn merge_candidates(found: Vec<ScoredCandidate>) -> (r: Vec<ScoredCandidate>)
    ensures
        merged_from(scored_views(r@), scored_views(found@)),
{
    let ghost all = scored_views(found@);
    let mut rest = found;
    let n = rest.len();
    let mut merged: Vec<ScoredCandidate> = Vec::new();
    let mut done: usize = 0;
    proof {
        assert(scored_views(merged@).map_values(|c: ScoredView| scored_key(c)).to_set() =~= all.take(0).map_values(
            |c: ScoredView| scored_key(c),
        ).to_set());
    }
    while rest.len() > 0
        invariant
            all.len() == n,
            done + rest@.len() == n,
            scored_views(rest@) == all.skip(done as int),
            merged_from(scored_views(merged@), all.take(done as int)),
        decreases rest@.len(),
    {
        let ghost before = rest@;
        let x = rest.remove(0);
        proof {
            assert(scored_views(before)[0] == scored_view(x));
            assert(all.take(done + 1) =~= all.take(done as int).push(scored_view(x)));
            assert forall|k: int| 0 <= k < rest@.len() implies scored_views(rest@)[k] == all.skip(done + 1)[k] by {
                assert(rest@[k] == before[k + 1]);
                assert(scored_views(before)[k + 1] == all.skip(done as int)[k + 1]);
            }
            assert(scored_views(rest@) =~= all.skip(done + 1));
        }
        merge_candidate(&mut merged, x, Ghost(all.take(done as int)));
        done = done + 1;
    }
    proof {
        assert(all.take(done as int) =~= all);
    }
    merged
}

} // verus!
