//! Stage observations of search for offline evaluation: which pairs were
//! generated, ranked and shown, from which candidate source, and the
//! retrieval counters, without the retrieval keys behind them.
use vstd::prelude::*;

use crate::declaration::HydratedDeclaration;
use crate::pair_features::{SearchPairFeatures, SearchSemanticEvidenceState};
use crate::retrieval::{NamedCount, RetrievalDiagnostics};
use crate::review_policy::SearchReviewPolicySummary;
use crate::scorer::{
    component_views, components_spec, score_observation, total_of, SearchPairScoring, SearchScoringSummary,
    SearchScoringVariant, SCORER_VERSION, VISIBLE_SCORE,
};
use crate::semantic::{SearchSemanticObligationYield, SearchSemanticRerankingSummary};
use crate::sets::{set_insert, sorted_strict, views};
use crate::text::{owned, str_eq};
use crate::vector_workload::{stable_pair_id, stable_pair_id_of};

verus! {

/// A declaration pair evaluation follows through every stage.
#[derive(Debug, Clone)]
pub struct SearchTrackedPair {
    pub left: String,
    pub right: String,
}

/// The family of a candidate source.
#[derive(Debug, Clone, Copy, PartialEq, Eq, Structural)]
pub enum SearchCandidateSourceFamily {
    Symbolic,
}

/// Whether a generated candidate made its anchor's top-k.
#[derive(Debug, Clone, Copy, PartialEq, Eq, Structural)]
pub enum SearchCandidateTopKStatus {
    Selected,
    GeneratedNotSelected,
}

/// Stable facts about one source that generated a pair.
#[derive(Debug, Clone)]
pub struct SearchCandidateSourceFact {
    pub source_id: String,
    pub source_family: SearchCandidateSourceFamily,
    pub pair_id: String,
    pub left_declaration_id: String,
    pub right_declaration_id: String,
    pub origin: String,
    pub generation_rank: Option<usize>,
    pub top_k_status: SearchCandidateTopKStatus,
    pub top_k_saturated: bool,
    pub feature_families: Vec<String>,
}

/// Stage facts of one observed pair.
#[derive(Debug, Clone)]
pub struct SearchStageObservedPair {
    pub left: String,
    pub right: String,
    pub left_declaration_id: String,
    pub right_declaration_id: String,
    pub generated: bool,
    pub symbolic_generated: bool,
    pub merged_generated: bool,
    pub ranked: bool,
    pub generation_policy: String,
    pub rank: Option<usize>,
    pub shown: bool,
    pub origin: String,
    pub feature_families: Vec<String>,
    pub candidate_sources: Vec<SearchCandidateSourceFact>,
    pub survived_shown_filter: bool,
}

/// Stage facts of one observed pair with its features and scoring.
#[derive(Debug, Clone)]
pub struct SearchObservedPair {
    pub left: String,
    pub right: String,
    pub left_declaration_id: String,
    pub right_declaration_id: String,
    pub generated: bool,
    pub symbolic_generated: bool,
    pub merged_generated: bool,
    pub ranked: bool,
    pub generation_policy: String,
    pub rank: Option<usize>,
    pub shown: bool,
    pub origin: String,
    pub feature_families: Vec<String>,
    pub candidate_sources: Vec<SearchCandidateSourceFact>,
    pub survived_shown_filter: bool,
    pub features: SearchPairFeatures,
    pub scoring: SearchPairScoring,
}

/// A broad feature fan-out candidate generation did not expand.
#[derive(Debug, Clone)]
pub struct SearchPrunedFeatureFanout {
    pub policy: String,
    pub source: String,
    pub reason: String,
    pub feature_family: String,
    pub count: usize,
}

/// Retrieval counters of one observation.
#[derive(Debug, Clone)]
pub struct SearchRetrievalObservation {
    pub candidate_count: usize,
    pub generated_candidate_count: usize,
    pub ranked_candidate_count: usize,
    pub symbolic_generated_candidate_count: usize,
    pub merged_generated_candidate_count: usize,
    pub hydrated_external_count: usize,
    pub pruned_feature_fanout_count: usize,
    pub heap_truncations: usize,
    pub candidate_count_by_generation_policy: Vec<NamedCount>,
    pub pruned_feature_fanouts: Vec<SearchPrunedFeatureFanout>,
}

/// Compact stage facts of a search run.
#[derive(Debug, Clone)]
pub struct SearchStageObservation {
    pub pairs: Vec<SearchStageObservedPair>,
    pub visible_groups_found: usize,
    pub visible_groups_total: usize,
    pub scoring: SearchScoringSummary,
    pub review_policy: SearchReviewPolicySummary,
    pub semantic_reranking: SearchSemanticRerankingSummary,
    pub semantic_obligation_yield: Vec<SearchSemanticObligationYield>,
    pub retrieval: SearchRetrievalObservation,
}

/// Detailed stage facts of a search run.
#[derive(Debug, Clone)]
pub struct SearchObservation {
    pub pairs: Vec<SearchObservedPair>,
    pub visible_groups_found: usize,
    pub visible_groups_total: usize,
    pub scoring: SearchScoringSummary,
    pub review_policy: SearchReviewPolicySummary,
    pub semantic_reranking: SearchSemanticRerankingSummary,
    pub semantic_obligation_yield: Vec<SearchSemanticObligationYield>,
    pub retrieval: SearchRetrievalObservation,
}

/// Compact observations support only the full symbolic scorer; ablation
/// variants need detailed observations.
pub open spec fn compact_variant(v: SearchScoringVariant) -> bool {
    v == SearchScoringVariant::AllFeatures
}

/// The refusal of a compact observation for an ablation variant.
#[derive(Debug)]
pub struct ObservationError {
    pub message: String,
}

/// Checks that a compact observation can be made with `variant`, naming
/// the variant otherwise.
pub fn check_compact_variant(variant: SearchScoringVariant) -> (r: Result<(), ObservationError>)
    ensures
        compact_variant(variant) <==> r is Ok,
        r matches Err(e) ==> e.message@
            == "compact search-stage observation only supports symbolic scorer variants; use detailed observations for "@
            + crate::scorer::variant_label(variant),
{
    if variant == SearchScoringVariant::AllFeatures {
        Ok(())
    } else {
        let mut m = owned(
            "compact search-stage observation only supports symbolic scorer variants; use detailed observations for ",
        );
        m.append(variant.label());
        Err(ObservationError { message: m })
    }
}

/// The generation policy recorded for a ranked candidate, by where it
/// comes from.
pub open spec fn generation_policy_of(candidate: HydratedDeclaration) -> Seq<char> {
    if candidate.origin@ == "workspace"@ {
        "local_duplicate_audit"@
    } else if candidate.origin@ == "mathlib"@ {
        "mathlib_comparison"@
    } else if candidate.source_span is Some {
        "source_backed_external_comparison"@
    } else {
        "static_external_comparison"@
    }
}

/// The generation policy recorded for a ranked candidate.
pub fn generation_policy_for_ranked(candidate: &HydratedDeclaration) -> (r: String)
    ensures
        r@ == generation_policy_of(*candidate),
{
    if str_eq(candidate.origin.as_str(), "workspace") {
        owned("local_duplicate_audit")
    } else if str_eq(candidate.origin.as_str(), "mathlib") {
        owned("mathlib_comparison")
    } else if candidate.source_span.is_some() {
        owned("source_backed_external_comparison")
    } else {
        owned("static_external_comparison")
    }
}

/// The symbolic-retrieval source fact of the pair `anchor`, `candidate`.
pub fn symbolic_source_fact(
    anchor: &HydratedDeclaration,
    candidate: &HydratedDeclaration,
    origin: &str,
    generation_rank: Option<usize>,
    top_k_status: SearchCandidateTopKStatus,
    top_k_saturated: bool,
    feature_families: Vec<String>,
) -> (r: SearchCandidateSourceFact)
    ensures
        r.source_id@ == "symbolic-retrieval"@,
        r.source_family == SearchCandidateSourceFamily::Symbolic,
        r.pair_id@ == stable_pair_id_of(anchor.declaration_id@, candidate.declaration_id@),
        r.left_declaration_id@ == anchor.declaration_id@,
        r.right_declaration_id@ == candidate.declaration_id@,
        r.origin@ == origin@,
        r.generation_rank == generation_rank,
        r.top_k_status == top_k_status,
        r.top_k_saturated == top_k_saturated,
        r.feature_families == feature_families,
{
    SearchCandidateSourceFact {
        source_id: owned("symbolic-retrieval"),
        source_family: SearchCandidateSourceFamily::Symbolic,
        pair_id: stable_pair_id(anchor.declaration_id.as_str(), candidate.declaration_id.as_str()),
        left_declaration_id: anchor.declaration_id.clone(),
        right_declaration_id: candidate.declaration_id.clone(),
        origin: owned(origin),
        generation_rank,
        top_k_status,
        top_k_saturated,
        feature_families,
    }
}

/// Name and count of each entry.
pub open spec fn count_views(v: Seq<NamedCount>) -> Seq<(Seq<char>, usize)> {
    v.map_values(|c: NamedCount| (c.name@, c.count))
}

/// Policy, source, reason, family and count of each fan-out record.
pub open spec fn fanout_views(v: Seq<SearchPrunedFeatureFanout>) -> Seq<
    (Seq<char>, Seq<char>, Seq<char>, Seq<char>, usize),
> {
    v.map_values(
        |f: SearchPrunedFeatureFanout| (f.policy@, f.source@, f.reason@, f.feature_family@, f.count),
    )
}

/// `r` holds the counters of `d`, with `merged` pairs generated by any
/// source.
pub open spec fn retrieval_observation_ok(r: SearchRetrievalObservation, d: RetrievalDiagnostics, merged: usize) -> bool {
    &&& r.candidate_count == d.candidate_count
    &&& r.generated_candidate_count == d.generated_candidate_count
    &&& r.ranked_candidate_count == d.ranked_candidate_count
    &&& r.symbolic_generated_candidate_count == d.generated_candidate_count
    &&& r.merged_generated_candidate_count == merged
    &&& r.hydrated_external_count == d.hydrated_external_count
    &&& r.pruned_feature_fanout_count == d.pruned_postings@.len()
    &&& r.heap_truncations == d.heap_truncations@.len()
    &&& count_views(r.candidate_count_by_generation_policy@) == count_views(d.candidate_count_by_generation_policy@)
    &&& fanout_views(r.pruned_feature_fanouts@) == d.pruned_feature_fanouts@.map_values(
        |f: crate::retrieval::PrunedFeatureFanout| (f.policy@, f.source@, f.reason@, f.feature_family@, f.count),
    )
}

/// The retrieval counters of an observation, from the retrieval
/// diagnostics and the number of pairs generated by any source.
pub fn retrieval_observation(diagnostics: &RetrievalDiagnostics, merged_generated_count: usize) -> (r:
    SearchRetrievalObservation)
    ensures
        retrieval_observation_ok(r, *diagnostics, merged_generated_count),
{
    let mut counts: Vec<NamedCount> = Vec::new();
    let mut i: usize = 0;
    while i < diagnostics.candidate_count_by_generation_policy.len()
        invariant
            i <= diagnostics.candidate_count_by_generation_policy@.len(),
            counts@.len() == i,
            count_views(counts@) == count_views(
                diagnostics.candidate_count_by_generation_policy@.take(i as int),
            ),
        decreases diagnostics.candidate_count_by_generation_policy@.len() - i,
    {
        let c = &diagnostics.candidate_count_by_generation_policy[i];
        let ghost before = counts@;
        counts.push(NamedCount { name: c.name.clone(), count: c.count });
        proof {
            let src = diagnostics.candidate_count_by_generation_policy@;
            assert(src.take(i + 1) =~= src.take(i as int).push(src[i as int]));
            assert(counts@ =~= before.push(counts@[i as int]));
            assert(count_views(before.push(counts@[i as int])) =~= count_views(before).push(
                (c.name@, c.count),
            ));
            assert(count_views(src.take(i as int).push(src[i as int])) =~= count_views(
                src.take(i as int),
            ).push((c.name@, c.count)));
        }
        i = i + 1;
    }
    assert(diagnostics.candidate_count_by_generation_policy@.take(i as int)
        =~= diagnostics.candidate_count_by_generation_policy@);
    let ghost source = diagnostics.pruned_feature_fanouts@.map_values(
        |f: crate::retrieval::PrunedFeatureFanout|
            (f.policy@, f.source@, f.reason@, f.feature_family@, f.count),
    );
    let mut fanouts: Vec<SearchPrunedFeatureFanout> = Vec::new();
    let mut j: usize = 0;
    while j < diagnostics.pruned_feature_fanouts.len()
        invariant
            j <= diagnostics.pruned_feature_fanouts@.len(),
            fanouts@.len() == j,
            source == diagnostics.pruned_feature_fanouts@.map_values(
                |f: crate::retrieval::PrunedFeatureFanout|
                    (f.policy@, f.source@, f.reason@, f.feature_family@, f.count),
            ),
            fanout_views(fanouts@) == source.take(j as int),
        decreases diagnostics.pruned_feature_fanouts@.len() - j,
    {
        let f = &diagnostics.pruned_feature_fanouts[j];
        let ghost old_fanouts = fanouts@;
        fanouts.push(
            SearchPrunedFeatureFanout {
                policy: f.policy.clone(),
                source: f.source.clone(),
                reason: f.reason.clone(),
                feature_family: f.feature_family.clone(),
                count: f.count,
            },
        );
        proof {
            assert(source.take(j + 1) =~= source.take(j as int).push(source[j as int]));
            assert(fanout_views(fanouts@) =~= fanout_views(fanouts@.drop_last()).push(
                (f.policy@, f.source@, f.reason@, f.feature_family@, f.count),
            ));
            assert(fanouts@.drop_last() =~= old_fanouts);
        }
        j = j + 1;
    }
    assert(source.take(j as int) =~= source);
    SearchRetrievalObservation {
        candidate_count: diagnostics.candidate_count,
        generated_candidate_count: diagnostics.generated_candidate_count,
        ranked_candidate_count: diagnostics.ranked_candidate_count,
        symbolic_generated_candidate_count: diagnostics.generated_candidate_count,
        merged_generated_candidate_count: merged_generated_count,
        hydrated_external_count: diagnostics.hydrated_external_count,
        pruned_feature_fanout_count: diagnostics.pruned_postings.len(),
        heap_truncations: diagnostics.heap_truncations.len(),
        candidate_count_by_generation_policy: counts,
        pruned_feature_fanouts: fanouts,
    }
}

/// The anchors whose candidate set was cut to its top-k, as an ordered set.
pub fn top_k_saturation_by_anchor(diagnostics: &RetrievalDiagnostics) -> (r: Vec<String>)
    ensures
        sorted_strict(views(r@)),
        views(r@).to_set() == diagnostics.heap_truncations@.map_values(
            |t: crate::retrieval::HeapTruncation| t.anchor_declaration_id@,
        ).to_set(),
{
    let ghost ids = diagnostics.heap_truncations@.map_values(
        |t: crate::retrieval::HeapTruncation| t.anchor_declaration_id@,
    );
    let mut r: Vec<String> = Vec::new();
    let mut i: usize = 0;
    assert(views(r@).to_set() =~= ids.take(0).to_set());
    while i < diagnostics.heap_truncations.len()
        invariant
            i <= diagnostics.heap_truncations@.len(),
            ids == diagnostics.heap_truncations@.map_values(
                |t: crate::retrieval::HeapTruncation| t.anchor_declaration_id@,
            ),
            sorted_strict(views(r@)),
            views(r@).to_set() == ids.take(i as int).to_set(),
        decreases diagnostics.heap_truncations@.len() - i,
    {
        set_insert(&mut r, diagnostics.heap_truncations[i].anchor_declaration_id.clone());
        proof {
            assert(ids.take(i + 1) =~= ids.take(i as int).push(ids[i as int]));
            ids.take(i as int).lemma_push_to_set_commute(ids[i as int]);
        }
        i = i + 1;
    }
    assert(ids.take(i as int) =~= ids);
    r
}

/// The anchors (left names) of the pairs with `flag` set: ranked pairs
/// when `shown_only` is false, shown pairs otherwise.
pub open spec fn anchors_where(pairs: Seq<SearchObservedPair>, shown_only: bool) -> Set<Seq<char>> {
    Set::new(
        |l: Seq<char>|
            exists|i: int|
                0 <= i < pairs.len() && (if shown_only {
                    (#[trigger] pairs[i]).shown
                } else {
                    pairs[i].ranked
                }) && pairs[i].left@ == l,
    )
}

fn distinct_anchors(pairs: &Vec<SearchObservedPair>, shown_only: bool) -> (r: usize)
    ensures
        anchors_where(pairs@, shown_only).finite(),
        r == anchors_where(pairs@, shown_only).len(),
{
    let mut set: Vec<String> = Vec::new();
    let mut i: usize = 0;
    while i < pairs.len()
        invariant
            i <= pairs@.len(),
            sorted_strict(views(set@)),
            views(set@).to_set() == anchors_where(pairs@.take(i as int), shown_only),
        decreases pairs@.len() - i,
    {
        let p = &pairs[i];
        let flag = if shown_only {
            p.shown
        } else {
            p.ranked
        };
        let ghost before = views(set@);
        if flag {
            set_insert(&mut set, p.left.clone());
        }
        proof {
            let t = pairs@.take(i + 1);
            assert forall|l: Seq<char>| #[trigger] anchors_where(t, shown_only).contains(l) == views(
                set@,
            ).to_set().contains(l) by {
                if anchors_where(t, shown_only).contains(l) {
                    let k = choose|k: int|
                        0 <= k < t.len() && (if shown_only {
                            (#[trigger] t[k]).shown
                        } else {
                            t[k].ranked
                        }) && t[k].left@ == l;
                    if k < i {
                        assert(pairs@.take(i as int)[k] == t[k]);
                        assert(anchors_where(pairs@.take(i as int), shown_only).contains(l));
                    }
                }
                if anchors_where(pairs@.take(i as int), shown_only).contains(l) {
                    let k = choose|k: int|
                        0 <= k < i && (if shown_only {
                            (#[trigger] pairs@.take(i as int)[k]).shown
                        } else {
                            pairs@.take(i as int)[k].ranked
                        }) && pairs@.take(i as int)[k].left@ == l;
                    assert(t[k] == pairs@.take(i as int)[k]);
                }
                if flag && l == p.left@ {
                    assert(t[i as int] == *p);
                }
            }
            assert(anchors_where(t, shown_only) =~= views(set@).to_set());
        }
        i = i + 1;
    }
    assert(pairs@.take(i as int) =~= pairs@);
    proof {
        crate::sets::lemma_sorted_strict_len(views(set@));
    }
    set.len()
}

/// How many anchors have a shown pair, and how many have a ranked pair.
pub fn visible_group_counts(pairs: &Vec<SearchObservedPair>) -> (r: (usize, usize))
    ensures
        r.0 == anchors_where(pairs@, true).len(),
        r.1 == anchors_where(pairs@, false).len(),
{
    let visible = distinct_anchors(pairs, true);
    let total = distinct_anchors(pairs, false);
    (visible, total)
}

/// The rank a pair sorts by: its rank, or after every rank when unranked.
pub open spec fn rank_key(r: Option<usize>) -> int {
    match r {
        Some(k) => k as int,
        None => usize::MAX as int,
    }
}

/// Whether pair `a` comes before pair `b`: higher total score first, then
/// lower rank (unranked last), then left name, then right name.
pub open spec fn observed_before(a: SearchObservedPair, b: SearchObservedPair) -> bool {
    if a.scoring.total_score != b.scoring.total_score {
        a.scoring.total_score > b.scoring.total_score
    } else if rank_key(a.rank) != rank_key(b.rank) {
        rank_key(a.rank) < rank_key(b.rank)
    } else if a.left@ != b.left@ {
        crate::text::lex_lt(a.left@, b.left@)
    } else {
        crate::text::lex_lt(a.right@, b.right@)
    }
}

/// `s` with `x` placed before the first element it comes before, or last.
pub open spec fn insert_in_order(s: Seq<SearchObservedPair>, x: SearchObservedPair) -> Seq<SearchObservedPair>
    decreases s.len(),
{
    if s.len() == 0 {
        seq![x]
    } else if observed_before(x, s[0]) {
        seq![x] + s
    } else {
        seq![s[0]] + insert_in_order(s.drop_first(), x)
    }
}

/// The pairs of `s` in observation order, equal pairs keeping their order.
pub open spec fn in_observation_order(s: Seq<SearchObservedPair>) -> Seq<SearchObservedPair>
    decreases s.len(),
{
    if s.len() == 0 {
        s
    } else {
        insert_in_order(in_observation_order(s.drop_last()), s.last())
    }
}

/// The pairs of `s` with ranks renumbered from `next` on: ranked pairs get
/// consecutive ranks in order, the others none.
pub open spec fn renumbered(s: Seq<SearchObservedPair>, next: int) -> Seq<SearchObservedPair>
    decreases s.len(),
{
    if s.len() == 0 {
        s
    } else {
        let p = s[0];
        let q = if p.ranked {
            SearchObservedPair { rank: Some(next as usize), ..p }
        } else {
            SearchObservedPair { rank: None, ..p }
        };
        seq![q] + renumbered(
            s.drop_first(),
            if p.ranked {
                next + 1
            } else {
                next
            },
        )
    }
}

fn rank_key_of(r: Option<usize>) -> (k: usize)
    ensures
        k as int == rank_key(r),
{
    match r {
        Some(k) => k,
        None => usize::MAX,
    }
}

/// Whether pair `a` comes before pair `b` in observation order.
pub fn comes_before(a: &SearchObservedPair, b: &SearchObservedPair) -> (r: bool)
    ensures
        r == observed_before(*a, *b),
{
    if a.scoring.total_score != b.scoring.total_score {
        a.scoring.total_score > b.scoring.total_score
    } else {
        let ka = rank_key_of(a.rank);
        let kb = rank_key_of(b.rank);
        if ka != kb {
            ka < kb
        } else if !str_eq(a.left.as_str(), b.left.as_str()) {
            crate::text::str_lt(a.left.as_str(), b.left.as_str())
        } else {
            crate::text::str_lt(a.right.as_str(), b.right.as_str())
        }
    }
}

proof fn lemma_insert_at(s: Seq<SearchObservedPair>, x: SearchObservedPair, p: int)
    requires
        0 <= p <= s.len(),
        forall|i: int| 0 <= i < p ==> !observed_before(x, #[trigger] s[i]),
        p == s.len() || observed_before(x, s[p]),
    ensures
        insert_in_order(s, x) == s.take(p).push(x) + s.skip(p),
    decreases s.len(),
{
    if s.len() == 0 {
        assert(s.take(p).push(x) + s.skip(p) =~= seq![x]);
    } else if p == 0 {
        assert(s.take(0).push(x) + s.skip(0) =~= seq![x] + s);
    } else {
        let t = s.drop_first();
        assert forall|i: int| 0 <= i < p - 1 implies !observed_before(x, #[trigger] t[i]) by {
            assert(t[i] == s[i + 1]);
        }
        if p - 1 < t.len() {
            assert(t[p - 1] == s[p]);
        }
        lemma_insert_at(t, x, p - 1);
        assert(s.take(p).push(x) + s.skip(p) =~= seq![s[0]] + (t.take(p - 1).push(x) + t.skip(p - 1)));
    }
}

/// Inserts `x` into `out` in observation order.
fn insert_pair(out: &mut Vec<SearchObservedPair>, x: SearchObservedPair)
    ensures
        final(out)@ == insert_in_order(old(out)@, x),
{
    let mut p: usize = 0;
    while p < out.len() && !comes_before(&x, &out[p])
        invariant
            p <= out@.len(),
            out@ == old(out)@,
            forall|i: int| 0 <= i < p ==> !observed_before(x, #[trigger] out@[i]),
        decreases out@.len() - p,
    {
        p = p + 1;
    }
    proof {
        lemma_insert_at(out@, x, p as int);
    }
    out.insert(p, x);
    assert(out@ =~= old(out)@.take(p as int).push(x) + old(out)@.skip(p as int));
}

proof fn lemma_renumbered_len(s: Seq<SearchObservedPair>, next: int)
    ensures
        renumbered(s, next).len() == s.len(),
    decreases s.len(),
{
    if s.len() > 0 {
        lemma_renumbered_len(
            s.drop_first(),
            if s[0].ranked {
                next + 1
            } else {
                next
            },
        );
    }
}

proof fn lemma_insert_len(s: Seq<SearchObservedPair>, x: SearchObservedPair)
    ensures
        insert_in_order(s, x).len() == s.len() + 1,
    decreases s.len(),
{
    if s.len() > 0 && !observed_before(x, s[0]) {
        lemma_insert_len(s.drop_first(), x);
    }
}

proof fn lemma_order_len(s: Seq<SearchObservedPair>)
    ensures
        in_observation_order(s).len() == s.len(),
    decreases s.len(),
{
    if s.len() > 0 {
        lemma_order_len(s.drop_last());
        lemma_insert_len(in_observation_order(s.drop_last()), s.last());
    }
}

/// Orders the pairs by score, then rank, then names, and renumbers the
/// ranks of the ranked pairs from 1.
pub fn rerank_pairs(pairs: &mut Vec<SearchObservedPair>)
    requires
        old(pairs)@.len() < usize::MAX,
    ensures
        final(pairs)@ == renumbered(in_observation_order(old(pairs)@), 1),
{
    let ghost all = pairs@;
    let mut input: Vec<SearchObservedPair> = Vec::new();
    std::mem::swap(&mut input, pairs);
    let n = input.len();
    let mut sorted: Vec<SearchObservedPair> = Vec::new();
    let mut done: usize = 0;
    while input.len() > 0
        invariant
            all.len() == n,
            done + input@.len() == n,
            input@ == all.skip(done as int),
            sorted@ == in_observation_order(all.take(done as int)),
        decreases input@.len(),
    {
        let x = input.remove(0);
        proof {
            assert(all.take(done + 1).drop_last() =~= all.take(done as int));
            assert(all.take(done + 1).last() == x);
            assert(input@ =~= all.skip(done + 1));
        }
        insert_pair(&mut sorted, x);
        done = done + 1;
    }
    proof {
        assert(all.take(done as int) =~= all);
        lemma_order_len(all);
    }
    let ghost ordered = sorted@;
    let mut result: Vec<SearchObservedPair> = Vec::new();
    let mut next: usize = 1;
    while sorted.len() > 0
        invariant
            ordered.len() == n,
            n < usize::MAX,
            result@.len() + sorted@.len() == n,
            1 <= next <= result@.len() + 1,
            sorted@ == ordered.skip(result@.len() as int),
            result@ + renumbered(sorted@, next as int) == renumbered(ordered, 1),
        decreases sorted@.len(),
    {
        let ghost before_sorted = sorted@;
        let ghost before_result = result@;
        let mut p = sorted.remove(0);
        proof {
            assert(sorted@ =~= before_sorted.drop_first());
            assert(sorted@ =~= ordered.skip((before_result.len() + 1) as int));
        }
        if p.ranked {
            p.rank = Some(next);
            next = next + 1;
        } else {
            p.rank = None;
        }
        result.push(p);
        proof {
            assert(result@ + renumbered(sorted@, next as int) =~= before_result + renumbered(
                before_sorted,
                if before_sorted[0].ranked {
                    next - 1
                } else {
                    next as int
                },
            ));
        }
    }
    proof {
        assert(renumbered(sorted@, next as int) =~= Seq::<SearchObservedPair>::empty());
        assert(result@ =~= renumbered(ordered, 1));
    }
    *pairs = result;
}


/// `q` is `p` rescored under `v`: the generation facts and features are
/// kept; the scoring, and the rank and show decisions, follow the scorer.
pub open spec fn rescored_from(p: SearchObservedPair, q: SearchObservedPair, v: SearchScoringVariant) -> bool {
    &&& q == SearchObservedPair {
        ranked: q.ranked,
        shown: q.shown,
        survived_shown_filter: q.survived_shown_filter,
        scoring: q.scoring,
        ..p
    }
    &&& component_views(q.scoring.component_scores@) == components_spec(p.features, v)
    &&& q.scoring.total_score == total_of(components_spec(p.features, v))
    &&& q.scoring.variant == v
    &&& q.scoring.version@ == SCORER_VERSION@
    &&& v == SearchScoringVariant::AllFeatures ==> q.ranked == p.ranked && q.shown == p.shown
    &&& v != SearchScoringVariant::AllFeatures ==> q.ranked == (p.ranked && q.scoring.total_score > 0) && q.shown
        == (q.ranked && q.scoring.total_score >= VISIBLE_SCORE)
    &&& q.survived_shown_filter == q.shown
}

/// What rescoring `o` under `v` gives: `o` itself under its own variant;
/// otherwise every pair rescored, put in observation order and ranked anew,
/// the group counts recomputed, and the other facts of `o` kept.
pub open spec fn rescore_ok(o: SearchObservation, v: SearchScoringVariant, r: SearchObservation) -> bool {
    &&& v == o.scoring.variant ==> r == o
    &&& v != o.scoring.variant ==> {
        &&& exists|rs: Seq<SearchObservedPair>|
            {
                &&& rs.len() == o.pairs@.len()
                &&& forall|i: int| 0 <= i < rs.len() ==> rescored_from(o.pairs@[i], #[trigger] rs[i], v)
                &&& r.pairs@ == renumbered(in_observation_order(rs), 1)
            }
        &&& r.visible_groups_found == anchors_where(r.pairs@, true).len()
        &&& r.visible_groups_total == anchors_where(r.pairs@, false).len()
        &&& r.scoring.variant == v
        &&& r.scoring.version@ == SCORER_VERSION@
        &&& r.review_policy == o.review_policy
        &&& r.semantic_reranking == o.semantic_reranking
        &&& r.semantic_obligation_yield == o.semantic_obligation_yield
        &&& r.retrieval == o.retrieval
    }
}

/// Re-scores an observation under a fixed scorer variant without running
/// retrieval again: generation facts stay, the pairs are rescored, put in
/// observation order and ranked anew, and the group counts recomputed.
/// Under the observation's own variant it is handed back unchanged.
pub fn rescore_observation(observation: SearchObservation, variant: SearchScoringVariant) -> (r: SearchObservation)
    requires
        observation.pairs@.len() < usize::MAX,
        forall|i: int|
            0 <= i < observation.pairs@.len() ==> (#[trigger] observation.pairs@[i]).features.retrieval_feature_families@.len()
                <= 0x1_0000_0000,
    ensures
        rescore_ok(observation, variant, r),
{
    if variant == observation.scoring.variant {
        return observation;
    }
    let ghost given = observation;
    let SearchObservation {
        pairs: mut input,
        review_policy,
        semantic_reranking,
        semantic_obligation_yield,
        retrieval,
        ..
    } = observation;
    let ghost all = input@;
    let n = input.len();
    let mut pairs: Vec<SearchObservedPair> = Vec::new();
    while input.len() > 0
        invariant
            all.len() == n,
            n < usize::MAX,
            pairs@.len() + input@.len() == n,
            input@ == all.skip(pairs@.len() as int),
            forall|i: int|
                0 <= i < all.len() ==> (#[trigger] all[i]).features.retrieval_feature_families@.len()
                    <= 0x1_0000_0000,
            forall|i: int| 0 <= i < pairs@.len() ==> rescored_from(all[i], #[trigger] pairs@[i], variant),
        decreases input@.len(),
    {
        let ghost k = pairs@.len();
        let mut pair = input.remove(0);
        proof {
            assert(pair == all[k as int]);
            assert(input@ =~= all.skip((k + 1) as int));
        }
        let scored = score_observation(&pair.features, variant, pair.ranked, pair.shown);
        pair.ranked = scored.ranked;
        pair.shown = scored.shown;
        pair.survived_shown_filter = scored.survived_shown_filter;
        pair.scoring = scored.scoring;
        pairs.push(pair);
    }
    let ghost rs = pairs@;
    rerank_pairs(&mut pairs);
    let (visible_groups_found, visible_groups_total) = visible_group_counts(&pairs);
    let r = SearchObservation {
        pairs,
        visible_groups_found,
        visible_groups_total,
        scoring: SearchScoringSummary::new(variant),
        review_policy,
        semantic_reranking,
        semantic_obligation_yield,
        retrieval,
    };
    assert(rs.len() == given.pairs@.len());
    r
}


proof fn lemma_insert_multiset(s: Seq<SearchObservedPair>, x: SearchObservedPair)
    ensures
        insert_in_order(s, x).to_multiset() =~= s.to_multiset().insert(x),
    decreases s.len(),
{
    if s.len() == 0 {
        vstd::seq_lib::to_multiset_build(s, x);
        assert(s.push(x) =~= seq![x]);
    } else if observed_before(x, s[0]) {
        vstd::seq_lib::to_multiset_insert(s, 0, x);
        assert(s.insert(0, x) =~= seq![x] + s);
    } else {
        let t = s.drop_first();
        lemma_insert_multiset(t, x);
        vstd::seq_lib::lemma_multiset_commutative(seq![s[0]], insert_in_order(t, x));
        vstd::seq_lib::lemma_multiset_commutative(seq![s[0]], t);
        assert(s =~= seq![s[0]] + t);
    }
}

proof fn lemma_order_multiset(s: Seq<SearchObservedPair>)
    ensures
        in_observation_order(s).to_multiset() =~= s.to_multiset(),
    decreases s.len(),
{
    if s.len() > 0 {
        lemma_order_multiset(s.drop_last());
        lemma_insert_multiset(in_observation_order(s.drop_last()), s.last());
        vstd::seq_lib::to_multiset_build(s.drop_last(), s.last());
        assert(s.drop_last().push(s.last()) =~= s);
    }
}

/// `a` is `b` but for its rank, which it has exactly when `b` is ranked.
pub open spec fn same_but_rank(a: SearchObservedPair, b: SearchObservedPair) -> bool {
    &&& a == SearchObservedPair { rank: a.rank, ..b }
    &&& (a.rank is Some) == b.ranked
}

proof fn lemma_renumbered_pointwise(s: Seq<SearchObservedPair>, next: int)
    ensures
        renumbered(s, next).len() == s.len(),
        forall|i: int| 0 <= i < s.len() ==> same_but_rank(#[trigger] renumbered(s, next)[i], s[i]),
    decreases s.len(),
{
    lemma_renumbered_len(s, next);
    if s.len() > 0 {
        let nx = if s[0].ranked {
            next + 1
        } else {
            next
        };
        lemma_renumbered_pointwise(s.drop_first(), nx);
        let r = renumbered(s, next);
        assert forall|i: int| 1 <= i < s.len() implies #[trigger] r[i] == renumbered(s.drop_first(), nx)[i - 1] by {}
    }
}

/// Reranking keeps every pair: the pairs in observation order are the
/// given pairs, and renumbering changes only their ranks, giving a rank to
/// exactly the ranked pairs.
pub proof fn lemma_rerank_keeps_every_pair(s: Seq<SearchObservedPair>)
    ensures
        in_observation_order(s).to_multiset() == s.to_multiset(),
        renumbered(in_observation_order(s), 1).len() == s.len(),
        forall|i: int|
            0 <= i < s.len() ==> same_but_rank(
                #[trigger] renumbered(in_observation_order(s), 1)[i],
                in_observation_order(s)[i],
            ),
{
    lemma_order_multiset(s);
    lemma_order_len(s);
    lemma_renumbered_pointwise(in_observation_order(s), 1);
}


/// Rescoring with the semantic-only variant an observation whose pairs carry
/// no semantic evidence keeps every pair and the retrieval counters, and
/// shows no pair and no group.
pub proof fn lemma_semantic_only_rescore_hides_every_pair(o: SearchObservation, r: SearchObservation)
    requires
        o.scoring.variant != SearchScoringVariant::SemanticEvidenceOnlyRerank,
        forall|i: int|
            0 <= i < o.pairs@.len() ==> (#[trigger] o.pairs@[i]).features.semantic_evidence_state
                == SearchSemanticEvidenceState::NotRun,
        rescore_ok(o, SearchScoringVariant::SemanticEvidenceOnlyRerank, r),
    ensures
        r.pairs@.len() == o.pairs@.len(),
        forall|i: int| 0 <= i < r.pairs@.len() ==> !(#[trigger] r.pairs@[i]).shown,
        r.visible_groups_found == 0,
        r.retrieval == o.retrieval,
        r.scoring.variant == SearchScoringVariant::SemanticEvidenceOnlyRerank,
{
    let v = SearchScoringVariant::SemanticEvidenceOnlyRerank;
    let rs = choose|rs: Seq<SearchObservedPair>|
        {
            &&& rs.len() == o.pairs@.len()
            &&& forall|i: int| 0 <= i < rs.len() ==> rescored_from(o.pairs@[i], #[trigger] rs[i], v)
            &&& r.pairs@ == renumbered(in_observation_order(rs), 1)
        };
    assert forall|i: int| 0 <= i < rs.len() implies !(#[trigger] rs[i]).shown by {
        assert(rescored_from(o.pairs@[i], rs[i], v));
        crate::scorer::lemma_semantic_only_without_evidence(o.pairs@[i].features);
    }
    lemma_rerank_keeps_every_pair(rs);
    lemma_order_len(rs);
    let ordered = in_observation_order(rs);
    assert forall|i: int| 0 <= i < r.pairs@.len() implies !(#[trigger] r.pairs@[i]).shown by {
        assert(same_but_rank(r.pairs@[i], ordered[i]));
        assert(ordered.to_multiset().count(ordered[i]) > 0) by {
            broadcast use vstd::seq_lib::group_to_multiset_ensures;
            assert(ordered.contains(ordered[i]));
        }
        assert(rs.contains(ordered[i])) by {
            broadcast use vstd::seq_lib::group_to_multiset_ensures;
        }
        let j = choose|j: int| 0 <= j < rs.len() && rs[j] == ordered[i];
        assert(!rs[j].shown);
    }
    assert(anchors_where(r.pairs@, true) =~= Set::empty());
}

} // verus!
