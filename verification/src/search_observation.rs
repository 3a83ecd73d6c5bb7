//! Assembling search observations from retrieval output: every ranked
//! candidate becomes an observed pair with its features, scoring and
//! symbolic source fact; then come the pairs evaluation follows that
//! retrieval generated but did not select.
use vstd::prelude::*;

use crate::declaration::HydratedDeclaration;
use crate::observation::{
    generation_policy_for_ranked, generation_policy_of, retrieval_observation, retrieval_observation_ok,
    symbolic_source_fact, check_compact_variant, compact_variant, ObservationError, SearchCandidateSourceFact, SearchCandidateSourceFamily, SearchCandidateTopKStatus,
    rescore_ok, SearchObservation, SearchObservedPair, SearchStageObservation, SearchStageObservedPair, SearchTrackedPair,
};
use crate::pair_features::{SearchSemanticEvidenceState, family_set, feature_families, lemma_family_count, pair_features, pair_features_ok};
use crate::retrieval::{CandidateSet, HeapTruncation, KeyContribution, RetrievalDiagnostics};
use crate::review_policy::{observation_visible_spec, summary, symbolic_observation_visible, REVIEW_POLICY_VERSION};
use crate::scorer::{
    component_views, components_spec, score_observation, total_of, SearchScoringSummary, SearchScoringVariant,
    SCORER_VERSION, VISIBLE_SCORE,
};
use crate::semantic::{semantic_reranking_summary, SEMANTIC_RERANKING_VERSION};
use crate::text::lex_lt;
use crate::sets::{clone_strings, is_ordered_set, lemma_ordered_set_unique, lemma_sorted_strict_len, views};
use crate::vector_candidates::{pair_key, pair_key_of};
use crate::vector_workload::stable_pair_id_of;

verus! {

/// What retrieval returns: the candidate sets of the workspace
/// declarations, and its diagnostics.
#[derive(Debug, Clone)]
pub struct RetrievalOutput {
    pub candidate_sets: Vec<CandidateSet>,
    pub diagnostics: RetrievalDiagnostics,
}

/// The evidence that retrieval generated a pair: its generation policy and
/// the key contributions.
#[derive(Debug, Clone)]
pub struct GeneratedPairEvidence {
    pub policy: String,
    pub contributions: Vec<KeyContribution>,
}

/// The anchors whose candidate set was cut to its top-k.
pub open spec fn saturated_anchor_ids(d: RetrievalDiagnostics) -> Set<Seq<char>> {
    d.heap_truncations@.map_values(|t: HeapTruncation| t.anchor_declaration_id@).to_set()
}

/// `f` is the symbolic-retrieval source fact of `anchor` and `candidate`.
pub open spec fn symbolic_fact_ok(
    f: SearchCandidateSourceFact,
    anchor: HydratedDeclaration,
    candidate: HydratedDeclaration,
    cs: Seq<KeyContribution>,
    generation_rank: Option<usize>,
    status: SearchCandidateTopKStatus,
    saturated: bool,
) -> bool {
    &&& f.source_id@ == "symbolic-retrieval"@
    &&& f.source_family == SearchCandidateSourceFamily::Symbolic
    &&& f.pair_id@ == stable_pair_id_of(anchor.declaration_id@, candidate.declaration_id@)
    &&& f.left_declaration_id@ == anchor.declaration_id@
    &&& f.right_declaration_id@ == candidate.declaration_id@
    &&& f.origin@ == candidate.origin@
    &&& f.generation_rank == generation_rank
    &&& f.top_k_status == status
    &&& f.top_k_saturated == saturated
    &&& is_ordered_set(f.feature_families@, family_set(cs))
}

/// `p` is the observed pair of `anchor` and `candidate` with contributions
/// `cs`, scored under `v` from the default decisions `default_ranked` and
/// the default symbolic visibility.
pub open spec fn observed_pair_ok(
    p: SearchObservedPair,
    anchor: HydratedDeclaration,
    candidate: HydratedDeclaration,
    cs: Seq<KeyContribution>,
    v: SearchScoringVariant,
    default_ranked: bool,
    generation_rank: Option<usize>,
    policy: Seq<char>,
    status: SearchCandidateTopKStatus,
    saturated: bool,
) -> bool {
    let shown = observation_visible_spec(anchor, candidate, cs);
    let total = p.scoring.total_score;
    &&& p.left@ == anchor.qualified_name@
    &&& p.right@ == candidate.qualified_name@
    &&& p.left_declaration_id@ == anchor.declaration_id@
    &&& p.right_declaration_id@ == candidate.declaration_id@
    &&& p.generated && p.symbolic_generated && p.merged_generated
    &&& p.generation_policy@ == policy
    &&& p.origin@ == candidate.origin@
    &&& is_ordered_set(p.feature_families@, family_set(cs))
    &&& pair_features_ok(p.features, anchor, candidate, cs, None)
    &&& component_views(p.scoring.component_scores@) == components_spec(p.features, v)
    &&& total == total_of(components_spec(p.features, v))
    &&& p.scoring.variant == v
    &&& p.scoring.version@ == SCORER_VERSION@
    &&& v == SearchScoringVariant::AllFeatures ==> p.ranked == default_ranked && p.shown == shown
    &&& v != SearchScoringVariant::AllFeatures ==> p.ranked == (default_ranked && total > 0) && p.shown == (p.ranked
        && total >= VISIBLE_SCORE)
    &&& p.survived_shown_filter == p.shown
    &&& p.rank == (if p.ranked {
        generation_rank
    } else {
        None
    })
    &&& p.candidate_sources@.len() == 1
    &&& symbolic_fact_ok(p.candidate_sources@[0], anchor, candidate, cs, generation_rank, status, saturated)
}

/// `p` is the stage facts of `anchor` and `candidate` with contributions
/// `cs`, ranked or not, shown by the default symbolic visibility.
pub open spec fn stage_pair_ok(
    p: SearchStageObservedPair,
    anchor: HydratedDeclaration,
    candidate: HydratedDeclaration,
    cs: Seq<KeyContribution>,
    ranked: bool,
    generation_rank: Option<usize>,
    policy: Seq<char>,
    status: SearchCandidateTopKStatus,
    saturated: bool,
) -> bool {
    &&& p.left@ == anchor.qualified_name@
    &&& p.right@ == candidate.qualified_name@
    &&& p.left_declaration_id@ == anchor.declaration_id@
    &&& p.right_declaration_id@ == candidate.declaration_id@
    &&& p.generated && p.symbolic_generated && p.merged_generated
    &&& p.ranked == ranked
    &&& p.generation_policy@ == policy
    &&& p.rank == generation_rank
    &&& p.shown == observation_visible_spec(anchor, candidate, cs)
    &&& p.survived_shown_filter == p.shown
    &&& p.origin@ == candidate.origin@
    &&& is_ordered_set(p.feature_families@, family_set(cs))
    &&& p.candidate_sources@.len() == 1
    &&& symbolic_fact_ok(p.candidate_sources@[0], anchor, candidate, cs, generation_rank, status, saturated)
}

/// Whether `anchor_id` is among the anchors whose candidate set was cut.
fn anchor_saturated(d: &RetrievalDiagnostics, anchor_id: &String) -> (r: bool)
    ensures
        r == saturated_anchor_ids(*d).contains(anchor_id@),
{
    let ghost ids = d.heap_truncations@.map_values(|t: HeapTruncation| t.anchor_declaration_id@);
    let mut i: usize = 0;
    while i < d.heap_truncations.len()
        invariant
            i <= d.heap_truncations@.len(),
            ids == d.heap_truncations@.map_values(|t: HeapTruncation| t.anchor_declaration_id@),
            forall|k: int| 0 <= k < i ==> ids[k] != anchor_id@,
        decreases d.heap_truncations@.len() - i,
    {
        if crate::text::str_eq(d.heap_truncations[i].anchor_declaration_id.as_str(), anchor_id.as_str()) {
            proof {
                assert(ids[i as int] == anchor_id@);
                assert(ids.to_set().contains(ids[i as int]));
            }
            return true;
        }
        i = i + 1;
    }
    proof {
        if ids.to_set().contains(anchor_id@) {
            let k = choose|k: int| 0 <= k < ids.len() && ids[k] == anchor_id@;
            assert(ids[k] != anchor_id@);
        }
    }
    false
}

/// The observed pair of a candidate, from its contributions.
fn observed_pair(
    anchor: &HydratedDeclaration,
    candidate: &HydratedDeclaration,
    cs: &Vec<KeyContribution>,
    variant: SearchScoringVariant,
    default_ranked: bool,
    generation_rank: Option<usize>,
    policy: String,
    status: SearchCandidateTopKStatus,
    saturated: bool,
) -> (p: SearchObservedPair)
    requires
        cs@.len() < 0x1_0000_0000,
    ensures
        observed_pair_ok(
            p,
            *anchor,
            *candidate,
            cs@,
            variant,
            default_ranked,
            generation_rank,
            policy@,
            status,
            saturated,
        ),
{
    let shown = symbolic_observation_visible(anchor, candidate, cs);
    let features = pair_features(anchor, candidate, cs);
    proof {
        lemma_family_count(cs@);
        lemma_sorted_strict_len(views(features.retrieval_feature_families@));
        assert(views(features.retrieval_feature_families@).len() == features.retrieval_feature_families@.len());
    }
    let scored = score_observation(&features, variant, default_ranked, shown);
    let families = feature_families(cs);
    let fact_families = clone_strings(&families);
    let fact = symbolic_source_fact(
        anchor,
        candidate,
        candidate.origin.as_str(),
        generation_rank,
        status,
        saturated,
        fact_families,
    );
    let rank = if scored.ranked {
        generation_rank
    } else {
        None
    };
    SearchObservedPair {
        left: anchor.qualified_name.clone(),
        right: candidate.qualified_name.clone(),
        left_declaration_id: anchor.declaration_id.clone(),
        right_declaration_id: candidate.declaration_id.clone(),
        generated: true,
        symbolic_generated: true,
        merged_generated: true,
        ranked: scored.ranked,
        generation_policy: policy,
        rank,
        shown: scored.shown,
        origin: candidate.origin.clone(),
        feature_families: families,
        candidate_sources: vec![fact],
        survived_shown_filter: scored.survived_shown_filter,
        features,
        scoring: scored.scoring,
    }
}

/// The stage facts of a candidate, from its contributions.
fn stage_pair(
    anchor: &HydratedDeclaration,
    candidate: &HydratedDeclaration,
    cs: &Vec<KeyContribution>,
    ranked: bool,
    generation_rank: Option<usize>,
    policy: String,
    status: SearchCandidateTopKStatus,
    saturated: bool,
) -> (p: SearchStageObservedPair)
    ensures
        stage_pair_ok(p, *anchor, *candidate, cs@, ranked, generation_rank, policy@, status, saturated),
{
    let shown = symbolic_observation_visible(anchor, candidate, cs);
    let families = feature_families(cs);
    let fact_families = clone_strings(&families);
    let fact = symbolic_source_fact(
        anchor,
        candidate,
        candidate.origin.as_str(),
        generation_rank,
        status,
        saturated,
        fact_families,
    );
    SearchStageObservedPair {
        left: anchor.qualified_name.clone(),
        right: candidate.qualified_name.clone(),
        left_declaration_id: anchor.declaration_id.clone(),
        right_declaration_id: candidate.declaration_id.clone(),
        generated: true,
        symbolic_generated: true,
        merged_generated: true,
        ranked,
        generation_policy: policy,
        rank: generation_rank,
        shown,
        origin: candidate.origin.clone(),
        feature_families: families,
        candidate_sources: vec![fact],
        survived_shown_filter: shown,
    }
}

/// The observed pair of a followed pair that retrieval generated but did
/// not select: never ranked by default, without a generation rank.
pub fn generated_observed_pair(
    anchor: &HydratedDeclaration,
    candidate: &HydratedDeclaration,
    evidence: GeneratedPairEvidence,
    variant: SearchScoringVariant,
) -> (p: SearchObservedPair)
    requires
        evidence.contributions@.len() < 0x1_0000_0000,
    ensures
        observed_pair_ok(
            p,
            *anchor,
            *candidate,
            evidence.contributions@,
            variant,
            false,
            None,
            evidence.policy@,
            SearchCandidateTopKStatus::GeneratedNotSelected,
            false,
        ),
{
    observed_pair(
        anchor,
        candidate,
        &evidence.contributions,
        variant,
        false,
        None,
        evidence.policy,
        SearchCandidateTopKStatus::GeneratedNotSelected,
        false,
    )
}

/// The stage facts of a followed pair that retrieval generated but did not
/// select.
pub fn generated_stage_pair(
    anchor: &HydratedDeclaration,
    candidate: &HydratedDeclaration,
    evidence: GeneratedPairEvidence,
) -> (p: SearchStageObservedPair)
    ensures
        stage_pair_ok(
            p,
            *anchor,
            *candidate,
            evidence.contributions@,
            false,
            None,
            evidence.policy@,
            SearchCandidateTopKStatus::GeneratedNotSelected,
            false,
        ),
{
    stage_pair(
        anchor,
        candidate,
        &evidence.contributions,
        false,
        None,
        evidence.policy,
        SearchCandidateTopKStatus::GeneratedNotSelected,
        false,
    )
}


/// How many candidates the sets hold in all.
pub open spec fn candidate_total(sets: Seq<CandidateSet>) -> nat
    decreases sets.len(),
{
    if sets.len() == 0 {
        0
    } else {
        candidate_total(sets.drop_last()) + sets.last().candidates@.len()
    }
}

/// Whether a candidate of the set is shown by the default symbolic
/// visibility.
pub open spec fn set_has_visible(set: CandidateSet) -> bool {
    exists|i: int|
        0 <= i < set.candidates@.len() && observation_visible_spec(
            set.anchor,
            (#[trigger] set.candidates@[i]).declaration,
            set.candidates@[i].explanation.contributions@,
        )
}

/// How many sets have a shown candidate.
pub open spec fn visible_set_count(sets: Seq<CandidateSet>) -> nat
    decreases sets.len(),
{
    if sets.len() == 0 {
        0
    } else {
        visible_set_count(sets.drop_last()) + if set_has_visible(sets.last()) {
            1nat
        } else {
            0nat
        }
    }
}

/// How many observed pairs were generated by any source.
pub open spec fn merged_count(pairs: Seq<SearchObservedPair>) -> nat
    decreases pairs.len(),
{
    if pairs.len() == 0 {
        0
    } else {
        merged_count(pairs.drop_last()) + if pairs.last().merged_generated {
            1nat
        } else {
            0nat
        }
    }
}

/// How many stage pairs were generated by any source.
pub open spec fn merged_stage_count(pairs: Seq<SearchStageObservedPair>) -> nat
    decreases pairs.len(),
{
    if pairs.len() == 0 {
        0
    } else {
        merged_stage_count(pairs.drop_last()) + if pairs.last().merged_generated {
            1nat
        } else {
            0nat
        }
    }
}

proof fn lemma_total_step(sets: Seq<CandidateSet>, s: int)
    requires
        0 <= s < sets.len(),
    ensures
        candidate_total(sets.take(s + 1)) == candidate_total(sets.take(s)) + sets[s].candidates@.len(),
        visible_set_count(sets.take(s + 1)) == visible_set_count(sets.take(s)) + if set_has_visible(sets[s]) {
            1nat
        } else {
            0nat
        },
{
    assert(sets.take(s + 1).drop_last() =~= sets.take(s));
}

proof fn lemma_total_monotone(sets: Seq<CandidateSet>, a: int, b: int)
    requires
        0 <= a < b <= sets.len(),
    ensures
        candidate_total(sets.take(a)) + sets[a].candidates@.len() <= candidate_total(sets.take(b)),
    decreases b - a,
{
    lemma_total_step(sets, a);
    if a + 1 < b {
        lemma_total_monotone(sets, a + 1, b);
        lemma_total_step(sets, a + 1);
    } else {
    }
}

/// The ranked candidates of a retrieval output, in set order, each at
/// its rank within its set.
pub open spec fn ranked_pairs_ok(
    pairs: Seq<SearchObservedPair>,
    output: RetrievalOutput,
    sets_done: int,
    v: SearchScoringVariant,
) -> bool {
    let sets = output.candidate_sets@;
    forall|s: int, i: int|
        0 <= s < sets_done && 0 <= i < sets[s].candidates@.len() ==> observed_pair_ok(
            pairs[candidate_total(sets.take(s)) + i],
            sets[s].anchor,
            (#[trigger] sets[s].candidates@[i]).declaration,
            sets[s].candidates@[i].explanation.contributions@,
            v,
            true,
            Some((i + 1) as usize),
            generation_policy_of(sets[s].candidates@[i].declaration),
            SearchCandidateTopKStatus::Selected,
            saturated_anchor_ids(output.diagnostics).contains(sets[s].anchor.declaration_id@),
        )
}

/// The stage facts of the ranked candidates of a retrieval output.
pub open spec fn ranked_stage_pairs_ok(pairs: Seq<SearchStageObservedPair>, output: RetrievalOutput, sets_done: int) -> bool {
    let sets = output.candidate_sets@;
    forall|s: int, i: int|
        0 <= s < sets_done && 0 <= i < sets[s].candidates@.len() ==> stage_pair_ok(
            pairs[candidate_total(sets.take(s)) + i],
            sets[s].anchor,
            (#[trigger] sets[s].candidates@[i]).declaration,
            sets[s].candidates@[i].explanation.contributions@,
            true,
            Some((i + 1) as usize),
            generation_policy_of(sets[s].candidates@[i].declaration),
            SearchCandidateTopKStatus::Selected,
            saturated_anchor_ids(output.diagnostics).contains(sets[s].anchor.declaration_id@),
        )
}

fn count_merged(pairs: &Vec<SearchObservedPair>) -> (n: usize)
    ensures
        n == merged_count(pairs@),
{
    let mut n: usize = 0;
    let mut i: usize = 0;
    while i < pairs.len()
        invariant
            i <= pairs@.len(),
            n == merged_count(pairs@.take(i as int)),
            n <= i,
        decreases pairs@.len() - i,
    {
        proof {
            assert(pairs@.take(i + 1).drop_last() =~= pairs@.take(i as int));
        }
        if pairs[i].merged_generated {
            n = n + 1;
        }
        i = i + 1;
    }
    assert(pairs@.take(i as int) =~= pairs@);
    n
}

fn count_merged_stage(pairs: &Vec<SearchStageObservedPair>) -> (n: usize)
    ensures
        n == merged_stage_count(pairs@),
{
    let mut n: usize = 0;
    let mut i: usize = 0;
    while i < pairs.len()
        invariant
            i <= pairs@.len(),
            n == merged_stage_count(pairs@.take(i as int)),
            n <= i,
        decreases pairs@.len() - i,
    {
        proof {
            assert(pairs@.take(i + 1).drop_last() =~= pairs@.take(i as int));
        }
        if pairs[i].merged_generated {
            n = n + 1;
        }
        i = i + 1;
    }
    assert(pairs@.take(i as int) =~= pairs@);
    n
}

/// The observed pairs of the ranked candidates of `output`, and how many
/// candidate sets have a shown candidate.
fn ranked_observed_pairs(output: &RetrievalOutput, variant: SearchScoringVariant) -> (r: (
    Vec<SearchObservedPair>,
    usize,
))
    requires
        forall|s: int, i: int|
            0 <= s < output.candidate_sets@.len() && 0 <= i < output.candidate_sets@[s].candidates@.len()
                ==> (#[trigger] output.candidate_sets@[s].candidates@[i]).explanation.contributions@.len()
                < 0x1_0000_0000,
    ensures
        r.0@.len() == candidate_total(output.candidate_sets@),
        ranked_pairs_ok(r.0@, *output, output.candidate_sets@.len() as int, variant),
        forall|k: int|
            0 <= k < r.0@.len() ==> (#[trigger] r.0@[k]).features.semantic_evidence_state
                == SearchSemanticEvidenceState::NotRun,
        r.1 == visible_set_count(output.candidate_sets@),
{
    let ghost sets = output.candidate_sets@;
    let mut pairs: Vec<SearchObservedPair> = Vec::new();
    let mut found: usize = 0;
    let mut s: usize = 0;
    while s < output.candidate_sets.len()
        invariant
            sets == output.candidate_sets@,
            s <= sets.len(),
            pairs@.len() == candidate_total(sets.take(s as int)),
            ranked_pairs_ok(pairs@, *output, s as int, variant),
            forall|k: int|
                0 <= k < pairs@.len() ==> (#[trigger] pairs@[k]).features.semantic_evidence_state
                    == SearchSemanticEvidenceState::NotRun,
            found == visible_set_count(sets.take(s as int)),
            found <= s,
            forall|s2: int, i: int|
                0 <= s2 < sets.len() && 0 <= i < sets[s2].candidates@.len()
                    ==> (#[trigger] sets[s2].candidates@[i]).explanation.contributions@.len() < 0x1_0000_0000,
        decreases sets.len() - s,
    {
        let set = &output.candidate_sets[s];
        let saturated = anchor_saturated(&output.diagnostics, &set.anchor.declaration_id);
        let mut any = false;
        let mut i: usize = 0;
        let ghost base = pairs@.len();
        while i < set.candidates.len()
            invariant
                sets == output.candidate_sets@,
                s < sets.len(),
                *set == sets[s as int],
                base == candidate_total(sets.take(s as int)),
                i <= set.candidates@.len(),
                pairs@.len() == base + i,
                ranked_pairs_ok(pairs@, *output, s as int, variant),
                forall|k: int|
                    0 <= k < pairs@.len() ==> (#[trigger] pairs@[k]).features.semantic_evidence_state
                        == SearchSemanticEvidenceState::NotRun,
                forall|k: int|
                    0 <= k < i ==> observed_pair_ok(
                        pairs@[base + k],
                        set.anchor,
                        (#[trigger] set.candidates@[k]).declaration,
                        set.candidates@[k].explanation.contributions@,
                        variant,
                        true,
                        Some((k + 1) as usize),
                        generation_policy_of(set.candidates@[k].declaration),
                        SearchCandidateTopKStatus::Selected,
                        saturated,
                    ),
                saturated == saturated_anchor_ids(output.diagnostics).contains(set.anchor.declaration_id@),
                any == exists|k: int|
                    0 <= k < i && observation_visible_spec(
                        set.anchor,
                        (#[trigger] set.candidates@[k]).declaration,
                        set.candidates@[k].explanation.contributions@,
                    ),
                forall|s2: int, k: int|
                    0 <= s2 < sets.len() && 0 <= k < sets[s2].candidates@.len()
                        ==> (#[trigger] sets[s2].candidates@[k]).explanation.contributions@.len() < 0x1_0000_0000,
            decreases set.candidates@.len() - i,
        {
            let c = &set.candidates[i];
            let shown = symbolic_observation_visible(&set.anchor, &c.declaration, &c.explanation.contributions);
            let policy = generation_policy_for_ranked(&c.declaration);
            let ghost before = pairs@;
            let p = observed_pair(
                &set.anchor,
                &c.declaration,
                &c.explanation.contributions,
                variant,
                true,
                Some(i + 1),
                policy,
                SearchCandidateTopKStatus::Selected,
                saturated,
            );
            pairs.push(p);
            proof {
                assert forall|s2: int, k: int|
                    0 <= s2 < s && 0 <= k < sets[s2].candidates@.len() implies candidate_total(sets.take(s2)) + k
                    < before.len() && #[trigger] sets[s2].candidates@[k] == sets[s2].candidates@[k] by {
                    lemma_total_monotone(sets, s2, s as int);
                }
                assert forall|s2: int, k: int|
                    0 <= s2 < s && 0 <= k < sets[s2].candidates@.len() implies observed_pair_ok(
                    pairs@[candidate_total(sets.take(s2)) + k],
                    sets[s2].anchor,
                    (#[trigger] sets[s2].candidates@[k]).declaration,
                    sets[s2].candidates@[k].explanation.contributions@,
                    variant,
                    true,
                    Some((k + 1) as usize),
                    generation_policy_of(sets[s2].candidates@[k].declaration),
                    SearchCandidateTopKStatus::Selected,
                    saturated_anchor_ids(output.diagnostics).contains(sets[s2].anchor.declaration_id@),
                ) by {
                    lemma_total_monotone(sets, s2, s as int);
                    assert(pairs@[candidate_total(sets.take(s2)) + k] == before[candidate_total(sets.take(s2)) + k]);
                }
                assert(pairs@[base + i] == p);
            }
            any = any || shown;
            i = i + 1;
        }
        proof {
            lemma_total_step(sets, s as int);
            assert(any == set_has_visible(sets[s as int]));
            assert forall|s2: int, k: int|
                0 <= s2 < s + 1 && 0 <= k < sets[s2].candidates@.len() implies observed_pair_ok(
                pairs@[candidate_total(sets.take(s2)) + k],
                sets[s2].anchor,
                (#[trigger] sets[s2].candidates@[k]).declaration,
                sets[s2].candidates@[k].explanation.contributions@,
                variant,
                true,
                Some((k + 1) as usize),
                generation_policy_of(sets[s2].candidates@[k].declaration),
                SearchCandidateTopKStatus::Selected,
                saturated_anchor_ids(output.diagnostics).contains(sets[s2].anchor.declaration_id@),
            ) by {
                if s2 == s {
                    assert(set.candidates@[k] == sets[s2].candidates@[k]);
                }
            }
        }
        if any {
            found = found + 1;
        }
        s = s + 1;
    }
    proof {
        assert(sets.take(s as int) =~= sets);
    }
    (pairs, found)
}

/// The stage facts of the ranked candidates of `output`, and how many
/// candidate sets have a shown candidate.
fn ranked_stage_pairs(output: &RetrievalOutput) -> (r: (Vec<SearchStageObservedPair>, usize))
    ensures
        r.0@.len() == candidate_total(output.candidate_sets@),
        ranked_stage_pairs_ok(r.0@, *output, output.candidate_sets@.len() as int),
        r.1 == visible_set_count(output.candidate_sets@),
{
    let ghost sets = output.candidate_sets@;
    let mut pairs: Vec<SearchStageObservedPair> = Vec::new();
    let mut found: usize = 0;
    let mut s: usize = 0;
    while s < output.candidate_sets.len()
        invariant
            sets == output.candidate_sets@,
            s <= sets.len(),
            pairs@.len() == candidate_total(sets.take(s as int)),
            ranked_stage_pairs_ok(pairs@, *output, s as int),
            found == visible_set_count(sets.take(s as int)),
            found <= s,
        decreases sets.len() - s,
    {
        let set = &output.candidate_sets[s];
        let saturated = anchor_saturated(&output.diagnostics, &set.anchor.declaration_id);
        let mut any = false;
        let mut i: usize = 0;
        let ghost base = pairs@.len();
        while i < set.candidates.len()
            invariant
                sets == output.candidate_sets@,
                s < sets.len(),
                *set == sets[s as int],
                base == candidate_total(sets.take(s as int)),
                i <= set.candidates@.len(),
                pairs@.len() == base + i,
                ranked_stage_pairs_ok(pairs@, *output, s as int),
                forall|k: int|
                    0 <= k < i ==> stage_pair_ok(
                        pairs@[base + k],
                        set.anchor,
                        (#[trigger] set.candidates@[k]).declaration,
                        set.candidates@[k].explanation.contributions@,
                        true,
                        Some((k + 1) as usize),
                        generation_policy_of(set.candidates@[k].declaration),
                        SearchCandidateTopKStatus::Selected,
                        saturated,
                    ),
                saturated == saturated_anchor_ids(output.diagnostics).contains(set.anchor.declaration_id@),
                any == exists|k: int|
                    0 <= k < i && observation_visible_spec(
                        set.anchor,
                        (#[trigger] set.candidates@[k]).declaration,
                        set.candidates@[k].explanation.contributions@,
                    ),
            decreases set.candidates@.len() - i,
        {
            let c = &set.candidates[i];
            let shown = symbolic_observation_visible(&set.anchor, &c.declaration, &c.explanation.contributions);
            let policy = generation_policy_for_ranked(&c.declaration);
            let ghost before = pairs@;
            let p = stage_pair(
                &set.anchor,
                &c.declaration,
                &c.explanation.contributions,
                true,
                Some(i + 1),
                policy,
                SearchCandidateTopKStatus::Selected,
                saturated,
            );
            pairs.push(p);
            proof {
                assert forall|s2: int, k: int|
                    0 <= s2 < s && 0 <= k < sets[s2].candidates@.len() implies candidate_total(sets.take(s2)) + k
                    < before.len() && #[trigger] sets[s2].candidates@[k] == sets[s2].candidates@[k] by {
                    lemma_total_monotone(sets, s2, s as int);
                }
                assert forall|s2: int, k: int|
                    0 <= s2 < s && 0 <= k < sets[s2].candidates@.len() implies stage_pair_ok(
                    pairs@[candidate_total(sets.take(s2)) + k],
                    sets[s2].anchor,
                    (#[trigger] sets[s2].candidates@[k]).declaration,
                    sets[s2].candidates@[k].explanation.contributions@,
                    true,
                    Some((k + 1) as usize),
                    generation_policy_of(sets[s2].candidates@[k].declaration),
                    SearchCandidateTopKStatus::Selected,
                    saturated_anchor_ids(output.diagnostics).contains(sets[s2].anchor.declaration_id@),
                ) by {
                    lemma_total_monotone(sets, s2, s as int);
                    assert(pairs@[candidate_total(sets.take(s2)) + k] == before[candidate_total(sets.take(s2)) + k]);
                }
                assert(pairs@[base + i] == p);
            }
            any = any || shown;
            i = i + 1;
        }
        proof {
            lemma_total_step(sets, s as int);
            assert(any == set_has_visible(sets[s as int]));
            assert forall|s2: int, k: int|
                0 <= s2 < s + 1 && 0 <= k < sets[s2].candidates@.len() implies stage_pair_ok(
                pairs@[candidate_total(sets.take(s2)) + k],
                sets[s2].anchor,
                (#[trigger] sets[s2].candidates@[k]).declaration,
                sets[s2].candidates@[k].explanation.contributions@,
                true,
                Some((k + 1) as usize),
                generation_policy_of(sets[s2].candidates@[k].declaration),
                SearchCandidateTopKStatus::Selected,
                saturated_anchor_ids(output.diagnostics).contains(sets[s2].anchor.declaration_id@),
            ) by {
                if s2 == s {
                    assert(set.candidates@[k] == sets[s2].candidates@[k]);
                }
            }
        }
        if any {
            found = found + 1;
        }
        s = s + 1;
    }
    proof {
        assert(sets.take(s as int) =~= sets);
    }
    (pairs, found)
}


/// The observation of a search from what retrieval returned: the ranked
/// candidates of every set in order, then the followed pairs generated but
/// not selected; the sets with a shown candidate; and the counters.
pub fn observe_search(output: RetrievalOutput, followed: Vec<SearchObservedPair>, variant: SearchScoringVariant) -> (r:
    SearchObservation)
    requires
        forall|s: int, i: int|
            0 <= s < output.candidate_sets@.len() && 0 <= i < output.candidate_sets@[s].candidates@.len()
                ==> (#[trigger] output.candidate_sets@[s].candidates@[i]).explanation.contributions@.len()
                < 0x1_0000_0000,
    ensures
        r.pairs@.len() == candidate_total(output.candidate_sets@) + followed@.len(),
        ranked_pairs_ok(r.pairs@, output, output.candidate_sets@.len() as int, variant),
        r.pairs@.skip(candidate_total(output.candidate_sets@) as int) == followed@,
        forall|k: int|
            0 <= k < candidate_total(output.candidate_sets@) ==> (#[trigger] r.pairs@[k]).features.semantic_evidence_state
                == SearchSemanticEvidenceState::NotRun,
        r.visible_groups_found == visible_set_count(output.candidate_sets@),
        r.visible_groups_total == output.candidate_sets@.len(),
        r.scoring.variant == variant,
        r.scoring.version@ == SCORER_VERSION@,
        r.review_policy.version@ == REVIEW_POLICY_VERSION@,
        r.semantic_reranking.version@ == SEMANTIC_RERANKING_VERSION@,
        r.semantic_obligation_yield@.len() == 0,
        retrieval_observation_ok(r.retrieval, output.diagnostics, merged_count(r.pairs@) as usize),
{
    let (mut pairs, visible_groups_found) = ranked_observed_pairs(&output, variant);
    let ghost ranked = pairs@;
    let mut followed = followed;
    pairs.append(&mut followed);
    proof {
        assert forall|s: int, i: int|
            0 <= s < output.candidate_sets@.len() && 0 <= i < output.candidate_sets@[s].candidates@.len() implies
            candidate_total(output.candidate_sets@.take(s)) + i < ranked.len() && #[trigger] output.candidate_sets@[s].candidates@[i]
            == output.candidate_sets@[s].candidates@[i] by {
            lemma_total_monotone(output.candidate_sets@, s, output.candidate_sets@.len() as int);
            assert(output.candidate_sets@.take(output.candidate_sets@.len() as int) =~= output.candidate_sets@);
        }
    }
    let merged = count_merged(&pairs);
    let retrieval = retrieval_observation(&output.diagnostics, merged);
    SearchObservation {
        pairs,
        visible_groups_found,
        visible_groups_total: output.candidate_sets.len(),
        scoring: SearchScoringSummary::new(variant),
        review_policy: summary(),
        semantic_reranking: semantic_reranking_summary(),
        semantic_obligation_yield: Vec::new(),
        retrieval,
    }
}


/// The compact stage observation of a search from what retrieval
/// returned; only the full symbolic scorer can make one.
pub fn observe_search_stages(
    output: RetrievalOutput,
    followed: Vec<SearchStageObservedPair>,
    variant: SearchScoringVariant,
) -> (r: Result<SearchStageObservation, ObservationError>)
    ensures
        r is Ok <==> compact_variant(variant),
        r matches Err(e) ==> e.message@
            == "compact search-stage observation only supports symbolic scorer variants; use detailed observations for "@
            + crate::scorer::variant_label(variant),
        r matches Ok(o) ==> {
            &&& o.pairs@.len() == candidate_total(output.candidate_sets@) + followed@.len()
            &&& ranked_stage_pairs_ok(o.pairs@, output, output.candidate_sets@.len() as int)
            &&& o.pairs@.skip(candidate_total(output.candidate_sets@) as int) == followed@
            &&& o.visible_groups_found == visible_set_count(output.candidate_sets@)
            &&& o.visible_groups_total == output.candidate_sets@.len()
            &&& o.scoring.variant == SearchScoringVariant::AllFeatures
            &&& o.scoring.version@ == SCORER_VERSION@
            &&& o.review_policy.version@ == REVIEW_POLICY_VERSION@
            &&& o.semantic_reranking.version@ == SEMANTIC_RERANKING_VERSION@
            &&& o.semantic_obligation_yield@.len() == 0
            &&& retrieval_observation_ok(o.retrieval, output.diagnostics, merged_stage_count(o.pairs@) as usize)
        },
{
    match check_compact_variant(variant) {
        Err(e) => {
            return Err(e);
        },
        Ok(()) => {},
    }
    let (mut pairs, visible_groups_found) = ranked_stage_pairs(&output);
    let ghost ranked = pairs@;
    let mut followed = followed;
    pairs.append(&mut followed);
    proof {
        assert forall|s: int, i: int|
            0 <= s < output.candidate_sets@.len() && 0 <= i < output.candidate_sets@[s].candidates@.len() implies
            candidate_total(output.candidate_sets@.take(s)) + i < ranked.len() && #[trigger] output.candidate_sets@[s].candidates@[i]
            == output.candidate_sets@[s].candidates@[i] by {
            lemma_total_monotone(output.candidate_sets@, s, output.candidate_sets@.len() as int);
            assert(output.candidate_sets@.take(output.candidate_sets@.len() as int) =~= output.candidate_sets@);
        }
    }
    let merged = count_merged_stage(&pairs);
    let retrieval = retrieval_observation(&output.diagnostics, merged);
    Ok(
        SearchStageObservation {
            pairs,
            visible_groups_found,
            visible_groups_total: output.candidate_sets.len(),
            scoring: SearchScoringSummary::new(variant),
            review_policy: summary(),
            semantic_reranking: semantic_reranking_summary(),
            semantic_obligation_yield: Vec::new(),
            retrieval,
        },
    )
}


/// Under the full symbolic scorer the compact stage facts of a ranked
/// candidate agree with its detailed observation: the same names, rank,
/// ranked and shown decisions, feature families and source fact.
pub proof fn lemma_compact_pair_preserves_stage_facts(
    p: SearchObservedPair,
    q: SearchStageObservedPair,
    anchor: HydratedDeclaration,
    candidate: HydratedDeclaration,
    cs: Seq<KeyContribution>,
    generation_rank: Option<usize>,
    policy: Seq<char>,
    saturated: bool,
)
    requires
        observed_pair_ok(
            p,
            anchor,
            candidate,
            cs,
            SearchScoringVariant::AllFeatures,
            true,
            generation_rank,
            policy,
            SearchCandidateTopKStatus::Selected,
            saturated,
        ),
        stage_pair_ok(
            q,
            anchor,
            candidate,
            cs,
            true,
            generation_rank,
            policy,
            SearchCandidateTopKStatus::Selected,
            saturated,
        ),
    ensures
        p.left@ == q.left@,
        p.right@ == q.right@,
        p.generated == q.generated,
        p.ranked == q.ranked,
        p.rank == q.rank,
        p.shown == q.shown,
        views(p.feature_families@) == views(q.feature_families@),
        views(p.candidate_sources@[0].feature_families@) == views(q.candidate_sources@[0].feature_families@),
        p.candidate_sources@[0].pair_id@ == q.candidate_sources@[0].pair_id@,
        p.candidate_sources@[0].generation_rank == q.candidate_sources@[0].generation_rank,
        p.candidate_sources@[0].top_k_saturated == q.candidate_sources@[0].top_k_saturated,
{
    lemma_ordered_set_unique(views(p.feature_families@), views(q.feature_families@));
    lemma_ordered_set_unique(
        views(p.candidate_sources@[0].feature_families@),
        views(q.candidate_sources@[0].feature_families@),
    );
}


/// How a followed pair is oriented: which of its names is the anchor, and
/// the comparison index its other declaration comes from, if any.
#[derive(Debug, Clone, Copy, PartialEq, Eq, Structural)]
pub struct OrientedPair {
    pub left_is_anchor: bool,
    pub external_index: Option<usize>,
}

/// Orients a followed pair from where its two declarations were found
/// (`None` for the workspace, `Some(i)` for comparison index `i`): a
/// workspace declaration is the anchor; two workspace declarations keep
/// their order; a pair from the comparison indexes alone, or whose index
/// has no opened index or facts, is not oriented.
pub fn orient_pair(
    left_index: Option<usize>,
    right_index: Option<usize>,
    index_count: usize,
    facts_count: usize,
) -> (r: Option<OrientedPair>)
    ensures
        r == match (left_index, right_index) {
            (None, None) => Some(OrientedPair { left_is_anchor: true, external_index: None }),
            (None, Some(i)) => if i < facts_count && i < index_count {
                Some(OrientedPair { left_is_anchor: true, external_index: Some(i) })
            } else {
                None
            },
            (Some(i), None) => if i < facts_count && i < index_count {
                Some(OrientedPair { left_is_anchor: false, external_index: Some(i) })
            } else {
                None
            },
            (Some(_), Some(_)) => None,
        },
{
    match (left_index, right_index) {
        (None, None) => Some(OrientedPair { left_is_anchor: true, external_index: None }),
        (None, Some(i)) => {
            if i < facts_count && i < index_count {
                Some(OrientedPair { left_is_anchor: true, external_index: Some(i) })
            } else {
                None
            }
        },
        (Some(i), None) => {
            if i < facts_count && i < index_count {
                Some(OrientedPair { left_is_anchor: false, external_index: Some(i) })
            } else {
                None
            }
        },
        (Some(_), Some(_)) => None,
    }
}


/// Whether retrieval ranked a pair with the key `k` for some anchor.
pub open spec fn ranked_key(output: RetrievalOutput, k: (Seq<char>, Seq<char>)) -> bool {
    exists|s: int, i: int|
        0 <= s < output.candidate_sets@.len() && 0 <= i < output.candidate_sets@[s].candidates@.len()
            && pair_key_of(
            output.candidate_sets@[s].anchor.qualified_name@,
            (#[trigger] output.candidate_sets@[s].candidates@[i]).declaration.qualified_name@,
        ) == k
}

/// The key of the `i`-th followed pair.
pub open spec fn followed_key(followed: Seq<SearchTrackedPair>, i: int) -> (Seq<char>, Seq<char>) {
    pair_key_of(followed[i].left@, followed[i].right@)
}

/// Whether the `i`-th followed pair is observed on its own: retrieval did
/// not rank it, and no earlier followed pair has its key.
pub open spec fn followed_first(output: RetrievalOutput, followed: Seq<SearchTrackedPair>, i: int) -> bool {
    &&& !ranked_key(output, followed_key(followed, i))
    &&& forall|j: int| 0 <= j < i ==> followed_key(followed, j) != followed_key(followed, i)
}

fn is_ranked_key(output: &RetrievalOutput, left: &str, right: &str) -> (r: bool)
    ensures
        r == ranked_key(*output, pair_key_of(left@, right@)),
{
    let key = pair_key(left, right);
    let mut s: usize = 0;
    while s < output.candidate_sets.len()
        invariant
            s <= output.candidate_sets@.len(),
            (key.0@, key.1@) == pair_key_of(left@, right@),
            forall|s2: int, i: int|
                0 <= s2 < s && 0 <= i < output.candidate_sets@[s2].candidates@.len() ==> pair_key_of(
                    output.candidate_sets@[s2].anchor.qualified_name@,
                    (#[trigger] output.candidate_sets@[s2].candidates@[i]).declaration.qualified_name@,
                ) != pair_key_of(left@, right@),
        decreases output.candidate_sets@.len() - s,
    {
        let set = &output.candidate_sets[s];
        let mut i: usize = 0;
        while i < set.candidates.len()
            invariant
                s < output.candidate_sets@.len(),
                *set == output.candidate_sets@[s as int],
                i <= set.candidates@.len(),
                (key.0@, key.1@) == pair_key_of(left@, right@),
                forall|k: int|
                    0 <= k < i ==> pair_key_of(
                        set.anchor.qualified_name@,
                        (#[trigger] set.candidates@[k]).declaration.qualified_name@,
                    ) != pair_key_of(left@, right@),
            decreases set.candidates@.len() - i,
        {
            let other = pair_key(set.anchor.qualified_name.as_str(), set.candidates[i].declaration.qualified_name.as_str());
            if crate::text::str_eq(other.0.as_str(), key.0.as_str()) && crate::text::str_eq(
                other.1.as_str(),
                key.1.as_str(),
            ) {
                proof {
                    assert(output.candidate_sets@[s as int].candidates@[i as int] == set.candidates@[i as int]);
                }
                return true;
            }
            i = i + 1;
        }
        proof {
            assert forall|s2: int, k: int|
                0 <= s2 < s + 1 && 0 <= k < output.candidate_sets@[s2].candidates@.len() implies pair_key_of(
                output.candidate_sets@[s2].anchor.qualified_name@,
                (#[trigger] output.candidate_sets@[s2].candidates@[k]).declaration.qualified_name@,
            ) != pair_key_of(left@, right@) by {
                if s2 == s {
                    assert(set.candidates@[k] == output.candidate_sets@[s2].candidates@[k]);
                }
            }
        }
        s = s + 1;
    }
    false
}

/// The positions of the followed pairs to observe on their own, in order:
/// those retrieval did not rank, each key once, at its first occurrence.
pub fn followed_pairs_to_observe(output: &RetrievalOutput, followed: &Vec<SearchTrackedPair>) -> (r: Vec<usize>)
    ensures
        forall|a: int, b: int| 0 <= a < b < r@.len() ==> r@[a] < r@[b],
        forall|t: int| 0 <= t < r@.len() ==> r@[t] < followed@.len(),
        forall|i: int| 0 <= i < followed@.len() ==> (r@.contains(i as usize) <==> followed_first(*output, followed@, i)),
{
    let mut r: Vec<usize> = Vec::new();
    let mut i: usize = 0;
    while i < followed.len()
        invariant
            i <= followed@.len(),
            forall|a: int, b: int| 0 <= a < b < r@.len() ==> r@[a] < r@[b],
            forall|t: int| 0 <= t < r@.len() ==> r@[t] < i,
            forall|j: int| 0 <= j < i ==> (r@.contains(j as usize) <==> followed_first(*output, followed@, j)),
        decreases followed@.len() - i,
    {
        let ranked = is_ranked_key(output, followed[i].left.as_str(), followed[i].right.as_str());
        let mut seen = false;
        if !ranked {
            let mut j: usize = 0;
            while j < i && !seen
                invariant
                    j <= i,
                    i < followed@.len(),
                    !seen ==> forall|k: int| 0 <= k < j ==> followed_key(followed@, k) != followed_key(followed@, i as int),
                    seen ==> exists|k: int| 0 <= k < i && followed_key(followed@, k) == followed_key(followed@, i as int),
                decreases i - j + (if seen { 0int } else { 1int }),
            {
                let a = pair_key(followed[j].left.as_str(), followed[j].right.as_str());
                let b = pair_key(followed[i].left.as_str(), followed[i].right.as_str());
                if crate::text::str_eq(a.0.as_str(), b.0.as_str()) && crate::text::str_eq(a.1.as_str(), b.1.as_str()) {
                    proof {
                        assert(followed_key(followed@, j as int) == followed_key(followed@, i as int));
                    }
                    seen = true;
                } else {
                    j = j + 1;
                }
            }
        }
        let ghost before = r@;
        if !ranked && !seen {
            r.push(i);
        }
        proof {
            assert forall|j: int| 0 <= j < i + 1 implies (r@.contains(j as usize) <==> followed_first(
                *output,
                followed@,
                j,
            )) by {
                if j < i {
                    if r@.contains(j as usize) && !before.contains(j as usize) {
                        let t = choose|t: int| 0 <= t < r@.len() && r@[t] == j as usize;
                        assert(t == before.len());
                    }
                    if before.contains(j as usize) {
                        let t = choose|t: int| 0 <= t < before.len() && before[t] == j as usize;
                        assert(r@[t] == j as usize);
                    }
                } else {
                    if before.contains(j as usize) {
                        let t = choose|t: int| 0 <= t < before.len() && before[t] == j as usize;
                    }
                    if !ranked && !seen {
                        assert(r@[before.len() as int] == i);
                    }
                }
            }
        }
        i = i + 1;
    }
    r
}


/// Whether `a` comes before `b` by left name, then right name.
pub open spec fn observed_name_before(a: SearchObservedPair, b: SearchObservedPair) -> bool {
    if a.left@ != b.left@ {
        lex_lt(a.left@, b.left@)
    } else {
        lex_lt(a.right@, b.right@)
    }
}

/// `s` with `x` placed before the first element it comes before by name.
pub open spec fn observed_name_insert(s: Seq<SearchObservedPair>, x: SearchObservedPair) -> Seq<SearchObservedPair>
    decreases s.len(),
{
    if s.len() == 0 {
        seq![x]
    } else if observed_name_before(x, s[0]) {
        seq![x] + s
    } else {
        seq![s[0]] + observed_name_insert(s.drop_first(), x)
    }
}

/// The elements of `s` by left name, then right name, equal ones keeping
/// their order.
pub open spec fn observed_name_order(s: Seq<SearchObservedPair>) -> Seq<SearchObservedPair>
    decreases s.len(),
{
    if s.len() == 0 {
        s
    } else {
        observed_name_insert(observed_name_order(s.drop_last()), s.last())
    }
}

proof fn lemma_observed_name_insert_at(s: Seq<SearchObservedPair>, x: SearchObservedPair, p: int)
    requires
        0 <= p <= s.len(),
        forall|i: int| 0 <= i < p ==> !observed_name_before(x, #[trigger] s[i]),
        p == s.len() || observed_name_before(x, s[p]),
    ensures
        observed_name_insert(s, x) == s.take(p).push(x) + s.skip(p),
    decreases s.len(),
{
    if s.len() == 0 {
        assert(s.take(p).push(x) + s.skip(p) =~= seq![x]);
    } else if p == 0 {
        assert(s.take(0).push(x) + s.skip(0) =~= seq![x] + s);
    } else {
        let t = s.drop_first();
        assert forall|i: int| 0 <= i < p - 1 implies !observed_name_before(x, #[trigger] t[i]) by {
            assert(t[i] == s[i + 1]);
        }
        if p - 1 < t.len() {
            assert(t[p - 1] == s[p]);
        }
        lemma_observed_name_insert_at(t, x, p - 1);
        assert(s.take(p).push(x) + s.skip(p) =~= seq![s[0]] + (t.take(p - 1).push(x) + t.skip(p - 1)));
    }
}

fn observed_name_lt(a: &SearchObservedPair, b: &SearchObservedPair) -> (r: bool)
    ensures
        r == observed_name_before(*a, *b),
{
    if !crate::text::str_eq(a.left.as_str(), b.left.as_str()) {
        crate::text::str_lt(a.left.as_str(), b.left.as_str())
    } else {
        crate::text::str_lt(a.right.as_str(), b.right.as_str())
    }
}

/// Orders pairs by left name, then right name.
pub fn sort_observed_by_names(pairs: Vec<SearchObservedPair>) -> (r: Vec<SearchObservedPair>)
    ensures
        r@ == observed_name_order(pairs@),
{
    let ghost all = pairs@;
    let mut input = pairs;
    let mut sorted: Vec<SearchObservedPair> = Vec::new();
    let mut done: usize = 0;
    let n = input.len();
    while input.len() > 0
        invariant
            all.len() == n,
            done + input@.len() == n,
            input@ == all.skip(done as int),
            sorted@ == observed_name_order(all.take(done as int)),
        decreases input@.len(),
    {
        let x = input.remove(0);
        proof {
            assert(all.take(done + 1).drop_last() =~= all.take(done as int));
            assert(all.take(done + 1).last() == x);
            assert(input@ =~= all.skip(done + 1));
        }
        let mut p: usize = 0;
        while p < sorted.len() && !observed_name_lt(&x, &sorted[p])
            invariant
                p <= sorted@.len(),
                forall|i: int| 0 <= i < p ==> !observed_name_before(x, #[trigger] sorted@[i]),
            decreases sorted@.len() - p,
        {
            p = p + 1;
        }
        proof {
            lemma_observed_name_insert_at(sorted@, x, p as int);
        }
        let ghost before = sorted@;
        sorted.insert(p, x);
        assert(sorted@ =~= before.take(p as int).push(x) + before.skip(p as int));
        done = done + 1;
    }
    proof {
        assert(all.take(done as int) =~= all);
    }
    sorted
}

/// Whether `a` comes before `b` by left name, then right name.
pub open spec fn stage_name_before(a: SearchStageObservedPair, b: SearchStageObservedPair) -> bool {
    if a.left@ != b.left@ {
        lex_lt(a.left@, b.left@)
    } else {
        lex_lt(a.right@, b.right@)
    }
}

/// `s` with `x` placed before the first element it comes before by name.
pub open spec fn stage_name_insert(s: Seq<SearchStageObservedPair>, x: SearchStageObservedPair) -> Seq<SearchStageObservedPair>
    decreases s.len(),
{
    if s.len() == 0 {
        seq![x]
    } else if stage_name_before(x, s[0]) {
        seq![x] + s
    } else {
        seq![s[0]] + stage_name_insert(s.drop_first(), x)
    }
}

/// The elements of `s` by left name, then right name, equal ones keeping
/// their order.
pub open spec fn stage_name_order(s: Seq<SearchStageObservedPair>) -> Seq<SearchStageObservedPair>
    decreases s.len(),
{
    if s.len() == 0 {
        s
    } else {
        stage_name_insert(stage_name_order(s.drop_last()), s.last())
    }
}

proof fn lemma_stage_name_insert_at(s: Seq<SearchStageObservedPair>, x: SearchStageObservedPair, p: int)
    requires
        0 <= p <= s.len(),
        forall|i: int| 0 <= i < p ==> !stage_name_before(x, #[trigger] s[i]),
        p == s.len() || stage_name_before(x, s[p]),
    ensures
        stage_name_insert(s, x) == s.take(p).push(x) + s.skip(p),
    decreases s.len(),
{
    if s.len() == 0 {
        assert(s.take(p).push(x) + s.skip(p) =~= seq![x]);
    } else if p == 0 {
        assert(s.take(0).push(x) + s.skip(0) =~= seq![x] + s);
    } else {
        let t = s.drop_first();
        assert forall|i: int| 0 <= i < p - 1 implies !stage_name_before(x, #[trigger] t[i]) by {
            assert(t[i] == s[i + 1]);
        }
        if p - 1 < t.len() {
            assert(t[p - 1] == s[p]);
        }
        lemma_stage_name_insert_at(t, x, p - 1);
        assert(s.take(p).push(x) + s.skip(p) =~= seq![s[0]] + (t.take(p - 1).push(x) + t.skip(p - 1)));
    }
}

fn stage_name_lt(a: &SearchStageObservedPair, b: &SearchStageObservedPair) -> (r: bool)
    ensures
        r == stage_name_before(*a, *b),
{
    if !crate::text::str_eq(a.left.as_str(), b.left.as_str()) {
        crate::text::str_lt(a.left.as_str(), b.left.as_str())
    } else {
        crate::text::str_lt(a.right.as_str(), b.right.as_str())
    }
}

/// Orders pairs by left name, then right name.
pub fn sort_stage_by_names(pairs: Vec<SearchStageObservedPair>) -> (r: Vec<SearchStageObservedPair>)
    ensures
        r@ == stage_name_order(pairs@),
{
    let ghost all = pairs@;
    let mut input = pairs;
    let mut sorted: Vec<SearchStageObservedPair> = Vec::new();
    let mut done: usize = 0;
    let n = input.len();
    while input.len() > 0
        invariant
            all.len() == n,
            done + input@.len() == n,
            input@ == all.skip(done as int),
            sorted@ == stage_name_order(all.take(done as int)),
        decreases input@.len(),
    {
        let x = input.remove(0);
        proof {
            assert(all.take(done + 1).drop_last() =~= all.take(done as int));
            assert(all.take(done + 1).last() == x);
            assert(input@ =~= all.skip(done + 1));
        }
        let mut p: usize = 0;
        while p < sorted.len() && !stage_name_lt(&x, &sorted[p])
            invariant
                p <= sorted@.len(),
                forall|i: int| 0 <= i < p ==> !stage_name_before(x, #[trigger] sorted@[i]),
            decreases sorted@.len() - p,
        {
            p = p + 1;
        }
        proof {
            lemma_stage_name_insert_at(sorted@, x, p as int);
        }
        let ghost before = sorted@;
        sorted.insert(p, x);
        assert(sorted@ =~= before.take(p as int).push(x) + before.skip(p as int));
        done = done + 1;
    }
    proof {
        assert(all.take(done as int) =~= all);
    }
    sorted
}


/// An observed pair built from retrieval evidence carries no semantic
/// evidence.
pub proof fn lemma_observed_pair_has_no_semantic_evidence(
    p: SearchObservedPair,
    anchor: HydratedDeclaration,
    candidate: HydratedDeclaration,
    cs: Seq<KeyContribution>,
    v: SearchScoringVariant,
    default_ranked: bool,
    generation_rank: Option<usize>,
    policy: Seq<char>,
    status: SearchCandidateTopKStatus,
    saturated: bool,
)
    requires
        observed_pair_ok(p, anchor, candidate, cs, v, default_ranked, generation_rank, policy, status, saturated),
    ensures
        p.features.semantic_evidence_state == SearchSemanticEvidenceState::NotRun,
{
}

/// Rescoring a search observation with the semantic-only variant keeps
/// every pair and the retrieval counters and shows no pair and no group,
/// when the observation was made under another variant and its followed
/// pairs (like its ranked ones) carry no semantic evidence.
pub proof fn lemma_semantic_only_rescore_of_search_hides_every_pair(
    output: RetrievalOutput,
    followed: Seq<SearchObservedPair>,
    o: SearchObservation,
    r: SearchObservation,
)
    requires
        o.pairs@.len() == candidate_total(output.candidate_sets@) + followed.len(),
        o.pairs@.skip(candidate_total(output.candidate_sets@) as int) == followed,
        forall|k: int|
            0 <= k < candidate_total(output.candidate_sets@) ==> (#[trigger] o.pairs@[k]).features.semantic_evidence_state
                == SearchSemanticEvidenceState::NotRun,
        forall|j: int|
            0 <= j < followed.len() ==> (#[trigger] followed[j]).features.semantic_evidence_state
                == SearchSemanticEvidenceState::NotRun,
        o.scoring.variant != SearchScoringVariant::SemanticEvidenceOnlyRerank,
        rescore_ok(o, SearchScoringVariant::SemanticEvidenceOnlyRerank, r),
    ensures
        r.pairs@.len() == o.pairs@.len(),
        forall|i: int| 0 <= i < r.pairs@.len() ==> !(#[trigger] r.pairs@[i]).shown,
        r.visible_groups_found == 0,
        r.retrieval == o.retrieval,
        r.scoring.variant == SearchScoringVariant::SemanticEvidenceOnlyRerank,
{
    let n = candidate_total(output.candidate_sets@);
    assert forall|i: int| 0 <= i < o.pairs@.len() implies (#[trigger] o.pairs@[i]).features.semantic_evidence_state
        == SearchSemanticEvidenceState::NotRun by {
        if i >= n {
            assert(o.pairs@[i] == followed[i - n]);
        }
    }
    crate::observation::lemma_semantic_only_rescore_hides_every_pair(o, r);
}

} // verus!
