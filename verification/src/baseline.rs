//! Baseline snapshots of the review queue and their comparison across
//! audit runs: which groups appeared, disappeared, or kept their identity
//! while their evidence changed.
use vstd::prelude::*;

use crate::digest::{hex_bytes, hex_of, sha256, sha256_digest};
use crate::ranking::{
    action_label, evidence_summary, priority_label, relation_label, RankedGroup, RankedReview, ReviewAction,
    ReviewRelation,
};
use crate::sets::{contains_str, is_ordered_set, sorted_strict, sorted_unique, views};
use crate::source_refs::ImportStatus;
use crate::text::{chars_of, concat, decimal, lex_lt, push_decimal, str_eq, trim, trimmed};
use crate::toolchain::{join_path, path_join};

verus! {

/// Schema version written into every snapshot.
pub const BASELINE_SCHEMA_VERSION: &'static str = "lean-dup.baseline.v1";

/// One comparable group in a baseline snapshot.
#[derive(Debug, Clone, PartialEq, Eq)]
pub struct BaselineGroup {
    pub id: String,
    pub relation: String,
    pub review_priority: String,
    pub recommended_action: String,
    pub member_ids: Vec<String>,
    pub evidence_summary: Vec<String>,
    pub evidence_digest: String,
}

/// The value of a baseline group.
pub open spec fn bg_view(g: BaselineGroup) -> (
    Seq<char>,
    Seq<char>,
    Seq<char>,
    Seq<char>,
    Seq<Seq<char>>,
    Seq<Seq<char>>,
    Seq<char>,
) {
    (
        g.id@,
        g.relation@,
        g.review_priority@,
        g.recommended_action@,
        views(g.member_ids@),
        views(g.evidence_summary@),
        g.evidence_digest@,
    )
}

impl BaselineGroup {
    /// A copy of the group.
    pub fn copy(&self) -> (r: BaselineGroup)
        ensures
            bg_view(r) == bg_view(*self),
    {
        let r = BaselineGroup {
            id: self.id.clone(),
            relation: self.relation.clone(),
            review_priority: self.review_priority.clone(),
            recommended_action: self.recommended_action.clone(),
            member_ids: crate::sets::clone_strings(&self.member_ids),
            evidence_summary: crate::sets::clone_strings(&self.evidence_summary),
            evidence_digest: self.evidence_digest.clone(),
        };
        r
    }
}

/// Baseline snapshot for comparing audit runs across cleanup work.
#[derive(Debug, Clone, PartialEq, Eq)]
pub struct BaselineSnapshot {
    pub schema_version: String,
    pub workspace_fingerprint: String,
    pub groups: Vec<BaselineGroup>,
}

impl BaselineSnapshot {
    /// A copy of the snapshot.
    pub fn copy(&self) -> (r: BaselineSnapshot)
        ensures
            r.schema_version == self.schema_version,
            r.workspace_fingerprint == self.workspace_fingerprint,
            same_groups(r.groups@, self.groups@),
    {
        let mut groups: Vec<BaselineGroup> = Vec::new();
        let mut i: usize = 0;
        while i < self.groups.len()
            invariant
                i <= self.groups@.len(),
                groups@.len() == i,
                forall|k: int| 0 <= k < i ==> bg_view(#[trigger] groups@[k]) == bg_view(self.groups@[k]),
            decreases self.groups@.len() - i,
        {
            groups.push(self.groups[i].copy());
            i = i + 1;
        }
        BaselineSnapshot {
            schema_version: self.schema_version.clone(),
            workspace_fingerprint: self.workspace_fingerprint.clone(),
            groups,
        }
    }
}

/// Two group lists with the same groups, in the same order.
pub open spec fn same_groups(a: Seq<BaselineGroup>, b: Seq<BaselineGroup>) -> bool {
    a.len() == b.len() && forall|k: int| 0 <= k < a.len() ==> bg_view(#[trigger] a[k]) == bg_view(b[k])
}

/// One group whose identity survived but whose evidence changed.
#[derive(Debug, Clone, PartialEq, Eq)]
pub struct BaselineChange {
    pub id: String,
    pub before: BaselineGroup,
    pub after: BaselineGroup,
}

/// Baseline diff result for workflow output.
#[derive(Debug, Clone, PartialEq, Eq)]
pub struct BaselineDiff {
    pub baseline: String,
    pub baseline_path: String,
    pub appeared: Vec<BaselineGroup>,
    pub disappeared: Vec<BaselineGroup>,
    pub changed: Vec<BaselineChange>,
}

/// Lower-case name of an import status (its `Debug` name, lower-cased).
pub open spec fn import_label(s: ImportStatus) -> Seq<char> {
    match s {
        ImportStatus::Direct => "direct"@,
        ImportStatus::Missing => "missing"@,
        ImportStatus::Unknown => "unknown"@,
    }
}

/// The evidence lines of a group, as a set.
pub open spec fn summary_items(g: RankedGroup) -> Set<Seq<char>> {
    let base = set![
        "relation="@ + relation_label(g.relation),
        "priority="@ + priority_label(g.review_priority),
        "action="@ + action_label(g.recommended_action),
    ];
    let sigs = Set::new(|x: Seq<char>| exists|i: int| 0 <= i < g.signals@.len() && x == "signal="@ + (#[trigger] g.signals@[i])@);
    let blks = Set::new(|x: Seq<char>| exists|i: int| 0 <= i < g.blockers@.len() && x == "blocker="@ + (#[trigger] g.blockers@[i])@);
    let evs = Set::new(|x: Seq<char>| exists|i: int| 0 <= i < g.evidence@.len() && x == evidence_summary(#[trigger] g.evidence@[i]));
    let tgt = match g.target_decl {
        Some(t) => set!["target="@ + t@],
        None => Set::empty(),
    };
    let hint = match g.replacement_hint {
        Some(h) => set!["import="@ + import_label(h.import_status), "callers="@ + decimal(h.caller_count as nat)],
        None => Set::empty(),
    };
    base.union(sigs).union(blks).union(evs).union(tgt).union(hint)
}

/// The JSON text `serde_json::to_vec` produces for a list of strings.
pub uninterp spec fn json_string_list(parts: Seq<Seq<char>>) -> Seq<u8>;

/// `serde_json::to_vec(parts)`; a list of strings always serialises.
#[verifier::external_body]
fn json_of_strings(parts: &Vec<String>) -> (r: Vec<u8>)
    ensures
        r@ == json_string_list(views(parts@)),
{
    serde_json::to_vec(parts).unwrap_or_default()
}

/// Lower-hex SHA-256 of the JSON of the evidence lines.
pub open spec fn evidence_digest_of(lines: Seq<Seq<char>>) -> Seq<char> {
    hex_of(sha256_digest(json_string_list(lines)))
}

fn digest(parts: &Vec<String>) -> (r: String)
    ensures
        r@ == evidence_digest_of(views(parts@)),
{
    let encoded = json_of_strings(parts);
    let d = sha256(encoded.as_slice());
    hex_bytes(d.as_slice())
}

fn push_prefixed_all(out: &mut Vec<String>, prefix: &str, items: &Vec<String>)
    ensures
        views(final(out)@).to_set() == views(old(out)@).to_set().union(
            Set::new(|x: Seq<char>| exists|i: int| 0 <= i < items@.len() && x == prefix@ + (#[trigger] items@[i])@),
        ),
{
    let ghost start = views(out@).to_set();
    let mut i: usize = 0;
    while i < items.len()
        invariant
            i <= items@.len(),
            start == views(old(out)@).to_set(),
            views(out@).to_set() == start.union(
                Set::new(|x: Seq<char>| exists|k: int| 0 <= k < i && x == prefix@ + (#[trigger] items@[k])@),
            ),
        decreases items@.len() - i,
    {
        let ghost before = views(out@);
        let line = concat(prefix, items[i].as_str());
        let ghost lv = line@;
        out.push(line);
        proof {
            assert(views(out@) =~= before.push(lv));
            before.lemma_push_to_set_commute(lv);
            let a = Set::new(|x: Seq<char>| exists|k: int| 0 <= k < i && x == prefix@ + (#[trigger] items@[k])@);
            let b = Set::new(|x: Seq<char>| exists|k: int| 0 <= k < i + 1 && x == prefix@ + (#[trigger] items@[k])@);
            assert(b =~= a.insert(lv)) by {
                assert forall|x| b.contains(x) implies a.insert(lv).contains(x) by {
                    let k = choose|k: int| 0 <= k < i + 1 && x == prefix@ + (#[trigger] items@[k])@;
                    if k < i {
                        assert(a.contains(x));
                    }
                }
                assert forall|x| a.insert(lv).contains(x) implies b.contains(x) by {
                    if x == lv {
                        assert(x == prefix@ + items@[i as int]@);
                    } else {
                        let k = choose|k: int| 0 <= k < i && x == prefix@ + (#[trigger] items@[k])@;
                        assert(0 <= k < i + 1);
                    }
                }
            }
            assert(start.union(b) =~= start.union(a).insert(lv));
        }
        i = i + 1;
    }
}

fn push_line(out: &mut Vec<String>, line: String)
    ensures
        views(final(out)@).to_set() == views(old(out)@).to_set().insert(line@),
{
    let ghost before = views(out@);
    let ghost lv = line@;
    out.push(line);
    proof {
        assert(views(out@) =~= before.push(lv));
        before.lemma_push_to_set_commute(lv);
    }
}

/// The baseline value of a ranked group.
pub open spec fn baseline_group_of(b: BaselineGroup, g: RankedGroup) -> bool {
    &&& b.id@ == g.id@
    &&& b.relation@ == relation_label(g.relation)
    &&& b.review_priority@ == priority_label(g.review_priority)
    &&& b.recommended_action@ == action_label(g.recommended_action)
    &&& views(b.member_ids@) == g.members@.map_values(|m: crate::ranking::ReviewMember| m.declaration_id@)
    &&& is_ordered_set(b.evidence_summary@, summary_items(g))
    &&& b.evidence_digest@ == evidence_digest_of(views(b.evidence_summary@))
}

impl BaselineGroup {
    /// The comparable form of a ranked group: its id, relation, priority,
    /// action, member ids, its evidence lines (sorted, each once) and their
    /// digest.
    pub fn from_ranked(g: &RankedGroup) -> (r: BaselineGroup)
        ensures
            baseline_group_of(r, *g),
    {
        let mut lines: Vec<String> = Vec::new();
        push_line(&mut lines, concat("relation=", g.relation.label()));
        push_line(&mut lines, concat("priority=", g.review_priority.label()));
        push_line(&mut lines, concat("action=", g.recommended_action.label()));
        push_prefixed_all(&mut lines, "signal=", &g.signals);
        push_prefixed_all(&mut lines, "blocker=", &g.blockers);
        let ghost before_ev = views(lines@).to_set();
        let mut i: usize = 0;
        while i < g.evidence.len()
            invariant
                i <= g.evidence@.len(),
                views(lines@).to_set() == before_ev.union(
                    Set::new(|x: Seq<char>| exists|k: int| 0 <= k < i && x == evidence_summary(#[trigger] g.evidence@[k])),
                ),
            decreases g.evidence@.len() - i,
        {
            let line = g.evidence[i].summary();
            let ghost lv = line@;
            push_line(&mut lines, line);
            proof {
                let a = Set::new(|x: Seq<char>| exists|k: int| 0 <= k < i && x == evidence_summary(#[trigger] g.evidence@[k]));
                let b = Set::new(|x: Seq<char>| exists|k: int| 0 <= k < i + 1 && x == evidence_summary(#[trigger] g.evidence@[k]));
                assert(b =~= a.insert(lv)) by {
                    assert forall|x| b.contains(x) implies a.insert(lv).contains(x) by {
                        let k = choose|k: int| 0 <= k < i + 1 && x == evidence_summary(#[trigger] g.evidence@[k]);
                        if k < i {
                            assert(a.contains(x));
                        }
                    }
                    assert forall|x| a.insert(lv).contains(x) implies b.contains(x) by {
                        if x == lv {
                            assert(x == evidence_summary(g.evidence@[i as int]));
                        } else {
                            let k = choose|k: int| 0 <= k < i && x == evidence_summary(#[trigger] g.evidence@[k]);
                            assert(0 <= k < i + 1);
                        }
                    }
                }
                assert(before_ev.union(b) =~= before_ev.union(a).insert(lv));
            }
            i = i + 1;
        }
        match &g.target_decl {
            Some(t) => push_line(&mut lines, concat("target=", t.as_str())),
            None => {},
        }
        match &g.replacement_hint {
            Some(h) => {
                let label = match h.import_status {
                    ImportStatus::Direct => "direct",
                    ImportStatus::Missing => "missing",
                    ImportStatus::Unknown => "unknown",
                };
                push_line(&mut lines, concat("import=", label));
                let mut callers = "callers=".to_owned();
                push_decimal(&mut callers, h.caller_count as u64);
                push_line(&mut lines, callers);
            },
            None => {},
        }
        proof {
            let rl = "relation="@ + relation_label(g.relation);
            let pl = "priority="@ + priority_label(g.review_priority);
            let al = "action="@ + action_label(g.recommended_action);
            assert(set![rl, pl, al] =~= Set::empty().insert(rl).insert(pl).insert(al));
            assert(views(lines@).to_set() =~= summary_items(*g));
        }
        let summary = sorted_unique(&lines);
        let evidence_digest = digest(&summary);
        let mut member_ids: Vec<String> = Vec::new();
        let mut k: usize = 0;
        while k < g.members.len()
            invariant
                k <= g.members@.len(),
                views(member_ids@) == g.members@.take(k as int).map_values(
                    |m: crate::ranking::ReviewMember| m.declaration_id@,
                ),
            decreases g.members@.len() - k,
        {
            let ghost prev = views(member_ids@);
            member_ids.push(g.members[k].declaration_id.clone());
            proof {
                assert(views(member_ids@) =~= prev.push(g.members@[k as int].declaration_id@));
                assert(g.members@.take(k + 1).map_values(|m: crate::ranking::ReviewMember| m.declaration_id@)
                    =~= g.members@.take(k as int).map_values(|m: crate::ranking::ReviewMember| m.declaration_id@).push(
                    g.members@[k as int].declaration_id@,
                ));
            }
            k = k + 1;
        }
        proof {
            assert(g.members@.take(g.members@.len() as int) =~= g.members@);
        }
        BaselineGroup {
            id: g.id.clone(),
            relation: g.relation.label().to_owned(),
            review_priority: g.review_priority.label().to_owned(),
            recommended_action: g.recommended_action.label().to_owned(),
            member_ids,
            evidence_summary: summary,
            evidence_digest,
        }
    }
}

/// The storage-independent snapshot of a review: one baseline group per
/// ranked group, in queue order.
pub fn snapshot(review: &RankedReview, workspace_fingerprint: String) -> (r: BaselineSnapshot)
    ensures
        r.schema_version@ == BASELINE_SCHEMA_VERSION@,
        r.workspace_fingerprint@ == workspace_fingerprint@,
        r.groups@.len() == review.groups@.len(),
        forall|i: int| 0 <= i < r.groups@.len() ==> baseline_group_of(#[trigger] r.groups@[i], review.groups@[i]),
{
    let mut groups: Vec<BaselineGroup> = Vec::new();
    let mut i: usize = 0;
    while i < review.groups.len()
        invariant
            i <= review.groups@.len(),
            groups@.len() == i,
            forall|k: int| 0 <= k < i ==> baseline_group_of(#[trigger] groups@[k], review.groups@[k]),
        decreases review.groups@.len() - i,
    {
        groups.push(BaselineGroup::from_ranked(&review.groups[i]));
        i = i + 1;
    }
    BaselineSnapshot { schema_version: BASELINE_SCHEMA_VERSION.to_owned(), workspace_fingerprint, groups }
}


/// The last group recorded under `id` (a later group replaces an earlier one
/// with the same id).
pub open spec fn last_with_id(gs: Seq<BaselineGroup>, id: Seq<char>) -> Option<BaselineGroup>
    decreases gs.len(),
{
    if gs.len() == 0 {
        None
    } else if gs.last().id@ == id {
        Some(gs.last())
    } else {
        last_with_id(gs.drop_last(), id)
    }
}

/// The ids of the groups.
pub open spec fn id_set(gs: Seq<BaselineGroup>) -> Set<Seq<char>> {
    Set::new(|id: Seq<char>| exists|i: int| 0 <= i < gs.len() && (#[trigger] gs[i]).id@ == id)
}

/// The ids of a list of groups, in order.
pub open spec fn ids_of(gs: Seq<BaselineGroup>) -> Seq<Seq<char>> {
    gs.map_values(|g: BaselineGroup| g.id@)
}

/// Ids of groups whose evidence digest differs between the two runs.
pub open spec fn changed_ids(before: Seq<BaselineGroup>, after: Seq<BaselineGroup>) -> Set<Seq<char>> {
    Set::new(
        |id: Seq<char>|
            id_set(before).contains(id) && id_set(after).contains(id) && last_with_id(before, id)->Some_0.evidence_digest@
                != last_with_id(after, id)->Some_0.evidence_digest@,
    )
}

/// Groups listed by id in increasing id order, each the last one recorded
/// under its id in `source`, their ids being exactly `ids`.
pub open spec fn listed_from(out: Seq<BaselineGroup>, source: Seq<BaselineGroup>, ids: Set<Seq<char>>) -> bool {
    &&& sorted_strict(ids_of(out))
    &&& ids_of(out).to_set() == ids
    &&& forall|k: int| 0 <= k < out.len() ==> is_last_of(#[trigger] out[k], source)
}

/// `g` equals the last group recorded under its id in `source`.
pub open spec fn is_last_of(g: BaselineGroup, source: Seq<BaselineGroup>) -> bool {
    match last_with_id(source, g.id@) {
        Some(x) => bg_view(g) == bg_view(x),
        None => false,
    }
}

fn find_last<'a>(gs: &'a Vec<BaselineGroup>, id: &str) -> (r: Option<&'a BaselineGroup>)
    ensures
        r matches Some(g) ==> last_with_id(gs@, id@) == Some(*g),
        r is None ==> last_with_id(gs@, id@) is None,
{
    let mut i: usize = gs.len();
    assert(gs@.take(gs@.len() as int) =~= gs@);
    while i > 0
        invariant
            i <= gs@.len(),
            last_with_id(gs@, id@) == last_with_id(gs@.take(i as int), id@),
        decreases i,
    {
        proof {
            assert(gs@.take(i as int).drop_last() =~= gs@.take(i - 1));
        }
        if str_eq(gs[i - 1].id.as_str(), id) {
            return Some(&gs[i - 1]);
        }
        i = i - 1;
    }
    None
}

proof fn lemma_last_with_id_some(gs: Seq<BaselineGroup>, id: Seq<char>)
    ensures
        id_set(gs).contains(id) <==> last_with_id(gs, id) is Some,
        last_with_id(gs, id) matches Some(g) ==> g.id@ == id,
    decreases gs.len(),
{
    if gs.len() > 0 {
        lemma_last_with_id_some(gs.drop_last(), id);
        if id_set(gs).contains(id) && gs.last().id@ != id {
            let i = choose|i: int| 0 <= i < gs.len() && (#[trigger] gs[i]).id@ == id;
            assert(gs.drop_last()[i] == gs[i]);
            assert(id_set(gs.drop_last()).contains(id));
        }
        if id_set(gs.drop_last()).contains(id) {
            let i = choose|i: int| 0 <= i < gs.drop_last().len() && (#[trigger] gs.drop_last()[i]).id@ == id;
            assert(gs[i] == gs.drop_last()[i]);
        }
        if gs.last().id@ == id {
            assert(gs[gs.len() - 1].id@ == id);
        }
    }
}

fn id_list(gs: &Vec<BaselineGroup>) -> (r: Vec<String>)
    ensures
        is_ordered_set(r@, id_set(gs@)),
{
    let mut all: Vec<String> = Vec::new();
    let mut i: usize = 0;
    while i < gs.len()
        invariant
            i <= gs@.len(),
            views(all@) == ids_of(gs@.take(i as int)),
        decreases gs@.len() - i,
    {
        let ghost prev = views(all@);
        all.push(gs[i].id.clone());
        proof {
            assert(views(all@) =~= prev.push(gs@[i as int].id@));
            assert(ids_of(gs@.take(i + 1)) =~= ids_of(gs@.take(i as int)).push(gs@[i as int].id@));
        }
        i = i + 1;
    }
    proof {
        assert(gs@.take(gs@.len() as int) =~= gs@);
        assert(ids_of(gs@).to_set() =~= id_set(gs@)) by {
            assert forall|id| ids_of(gs@).to_set().contains(id) implies id_set(gs@).contains(id) by {
                let k = choose|k: int| 0 <= k < ids_of(gs@).len() && ids_of(gs@)[k] == id;
                assert(gs@[k].id@ == id);
            }
            assert forall|id| id_set(gs@).contains(id) implies ids_of(gs@).to_set().contains(id) by {
                let k = choose|k: int| 0 <= k < gs@.len() && (#[trigger] gs@[k]).id@ == id;
                assert(ids_of(gs@)[k] == id);
            }
        }
    }
    sorted_unique(&all)
}

/// Picks, in id order, the groups of `source` whose ids are in `ids` and
/// pass `keep`, where `keep` is decided per id by comparing with `other`.
fn select_groups(
    ids: &Vec<String>,
    source: &Vec<BaselineGroup>,
    other_ids: &Vec<String>,
    want_present: bool,
) -> (r: Vec<BaselineGroup>)
    requires
        sorted_strict(views(ids@)),
        views(ids@).to_set() == id_set(source@),
    ensures
        listed_from(
            r@,
            source@,
            Set::new(|id: Seq<char>| id_set(source@).contains(id) && views(other_ids@).contains(id) == want_present),
        ),
{
    let ghost target = Set::new(
        |id: Seq<char>| id_set(source@).contains(id) && views(other_ids@).contains(id) == want_present,
    );
    let mut out: Vec<BaselineGroup> = Vec::new();
    let mut k: usize = 0;
    while k < ids.len()
        invariant
            k <= ids@.len(),
            sorted_strict(views(ids@)),
            views(ids@).to_set() == id_set(source@),
            sorted_strict(ids_of(out@)),
            forall|j: int| 0 <= j < out@.len() ==> exists|q: int| 0 <= q < k && (#[trigger] ids_of(out@)[j]) == views(ids@)[q],
            ids_of(out@).to_set() == Set::new(
                |id: Seq<char>| views(ids@).take(k as int).contains(id) && views(other_ids@).contains(id) == want_present,
            ),
            forall|j: int| 0 <= j < out@.len() ==> is_last_of(#[trigger] out@[j], source@),
        decreases ids@.len() - k,
    {
        let id = &ids[k];
        let ghost iv = id@;
        proof {
            assert(views(ids@)[k as int] == iv);
            assert(views(ids@).to_set().contains(iv));
            lemma_last_with_id_some(source@, iv);
        }
        let present = contains_str(other_ids, id.as_str());
        let ghost before_set = Set::new(
            |x: Seq<char>| views(ids@).take(k as int).contains(x) && views(other_ids@).contains(x) == want_present,
        );
        let ghost after_set = Set::new(
            |x: Seq<char>| views(ids@).take(k + 1).contains(x) && views(other_ids@).contains(x) == want_present,
        );
        proof {
            assert(views(ids@).take(k + 1) =~= views(ids@).take(k as int).push(iv));
        }
        if present == want_present {
            let g = match find_last(source, id.as_str()) {
                Some(g) => g.copy(),
                None => {
                    proof {
                        assert(false);
                    }
                    return out;
                },
            };
            let ghost prev = out@;
            out.push(g);
            proof {
                assert(ids_of(out@) =~= ids_of(prev).push(iv));
                assert forall|a: int, b: int| 0 <= a < b < ids_of(out@).len() implies lex_lt(
                    #[trigger] ids_of(out@)[a],
                    #[trigger] ids_of(out@)[b],
                ) by {
                    if b == prev.len() {
                        let q = choose|q: int| 0 <= q < k && (#[trigger] ids_of(prev)[a]) == views(ids@)[q];
                        assert(ids_of(out@)[a] == ids_of(prev)[a]);
                    } else {
                        assert(ids_of(out@)[a] == ids_of(prev)[a]);
                        assert(ids_of(out@)[b] == ids_of(prev)[b]);
                    }
                }
                assert forall|j: int| 0 <= j < out@.len() implies exists|q: int|
                    0 <= q < k + 1 && (#[trigger] ids_of(out@)[j]) == views(ids@)[q] by {
                    if j < prev.len() {
                        assert(ids_of(out@)[j] == ids_of(prev)[j]);
                        let q = choose|q: int| 0 <= q < k && (#[trigger] ids_of(prev)[j]) == views(ids@)[q];
                    } else {
                        assert(ids_of(out@)[j] == views(ids@)[k as int]);
                    }
                }
                ids_of(prev).lemma_push_to_set_commute(iv);
                assert(ids_of(out@).to_set() =~= after_set) by {
                    assert forall|x| after_set.contains(x) <==> before_set.insert(iv).contains(x) by {
                        if views(ids@).take(k + 1).contains(x) && x != iv {
                            let q = choose|q: int| 0 <= q < k + 1 && #[trigger] views(ids@).take(k + 1)[q] == x;
                            assert(views(ids@).take(k as int)[q] == x);
                        }
                        if views(ids@).take(k as int).contains(x) {
                            let q = choose|q: int| 0 <= q < k && #[trigger] views(ids@).take(k as int)[q] == x;
                            assert(views(ids@).take(k + 1)[q] == x);
                        }
                        assert(views(ids@).take(k + 1)[k as int] == iv);
                    }
                }
                assert forall|j: int| 0 <= j < out@.len() implies is_last_of(#[trigger] out@[j], source@) by {
                    if j < prev.len() {
                        assert(out@[j] == prev[j]);
                    }
                }
            }
        } else {
            proof {
                assert(after_set =~= before_set) by {
                    assert forall|x| after_set.contains(x) <==> before_set.contains(x) by {
                        if views(ids@).take(k + 1).contains(x) && x != iv {
                            let q = choose|q: int| 0 <= q < k + 1 && #[trigger] views(ids@).take(k + 1)[q] == x;
                            assert(views(ids@).take(k as int)[q] == x);
                        }
                        if views(ids@).take(k as int).contains(x) {
                            let q = choose|q: int| 0 <= q < k && #[trigger] views(ids@).take(k as int)[q] == x;
                            assert(views(ids@).take(k + 1)[q] == x);
                        }
                    }
                }
                assert forall|j: int| 0 <= j < out@.len() implies exists|q: int|
                    0 <= q < k + 1 && (#[trigger] ids_of(out@)[j]) == views(ids@)[q] by {
                    let q = choose|q: int| 0 <= q < k && (#[trigger] ids_of(out@)[j]) == views(ids@)[q];
                }
            }
        }
        k = k + 1;
    }
    proof {
        assert(views(ids@).take(ids@.len() as int) =~= views(ids@));
        assert(ids_of(out@).to_set() =~= target);
    }
    out
}


/// The ids of a list of changes, in order.
pub open spec fn change_ids(cs: Seq<BaselineChange>) -> Seq<Seq<char>> {
    cs.map_values(|c: BaselineChange| c.id@)
}

/// The changes list, in id order, exactly the groups present in both runs
/// whose evidence digest changed, each with its group before and after.
pub open spec fn changes_ok(cs: Seq<BaselineChange>, before: Seq<BaselineGroup>, after: Seq<BaselineGroup>) -> bool {
    &&& sorted_strict(change_ids(cs))
    &&& change_ids(cs).to_set() == changed_ids(before, after)
    &&& forall|k: int|
        0 <= k < cs.len() ==> (#[trigger] cs[k]).before.id@ == cs[k].id@ && cs[k].after.id@ == cs[k].id@
            && is_last_of(cs[k].before, before) && is_last_of(cs[k].after, after)
}

fn changed_groups(
    before_ids: &Vec<String>,
    after_ids: &Vec<String>,
    before: &Vec<BaselineGroup>,
    after: &Vec<BaselineGroup>,
) -> (r: Vec<BaselineChange>)
    requires
        is_ordered_set(before_ids@, id_set(before@)),
        is_ordered_set(after_ids@, id_set(after@)),
    ensures
        changes_ok(r@, before@, after@),
{
    let mut out: Vec<BaselineChange> = Vec::new();
    let mut k: usize = 0;
    while k < before_ids.len()
        invariant
            k <= before_ids@.len(),
            is_ordered_set(before_ids@, id_set(before@)),
            is_ordered_set(after_ids@, id_set(after@)),
            sorted_strict(change_ids(out@)),
            forall|j: int|
                0 <= j < out@.len() ==> exists|q: int| 0 <= q < k && (#[trigger] change_ids(out@)[j]) == views(before_ids@)[q],
            change_ids(out@).to_set() == Set::new(
                |id: Seq<char>| views(before_ids@).take(k as int).contains(id) && changed_ids(before@, after@).contains(id),
            ),
            forall|j: int|
                0 <= j < out@.len() ==> (#[trigger] out@[j]).before.id@ == out@[j].id@ && out@[j].after.id@
                    == out@[j].id@ && is_last_of(out@[j].before, before@) && is_last_of(out@[j].after, after@),
        decreases before_ids@.len() - k,
    {
        let id = &before_ids[k];
        let ghost iv = id@;
        proof {
            assert(views(before_ids@)[k as int] == iv);
            assert(views(before_ids@).to_set().contains(iv));
            lemma_last_with_id_some(before@, iv);
            lemma_last_with_id_some(after@, iv);
            assert(views(before_ids@).take(k + 1) =~= views(before_ids@).take(k as int).push(iv));
        }
        let ghost before_set = Set::new(
            |x: Seq<char>| views(before_ids@).take(k as int).contains(x) && changed_ids(before@, after@).contains(x),
        );
        let ghost after_set = Set::new(
            |x: Seq<char>| views(before_ids@).take(k + 1).contains(x) && changed_ids(before@, after@).contains(x),
        );
        let mut pushed = false;
        if contains_str(after_ids, id.as_str()) {
            let b = find_last(before, id.as_str());
            let a = find_last(after, id.as_str());
            match (b, a) {
                (Some(b), Some(a)) => {
                    if !str_eq(b.evidence_digest.as_str(), a.evidence_digest.as_str()) {
                        let ghost prev = out@;
                        out.push(BaselineChange { id: id.clone(), before: b.copy(), after: a.copy() });
                        pushed = true;
                        proof {
                            assert(change_ids(out@) =~= change_ids(prev).push(iv));
                            assert forall|x: int, y: int| 0 <= x < y < change_ids(out@).len() implies lex_lt(
                                #[trigger] change_ids(out@)[x],
                                #[trigger] change_ids(out@)[y],
                            ) by {
                                if y == prev.len() {
                                    let q = choose|q: int| 0 <= q < k && (#[trigger] change_ids(prev)[x]) == views(before_ids@)[q];
                                    assert(change_ids(out@)[x] == change_ids(prev)[x]);
                                } else {
                                    assert(change_ids(out@)[x] == change_ids(prev)[x]);
                                    assert(change_ids(out@)[y] == change_ids(prev)[y]);
                                }
                            }
                            assert forall|j: int| 0 <= j < out@.len() implies exists|q: int|
                                0 <= q < k + 1 && (#[trigger] change_ids(out@)[j]) == views(before_ids@)[q] by {
                                if j < prev.len() {
                                    assert(change_ids(out@)[j] == change_ids(prev)[j]);
                                    let q = choose|q: int| 0 <= q < k && (#[trigger] change_ids(prev)[j]) == views(before_ids@)[q];
                                } else {
                                    assert(change_ids(out@)[j] == views(before_ids@)[k as int]);
                                }
                            }
                            change_ids(prev).lemma_push_to_set_commute(iv);
                            assert(changed_ids(before@, after@).contains(iv));
                            assert(change_ids(out@).to_set() =~= after_set) by {
                                assert forall|x| after_set.contains(x) <==> before_set.insert(iv).contains(x) by {
                                    if views(before_ids@).take(k + 1).contains(x) && x != iv {
                                        let q = choose|q: int| 0 <= q < k + 1 && #[trigger] views(before_ids@).take(k + 1)[q] == x;
                                        assert(views(before_ids@).take(k as int)[q] == x);
                                    }
                                    if views(before_ids@).take(k as int).contains(x) {
                                        let q = choose|q: int| 0 <= q < k && #[trigger] views(before_ids@).take(k as int)[q] == x;
                                        assert(views(before_ids@).take(k + 1)[q] == x);
                                    }
                                    assert(views(before_ids@).take(k + 1)[k as int] == iv);
                                }
                            }
                            assert forall|j: int| 0 <= j < out@.len() implies (#[trigger] out@[j]).before.id@ == out@[j].id@
                                && out@[j].after.id@ == out@[j].id@ && is_last_of(out@[j].before, before@) && is_last_of(
                                out@[j].after,
                                after@,
                            ) by {
                                if j < prev.len() {
                                    assert(out@[j] == prev[j]);
                                }
                            }
                        }
                    }
                },
                _ => {},
            }
        }
        if !pushed {
            proof {
                assert(!changed_ids(before@, after@).contains(iv));
                assert(after_set =~= before_set) by {
                    assert forall|x| after_set.contains(x) <==> before_set.contains(x) by {
                        if views(before_ids@).take(k + 1).contains(x) && x != iv {
                            let q = choose|q: int| 0 <= q < k + 1 && #[trigger] views(before_ids@).take(k + 1)[q] == x;
                            assert(views(before_ids@).take(k as int)[q] == x);
                        }
                        if views(before_ids@).take(k as int).contains(x) {
                            let q = choose|q: int| 0 <= q < k && #[trigger] views(before_ids@).take(k as int)[q] == x;
                            assert(views(before_ids@).take(k + 1)[q] == x);
                        }
                    }
                }
                assert forall|j: int| 0 <= j < out@.len() implies exists|q: int|
                    0 <= q < k + 1 && (#[trigger] change_ids(out@)[j]) == views(before_ids@)[q] by {
                    let q = choose|q: int| 0 <= q < k && (#[trigger] change_ids(out@)[j]) == views(before_ids@)[q];
                }
            }
        }
        k = k + 1;
    }
    proof {
        assert(views(before_ids@).take(before_ids@.len() as int) =~= views(before_ids@));
        assert(change_ids(out@).to_set() =~= changed_ids(before@, after@));
    }
    out
}

/// What a diff of `baseline` against `current` holds.
pub open spec fn diff_ok(r: BaselineDiff, name: Seq<char>, path: Seq<char>, baseline: Seq<BaselineGroup>, current: Seq<BaselineGroup>) -> bool {
    &&& r.baseline@ == name
    &&& r.baseline_path@ == path
    &&& listed_from(r.appeared@, current, id_set(current).difference(id_set(baseline)))
    &&& listed_from(r.disappeared@, baseline, id_set(baseline).difference(id_set(current)))
    &&& changes_ok(r.changed@, baseline, current)
}

/// Compares the current snapshot with a named baseline: groups that
/// appeared, disappeared, or kept their id with a different evidence digest,
/// each list in id order.
pub fn diff(name: String, baseline_path: String, baseline: BaselineSnapshot, current: BaselineSnapshot) -> (r: BaselineDiff)
    ensures
        diff_ok(r, name@, baseline_path@, baseline.groups@, current.groups@),
{
    let before_ids = id_list(&baseline.groups);
    let after_ids = id_list(&current.groups);
    let appeared = select_groups(&after_ids, &current.groups, &before_ids, false);
    let disappeared = select_groups(&before_ids, &baseline.groups, &after_ids, false);
    let changed = changed_groups(&before_ids, &after_ids, &baseline.groups, &current.groups);
    proof {
        assert(Set::new(|id: Seq<char>| id_set(current.groups@).contains(id) && views(before_ids@).contains(id) == false)
            =~= id_set(current.groups@).difference(id_set(baseline.groups@))) by {
            assert forall|id| views(before_ids@).contains(id) <==> id_set(baseline.groups@).contains(id) by {
                assert(views(before_ids@).to_set().contains(id) <==> views(before_ids@).contains(id));
            }
        }
        assert(Set::new(|id: Seq<char>| id_set(baseline.groups@).contains(id) && views(after_ids@).contains(id) == false)
            =~= id_set(baseline.groups@).difference(id_set(current.groups@))) by {
            assert forall|id| views(after_ids@).contains(id) <==> id_set(current.groups@).contains(id) by {
                assert(views(after_ids@).to_set().contains(id) <==> views(after_ids@).contains(id));
            }
        }
    }
    BaselineDiff { baseline: name, baseline_path, appeared, disappeared, changed }
}

proof fn lemma_empty_listing<A>(s: Seq<A>)
    requires
        s.to_set() == Set::<A>::empty(),
    ensures
        s.len() == 0,
{
    if s.len() > 0 {
        assert(s.to_set().contains(s[0]));
    }
}

/// Comparing a snapshot with one holding the same groups reports nothing.
pub proof fn lemma_diff_of_same_groups_is_empty(r: BaselineDiff, name: Seq<char>, path: Seq<char>, gs: Seq<BaselineGroup>)
    requires
        diff_ok(r, name, path, gs, gs),
    ensures
        r.appeared@.len() == 0,
        r.disappeared@.len() == 0,
        r.changed@.len() == 0,
{
    assert(id_set(gs).difference(id_set(gs)) =~= Set::empty());
    assert(changed_ids(gs, gs) =~= Set::empty());
    lemma_empty_listing(ids_of(r.appeared@));
    lemma_empty_listing(ids_of(r.disappeared@));
    lemma_empty_listing(change_ids(r.changed@));
}

proof fn lemma_last_with_id_same(a: Seq<BaselineGroup>, b: Seq<BaselineGroup>, id: Seq<char>)
    requires
        same_groups(a, b),
    ensures
        last_with_id(a, id) is Some <==> last_with_id(b, id) is Some,
        last_with_id(a, id) is Some ==> bg_view(last_with_id(a, id)->Some_0) == bg_view(last_with_id(b, id)->Some_0),
    decreases a.len(),
{
    if a.len() > 0 {
        assert(bg_view(a.last()) == bg_view(b.last()));
        assert(same_groups(a.drop_last(), b.drop_last())) by {
            assert forall|k: int| 0 <= k < a.drop_last().len() implies bg_view(#[trigger] a.drop_last()[k]) == bg_view(
                b.drop_last()[k],
            ) by {
                assert(a.drop_last()[k] == a[k] && b.drop_last()[k] == b[k]);
            }
        }
        lemma_last_with_id_same(a.drop_last(), b.drop_last(), id);
    }
}

/// Comparing a snapshot with a copy of itself (the same groups in the same
/// order, whatever its schema version and fingerprint) reports nothing.
pub proof fn lemma_diff_of_copies_is_empty(
    r: BaselineDiff,
    name: Seq<char>,
    path: Seq<char>,
    before: Seq<BaselineGroup>,
    after: Seq<BaselineGroup>,
)
    requires
        same_groups(before, after),
        diff_ok(r, name, path, before, after),
    ensures
        r.appeared@.len() == 0,
        r.disappeared@.len() == 0,
        r.changed@.len() == 0,
{
    assert(id_set(before) =~= id_set(after)) by {
        assert forall|id| id_set(before).contains(id) <==> id_set(after).contains(id) by {
            if id_set(before).contains(id) {
                let i = choose|i: int| 0 <= i < before.len() && (#[trigger] before[i]).id@ == id;
                assert(bg_view(before[i]) == bg_view(after[i]));
            }
            if id_set(after).contains(id) {
                let i = choose|i: int| 0 <= i < after.len() && (#[trigger] after[i]).id@ == id;
                assert(bg_view(before[i]) == bg_view(after[i]));
            }
        }
    }
    assert(id_set(before).difference(id_set(after)) =~= Set::empty());
    assert(id_set(after).difference(id_set(before)) =~= Set::empty());
    assert(changed_ids(before, after) =~= Set::empty()) by {
        assert forall|id| !changed_ids(before, after).contains(id) by {
            lemma_last_with_id_same(before, after, id);
        }
    }
    lemma_empty_listing(ids_of(r.appeared@));
    lemma_empty_listing(ids_of(r.disappeared@));
    lemma_empty_listing(change_ids(r.changed@));
}

/// Every group id of either run is reported in exactly one way: appeared
/// (only now), disappeared (only before), or present in both (and then
/// listed as changed exactly when its digest differs).
pub proof fn lemma_diff_partitions_ids(
    r: BaselineDiff,
    name: Seq<char>,
    path: Seq<char>,
    before: Seq<BaselineGroup>,
    after: Seq<BaselineGroup>,
    id: Seq<char>,
)
    requires
        diff_ok(r, name, path, before, after),
        id_set(before).contains(id) || id_set(after).contains(id),
    ensures
        ids_of(r.appeared@).contains(id) == (id_set(after).contains(id) && !id_set(before).contains(id)),
        ids_of(r.disappeared@).contains(id) == (id_set(before).contains(id) && !id_set(after).contains(id)),
        change_ids(r.changed@).contains(id) ==> id_set(before).contains(id) && id_set(after).contains(id),
{
    assert(ids_of(r.appeared@).to_set().contains(id) <==> ids_of(r.appeared@).contains(id));
    assert(ids_of(r.disappeared@).to_set().contains(id) <==> ids_of(r.disappeared@).contains(id));
    assert(change_ids(r.changed@).to_set().contains(id) <==> change_ids(r.changed@).contains(id));
}


proof fn lemma_listed_same(x: Seq<BaselineGroup>, y: Seq<BaselineGroup>, source: Seq<BaselineGroup>, ids: Set<Seq<char>>)
    requires
        listed_from(x, source, ids),
        listed_from(y, source, ids),
    ensures
        x.len() == y.len(),
        forall|k: int| 0 <= k < x.len() ==> bg_view(#[trigger] x[k]) == bg_view(y[k]),
{
    crate::sets::lemma_ordered_set_unique(ids_of(x), ids_of(y));
    assert forall|k: int| 0 <= k < x.len() implies bg_view(#[trigger] x[k]) == bg_view(y[k]) by {
        assert(ids_of(x)[k] == ids_of(y)[k]);
        assert(is_last_of(x[k], source));
        assert(is_last_of(y[k], source));
    }
}

/// Swapping the two snapshots swaps what appeared with what disappeared,
/// and lists the same changes with their before and after swapped.
pub proof fn lemma_diff_swaps(
    r: BaselineDiff,
    s: BaselineDiff,
    name: Seq<char>,
    path: Seq<char>,
    before: Seq<BaselineGroup>,
    after: Seq<BaselineGroup>,
)
    requires
        diff_ok(r, name, path, before, after),
        diff_ok(s, name, path, after, before),
    ensures
        r.appeared@.len() == s.disappeared@.len(),
        forall|k: int| 0 <= k < r.appeared@.len() ==> bg_view(#[trigger] r.appeared@[k]) == bg_view(s.disappeared@[k]),
        r.disappeared@.len() == s.appeared@.len(),
        forall|k: int| 0 <= k < r.disappeared@.len() ==> bg_view(#[trigger] r.disappeared@[k]) == bg_view(s.appeared@[k]),
        r.changed@.len() == s.changed@.len(),
        forall|k: int|
            0 <= k < r.changed@.len() ==> (#[trigger] r.changed@[k]).id@ == s.changed@[k].id@ && bg_view(r.changed@[k].before)
                == bg_view(s.changed@[k].after) && bg_view(r.changed@[k].after) == bg_view(s.changed@[k].before),
{
    lemma_listed_same(r.appeared@, s.disappeared@, after, id_set(after).difference(id_set(before)));
    lemma_listed_same(r.disappeared@, s.appeared@, before, id_set(before).difference(id_set(after)));
    assert(changed_ids(before, after) =~= changed_ids(after, before));
    crate::sets::lemma_ordered_set_unique(change_ids(r.changed@), change_ids(s.changed@));
    assert forall|k: int| 0 <= k < r.changed@.len() implies (#[trigger] r.changed@[k]).id@ == s.changed@[k].id@
        && bg_view(r.changed@[k].before) == bg_view(s.changed@[k].after) && bg_view(r.changed@[k].after) == bg_view(
        s.changed@[k].before,
    ) by {
        assert(change_ids(r.changed@)[k] == change_ids(s.changed@)[k]);
        assert(is_last_of(r.changed@[k].before, before) && is_last_of(s.changed@[k].after, before));
        assert(is_last_of(r.changed@[k].after, after) && is_last_of(s.changed@[k].before, after));
    }
}

/// Among a group's evidence lines, the first character tells the relation,
/// priority and action lines apart from every other line.
proof fn lemma_line_unique(g: RankedGroup, x: Seq<char>)
    requires
        summary_items(g).contains(x),
        x.len() > 0,
    ensures
        x[0] == 'r' ==> x == "relation="@ + relation_label(g.relation),
        x[0] == 'p' ==> x == "priority="@ + priority_label(g.review_priority),
        x[0] == 'a' ==> x == "action="@ + action_label(g.recommended_action),
{
    reveal_strlit("relation=");
    reveal_strlit("priority=");
    reveal_strlit("action=");
    reveal_strlit("signal=");
    reveal_strlit("blocker=");
    reveal_strlit("evidence=");
    reveal_strlit("target=");
    reveal_strlit("import=");
    reveal_strlit("callers=");
    let rl = "relation="@ + relation_label(g.relation);
    let pl = "priority="@ + priority_label(g.review_priority);
    let al = "action="@ + action_label(g.recommended_action);
    assert(rl[0] == 'r');
    assert(pl[0] == 'p');
    assert(al[0] == 'a');
    if exists|i: int| 0 <= i < g.signals@.len() && x == "signal="@ + (#[trigger] g.signals@[i])@ {
        let i = choose|i: int| 0 <= i < g.signals@.len() && x == "signal="@ + (#[trigger] g.signals@[i])@;
        assert(x[0] == 's');
    }
    if exists|i: int| 0 <= i < g.blockers@.len() && x == "blocker="@ + (#[trigger] g.blockers@[i])@ {
        let i = choose|i: int| 0 <= i < g.blockers@.len() && x == "blocker="@ + (#[trigger] g.blockers@[i])@;
        assert(x[0] == 'b');
    }
    if exists|i: int| 0 <= i < g.evidence@.len() && x == evidence_summary(#[trigger] g.evidence@[i]) {
        let i = choose|i: int| 0 <= i < g.evidence@.len() && x == evidence_summary(#[trigger] g.evidence@[i]);
        assert(x[0] == 'e');
    }
    if let Some(t) = g.target_decl {
        assert(("target="@ + t@)[0] == 't');
    }
    if let Some(h) = g.replacement_hint {
        assert(("import="@ + import_label(h.import_status))[0] == 'i');
        assert(("callers="@ + decimal(h.caller_count as nat))[0] == 'c');
    }
}

/// A baseline group records its group's priority among its evidence lines
/// (`priority=<label>`), and it is the only line that names a priority: so
/// two groups whose priorities differ have different evidence lines, and a
/// diff of their baselines reports the change.
pub proof fn lemma_evidence_records_priority(b1: BaselineGroup, g1: RankedGroup, b2: BaselineGroup, g2: RankedGroup)
    requires
        baseline_group_of(b1, g1),
        baseline_group_of(b2, g2),
    ensures
        views(b1.evidence_summary@).contains("priority="@ + priority_label(g1.review_priority)),
        g1.review_priority != g2.review_priority ==> views(b1.evidence_summary@).to_set() != views(
            b2.evidence_summary@,
        ).to_set(),
{
    reveal_strlit("priority=");
    reveal_strlit("high");
    reveal_strlit("medium");
    reveal_strlit("low");
    reveal_strlit("noise");
    let p1 = "priority="@ + priority_label(g1.review_priority);
    assert(summary_items(g1).contains(p1));
    assert(views(b1.evidence_summary@).to_set().contains(p1));
    if g1.review_priority != g2.review_priority && views(b1.evidence_summary@).to_set() == views(
        b2.evidence_summary@,
    ).to_set() {
        assert(summary_items(g2).contains(p1));
        assert(p1[0] == 'p');
        lemma_line_unique(g2, p1);
        let p2 = "priority="@ + priority_label(g2.review_priority);
        assert(p1.skip(9) =~= priority_label(g1.review_priority));
        assert(p2.skip(9) =~= priority_label(g2.review_priority));
        assert(priority_label(g1.review_priority) == priority_label(g2.review_priority));
        assert(false);
    }
}

proof fn lemma_relation_labels_differ(r1: ReviewRelation, r2: ReviewRelation)
    ensures
        r1 != r2 ==> relation_label(r1) != relation_label(r2),
{
    reveal_strlit("exact-statement");
    reveal_strlit("permuted-statement");
    reveal_strlit("connective-equivalent");
    reveal_strlit("specialization");
    reveal_strlit("source-clone");
    reveal_strlit("subsumption-candidate");
    reveal_strlit("near-statement");
    let (l1, l2) = (relation_label(r1), relation_label(r2));
    if r1 != r2 {
        assert(l1.len() != l2.len() || l1[0] != l2[0]);
    }
}

proof fn lemma_action_labels_differ(a1: ReviewAction, a2: ReviewAction)
    ensures
        a1 != a2 ==> action_label(a1) != action_label(a2),
{
    reveal_strlit("already-in-mathlib");
    reveal_strlit("local-alias");
    reveal_strlit("replace-local-uses");
    reveal_strlit("inline-private-helper");
    reveal_strlit("merge-generalization");
    reveal_strlit("specialization-of");
    reveal_strlit("probable-source-clone");
    reveal_strlit("manual-review");
    let (l1, l2) = (action_label(a1), action_label(a2));
    if a1 != a2 {
        assert(l1.len() != l2.len() || l1[0] != l2[0]);
    }
}

/// A baseline group records its group's relation (`relation=<label>`) and
/// recommended action (`action=<label>`) among its evidence lines, each the
/// only line of its kind: so two groups whose relations or actions differ
/// have different evidence lines, and a diff of their baselines reports the
/// change.
pub proof fn lemma_evidence_records_relation_and_action(
    b1: BaselineGroup,
    g1: RankedGroup,
    b2: BaselineGroup,
    g2: RankedGroup,
)
    requires
        baseline_group_of(b1, g1),
        baseline_group_of(b2, g2),
    ensures
        views(b1.evidence_summary@).contains("relation="@ + relation_label(g1.relation)),
        views(b1.evidence_summary@).contains("action="@ + action_label(g1.recommended_action)),
        g1.relation != g2.relation || g1.recommended_action != g2.recommended_action ==> views(
            b1.evidence_summary@,
        ).to_set() != views(b2.evidence_summary@).to_set(),
{
    reveal_strlit("relation=");
    reveal_strlit("action=");
    let r1 = "relation="@ + relation_label(g1.relation);
    let a1 = "action="@ + action_label(g1.recommended_action);
    assert(summary_items(g1).contains(r1));
    assert(summary_items(g1).contains(a1));
    assert(views(b1.evidence_summary@).to_set().contains(r1));
    assert(views(b1.evidence_summary@).to_set().contains(a1));
    if views(b1.evidence_summary@).to_set() == views(b2.evidence_summary@).to_set() {
        assert(summary_items(g2).contains(r1));
        assert(summary_items(g2).contains(a1));
        assert(r1[0] == 'r');
        assert(a1[0] == 'a');
        lemma_line_unique(g2, r1);
        lemma_line_unique(g2, a1);
        let r2 = "relation="@ + relation_label(g2.relation);
        let a2 = "action="@ + action_label(g2.recommended_action);
        assert(r1.skip(9) =~= relation_label(g1.relation));
        assert(r2.skip(9) =~= relation_label(g2.relation));
        assert(a1.skip(7) =~= action_label(g1.recommended_action));
        assert(a2.skip(7) =~= action_label(g2.recommended_action));
        lemma_relation_labels_differ(g1.relation, g2.relation);
        lemma_action_labels_differ(g1.recommended_action, g2.recommended_action);
    }
}

/// A baseline name that cannot name a file.
#[derive(Debug)]
pub struct InvalidBaselineName {
    pub message: String,
}

/// A character allowed in baseline names: ASCII letters and digits, `-`,
/// `_` and `.`.
pub open spec fn name_char(c: char) -> bool {
    ||| ('a' <= c && c <= 'z')
    ||| ('A' <= c && c <= 'Z')
    ||| ('0' <= c && c <= '9')
    ||| c == '-'
    ||| c == '_'
    ||| c == '.'
}

/// The trimmed name is usable as a file name.
pub open spec fn valid_name(t: Seq<char>) -> bool {
    t.len() > 0 && t != seq!['.'] && t != seq!['.', '.'] && forall|i: int| 0 <= i < t.len() ==> name_char(#[trigger] t[i])
}

/// The trimmed baseline name, or an error naming the rejected input.
pub fn safe_name(name: &str) -> (r: Result<String, InvalidBaselineName>)
    ensures
        match r {
            Ok(s) => valid_name(trim(name@)) && s@ == trim(name@),
            Err(e) => !valid_name(trim(name@)) && e.message@ == "invalid baseline name: "@ + name@,
        },
{
    let t = trimmed(name);
    let cs = chars_of(t.as_str());
    let single_dot = cs.len() == 1 && cs[0] == '.';
    let double_dot = cs.len() == 2 && cs[0] == '.' && cs[1] == '.';
    proof {
        if cs@.len() == 1 {
            assert(cs@ == seq!['.'] <==> cs@[0] == '.') by {
                if cs@[0] == '.' {
                    assert(cs@ =~= seq!['.']);
                }
            }
        }
        if cs@.len() == 2 {
            assert(cs@ == seq!['.', '.'] <==> (cs@[0] == '.' && cs@[1] == '.')) by {
                if cs@[0] == '.' && cs@[1] == '.' {
                    assert(cs@ =~= seq!['.', '.']);
                }
            }
        }
    }
    let mut all_ok = true;
    let mut i: usize = 0;
    while i < cs.len()
        invariant
            i <= cs@.len(),
            all_ok == forall|k: int| 0 <= k < i ==> name_char(#[trigger] cs@[k]),
        decreases cs@.len() - i,
    {
        let c = cs[i];
        if !(('a' <= c && c <= 'z') || ('A' <= c && c <= 'Z') || ('0' <= c && c <= '9') || c == '-' || c == '_'
            || c == '.') {
            all_ok = false;
        }
        i = i + 1;
    }
    let ok = cs.len() > 0 && !single_dot && !double_dot && all_ok;
    if ok {
        Ok(t)
    } else {
        Err(InvalidBaselineName { message: concat("invalid baseline name: ", name) })
    }
}

/// Where a named baseline lives under the cache root:
/// `<cache_root>/baselines/<name>.json`.
pub fn baseline_path(cache_root: &str, name: &str) -> (r: Result<String, InvalidBaselineName>)
    ensures
        match r {
            Ok(p) => valid_name(trim(name@)) && p@ == path_join(path_join(cache_root@, "baselines"@), trim(name@) + ".json"@),
            Err(e) => !valid_name(trim(name@)) && e.message@ == "invalid baseline name: "@ + name@,
        },
{
    let safe = match safe_name(name) {
        Ok(s) => s,
        Err(e) => {
            return Err(e);
        },
    };
    let dir = join_path(cache_root, "baselines");
    let file = concat(safe.as_str(), ".json");
    Ok(join_path(dir.as_str(), file.as_str()))
}

} // verus!
