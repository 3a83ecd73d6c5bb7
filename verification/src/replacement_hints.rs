//! Replacement guidance attached to ranked groups: the target to switch to,
//! whether it is imported already, and the local callers affected. Hints
//! never advise deleting a declaration.
use vstd::prelude::*;

use crate::ranking::{
    filter_includes, ConfidenceTier, RankedGroup, RankedReview, ReviewAction, ReviewFilter, ReviewMember,
};
use crate::sets::{contains_str, is_ordered_set, set_insert, set_new, views};
use crate::source_refs::{decl_fact, first_n, import_status, ref_views, refs_sorted, sort_dedup_refs, ImportStatus, SourceFacts, SourceReference};
use crate::text::{concat3, str_eq};

verus! {

/// Target, import and caller impact of replacing a local declaration.
#[derive(Debug, Clone)]
pub struct ReplacementHint {
    pub target_decl: String,
    pub target_module: String,
    pub import_status: ImportStatus,
    pub caller_count: usize,
    pub displayed_callers: Vec<SourceReference>,
    pub notes: Vec<String>,
    pub blockers: Vec<String>,
}

/// How many callers hints show, and from how many callers a transitional
/// alias is advised.
#[derive(Debug, Clone, Copy, PartialEq, Eq, Structural)]
pub struct ReplacementHintProfile {
    pub max_displayed_callers: usize,
    pub transitional_alias_callers: usize,
}

/// Callers shown per hint by default.
pub const MAX_DISPLAYED_CALLERS: usize = 12;

impl ReplacementHintProfile {
    /// The scorer's defaults.
    pub fn default_profile() -> (r: ReplacementHintProfile)
        ensures
            r.max_displayed_callers == MAX_DISPLAYED_CALLERS,
            r.transitional_alias_callers == crate::ranking::TRANSITIONAL_ALIAS_CALLERS,
    {
        ReplacementHintProfile {
            max_displayed_callers: MAX_DISPLAYED_CALLERS,
            transitional_alias_callers: crate::ranking::TRANSITIONAL_ALIAS_CALLERS,
        }
    }
}

/// Unknown with no statuses, direct when all are direct, missing when any is
/// missing, unknown otherwise.
pub open spec fn aggregate_status(s: Seq<ImportStatus>) -> ImportStatus {
    if s.len() == 0 {
        ImportStatus::Unknown
    } else if forall|i: int| 0 <= i < s.len() ==> s[i] == ImportStatus::Direct {
        ImportStatus::Direct
    } else if s.contains(ImportStatus::Missing) {
        ImportStatus::Missing
    } else {
        ImportStatus::Unknown
    }
}

/// The aggregate import status of several declarations.
pub fn aggregate_import_status(s: &Vec<ImportStatus>) -> (r: ImportStatus)
    ensures
        r == aggregate_status(s@),
{
    if s.len() == 0 {
        return ImportStatus::Unknown;
    }
    let mut all_direct = true;
    let mut any_missing = false;
    let mut i: usize = 0;
    while i < s.len()
        invariant
            i <= s@.len(),
            all_direct == forall|k: int| 0 <= k < i ==> s@[k] == ImportStatus::Direct,
            any_missing == exists|k: int| 0 <= k < i && s@[k] == ImportStatus::Missing,
        decreases s@.len() - i,
    {
        if s[i] != ImportStatus::Direct {
            all_direct = false;
        }
        if s[i] == ImportStatus::Missing {
            any_missing = true;
        }
        i = i + 1;
    }
    if all_direct {
        ImportStatus::Direct
    } else if any_missing {
        proof {
            let k = choose|k: int| 0 <= k < s@.len() && s@[k] == ImportStatus::Missing;
            assert(s@.contains(s@[k]));
        }
        ImportStatus::Missing
    } else {
        proof {
            if s@.contains(ImportStatus::Missing) {
                let k = choose|k: int| 0 <= k < s@.len() && s@[k] == ImportStatus::Missing;
            }
        }
        ImportStatus::Unknown
    }
}

/// The workspace members of a group, in order.
pub open spec fn local_members(ms: Seq<ReviewMember>) -> Seq<ReviewMember>
    decreases ms.len(),
{
    if ms.len() == 0 {
        Seq::empty()
    } else if ms.last().origin@ == "workspace"@ {
        local_members(ms.drop_last()).push(ms.last())
    } else {
        local_members(ms.drop_last())
    }
}

/// A group is eligible for a hint: at least medium confidence, not
/// generated, broad-head-only or weak, and its action replaces or aliases.
pub open spec fn eligible_spec(g: RankedGroup) -> bool {
    let bs = views(g.blockers@);
    &&& g.confidence != ConfidenceTier::Low && g.confidence != ConfidenceTier::Noise
    &&& !bs.contains("generated-declaration"@)
    &&& !bs.contains("broad-head-only"@)
    &&& !bs.contains("weak-feature-overlap"@)
    &&& (g.recommended_action == ReviewAction::AlreadyInMathlib || g.recommended_action
        == ReviewAction::ReplaceLocalUses || g.recommended_action == ReviewAction::LocalAlias
        || g.recommended_action == ReviewAction::InlinePrivateHelper)
}

/// Whether the group gets a replacement hint.
pub fn eligible(g: &RankedGroup) -> (r: bool)
    ensures
        r == eligible_spec(*g),
{
    if g.confidence == ConfidenceTier::Low || g.confidence == ConfidenceTier::Noise {
        return false;
    }
    if contains_str(&g.blockers, "generated-declaration") || contains_str(&g.blockers, "broad-head-only")
        || contains_str(&g.blockers, "weak-feature-overlap") {
        return false;
    }
    match g.recommended_action {
        ReviewAction::AlreadyInMathlib | ReviewAction::ReplaceLocalUses | ReviewAction::LocalAlias
        | ReviewAction::InlinePrivateHelper => true,
        _ => false,
    }
}

/// The reference lies in the file of the span, within its lines.
pub open spec fn span_contains_spec(sp: crate::worker::SourceSpan, r: (Seq<char>, int, int, Seq<char>)) -> bool {
    r.0 == sp.file@ && sp.start.line <= r.1 && r.1 <= sp.end.line
}

/// The first member that is the public workspace declaration named `t`.
pub open spec fn public_target(ms: Seq<ReviewMember>, t: Seq<char>) -> Option<ReviewMember>
    decreases ms.len(),
{
    if ms.len() == 0 {
        None
    } else if ms[0].origin@ == "workspace"@ && ms[0].visibility@ == "public"@ && ms[0].qualified_name@ == t {
        Some(ms[0])
    } else {
        public_target(ms.drop_first(), t)
    }
}

/// The non-public workspace members, in order.
pub open spec fn private_members(ms: Seq<ReviewMember>) -> Seq<ReviewMember>
    decreases ms.len(),
{
    if ms.len() == 0 {
        Seq::empty()
    } else if ms.last().origin@ == "workspace"@ && ms.last().visibility@ != "public"@ {
        private_members(ms.drop_last()).push(ms.last())
    } else {
        private_members(ms.drop_last())
    }
}

/// A non-public helper whose every caller lies inside the public wrapper it
/// duplicates: the group should inline the helper into the wrapper.
pub open spec fn private_helper_cleanup_spec(g: RankedGroup, facts: SourceFacts) -> bool {
    let ms = g.members@;
    &&& views(g.blockers@).contains("non-public-declaration"@)
    &&& (g.recommended_action == ReviewAction::ReplaceLocalUses || g.recommended_action == ReviewAction::LocalAlias)
    &&& g.target_decl is Some
    &&& public_target(ms, g.target_decl->Some_0@) is Some
    &&& private_members(ms).len() == 1
    &&& decl_fact(facts.declarations@, private_members(ms)[0].declaration_id@) is Some
    &&& ({
        let f = decl_fact(facts.declarations@, private_members(ms)[0].declaration_id@)->Some_0;
        let t = public_target(ms, g.target_decl->Some_0@)->Some_0;
        &&& f.references@.len() > 0
        &&& t.source_span is Some
        &&& forall|i: int|
            0 <= i < f.references@.len() ==> span_contains_spec(
                t.source_span->Some_0,
                #[trigger] f.references@[i]@,
            )
    })
}

fn find_public_target<'a>(ms: &'a Vec<ReviewMember>, t: &str) -> (r: Option<&'a ReviewMember>)
    ensures
        r matches Some(m) ==> public_target(ms@, t@) == Some(*m),
        r is None ==> public_target(ms@, t@) is None,
{
    let mut i: usize = 0;
    assert(ms@.skip(0) =~= ms@);
    while i < ms.len()
        invariant
            i <= ms@.len(),
            public_target(ms@, t@) == public_target(ms@.skip(i as int), t@),
        decreases ms@.len() - i,
    {
        proof {
            assert(ms@.skip(i as int).drop_first() =~= ms@.skip(i + 1));
            assert(ms@.skip(i as int)[0] == ms@[i as int]);
        }
        let m = &ms[i];
        if str_eq(m.origin.as_str(), "workspace") && str_eq(m.visibility.as_str(), "public") && str_eq(
            m.qualified_name.as_str(),
            t,
        ) {
            return Some(m);
        }
        i = i + 1;
    }
    None
}

fn find_private_members<'a>(ms: &'a Vec<ReviewMember>) -> (r: Vec<&'a ReviewMember>)
    ensures
        r@.map_values(|m: &ReviewMember| *m) == private_members(ms@),
{
    let mut r: Vec<&ReviewMember> = Vec::new();
    let mut i: usize = 0;
    while i < ms.len()
        invariant
            i <= ms@.len(),
            r@.map_values(|m: &ReviewMember| *m) == private_members(ms@.take(i as int)),
        decreases ms@.len() - i,
    {
        proof {
            assert(ms@.take(i + 1).drop_last() =~= ms@.take(i as int));
            assert(ms@.take(i + 1).last() == ms@[i as int]);
        }
        let m = &ms[i];
        let ghost before = r@;
        if str_eq(m.origin.as_str(), "workspace") && !str_eq(m.visibility.as_str(), "public") {
            r.push(m);
            proof {
                assert(r@.map_values(|m: &ReviewMember| *m) =~= before.map_values(|m: &ReviewMember| *m).push(
                    *m,
                ));
            }
        }
        i = i + 1;
    }
    assert(ms@.take(ms@.len() as int) =~= ms@);
    r
}

fn span_contains(sp: &crate::worker::SourceSpan, r: &SourceReference) -> (b: bool)
    ensures
        b == span_contains_spec(*sp, r@),
{
    str_eq(r.file.as_str(), sp.file.as_str()) && (r.line as u64) >= sp.start.line && (r.line as u64)
        <= sp.end.line
}

/// Whether the group's private helper is called only from inside its public
/// wrapper.
#[verifier::loop_isolation(false)]
pub fn private_helper_wrapper_cleanup(g: &RankedGroup, facts: &SourceFacts) -> (b: bool)
    ensures
        b == private_helper_cleanup_spec(*g, *facts),
{
    if !contains_str(&g.blockers, "non-public-declaration") {
        return false;
    }
    match g.recommended_action {
        ReviewAction::ReplaceLocalUses | ReviewAction::LocalAlias => {},
        _ => {
            return false;
        },
    }
    let target_decl = match &g.target_decl {
        Some(t) => t,
        None => {
            return false;
        },
    };
    let target = match find_public_target(&g.members, target_decl.as_str()) {
        Some(t) => t,
        None => {
            return false;
        },
    };
    let privates = find_private_members(&g.members);
    if privates.len() != 1 {
        return false;
    }
    let private = privates[0];
    proof {
        assert(privates@.map_values(|m: &ReviewMember| *m)[0] == *private);
    }
    let fact = match facts.declaration(private.declaration_id.as_str()) {
        Some(f) => f,
        None => {
            return false;
        },
    };
    if fact.references.len() == 0 {
        return false;
    }
    let span = match &target.source_span {
        Some(sp) => sp,
        None => {
            return false;
        },
    };
    let mut i: usize = 0;
    while i < fact.references.len()
        invariant
            i <= fact.references@.len(),
            forall|k: int| 0 <= k < i ==> span_contains_spec(*span, #[trigger] fact.references@[k]@),
        decreases fact.references@.len() - i,
    {
        if !span_contains(span, &fact.references[i]) {
            return false;
        }
        i = i + 1;
    }
    true
}


/// The references recorded for any of the members.
pub open spec fn caller_set(facts: SourceFacts, ms: Seq<ReviewMember>) -> Set<(Seq<char>, int, int, Seq<char>)> {
    Set::new(
        |r: (Seq<char>, int, int, Seq<char>)|
            exists|i: int|
                0 <= i < ms.len() && match #[trigger] decl_fact(facts.declarations@, ms[i].declaration_id@) {
                    Some(f) => ref_views(f.references@).contains(r),
                    None => false,
                },
    )
}

/// Import status of `target` for each member.
pub open spec fn member_statuses(facts: SourceFacts, ms: Seq<ReviewMember>, target: Seq<char>) -> Seq<ImportStatus> {
    ms.map_values(|m: ReviewMember| import_status(facts, m.declaration_id@, target))
}

/// The notes of a hint, in order.
pub open spec fn hint_notes(st: ImportStatus, target_module: Seq<char>, callers: int, transitional: int, action: ReviewAction) -> Seq<
    Seq<char>,
> {
    (if st == ImportStatus::Missing {
        seq!["add `import "@ + target_module + "` before replacing local uses"@]
    } else {
        Seq::empty()
    }) + (if callers >= transitional {
        seq!["many local callers; keep a transitional alias during cleanup"@]
    } else {
        Seq::empty()
    }) + (if action == ReviewAction::LocalAlias {
        seq!["alias-first cleanup is safer than deleting the local declaration"@]
    } else {
        Seq::empty()
    }) + (if action == ReviewAction::InlinePrivateHelper {
        seq!["only the public wrapper calls the private helper; inline the helper body into the wrapper"@]
    } else {
        Seq::empty()
    })
}

/// The hint a group gets: none unless it is eligible, names a target and
/// has workspace members; otherwise the target, the aggregate import status
/// of the workspace members, their distinct callers (counted, the first few
/// in reference order shown), the notes, and a missing-import blocker.
pub open spec fn hint_ok(h: Option<ReplacementHint>, g: RankedGroup, facts: SourceFacts, profile: ReplacementHintProfile) -> bool {
    let lm = local_members(g.members@);
    if !eligible_spec(g) || g.target_decl is None || g.target_module is None || lm.len() == 0 {
        h is None
    } else {
        match h {
            None => false,
            Some(x) => {
                let tm = g.target_module->Some_0@;
                let st = aggregate_status(member_statuses(facts, lm, tm));
                &&& x.target_decl@ == g.target_decl->Some_0@
                &&& x.target_module@ == tm
                &&& x.import_status == st
                &&& exists|all: Seq<(Seq<char>, int, int, Seq<char>)>|
                    refs_sorted(all) && all.to_set() == caller_set(facts, lm) && x.caller_count == all.len()
                        && #[trigger] ref_views(x.displayed_callers@) == first_n(
                        all,
                        profile.max_displayed_callers as int,
                    )
                &&& views(x.notes@) == hint_notes(
                    st,
                    tm,
                    x.caller_count as int,
                    profile.transitional_alias_callers as int,
                    g.recommended_action,
                )
                &&& views(x.blockers@) == if st == ImportStatus::Missing {
                    seq!["missing-import"@]
                } else {
                    Seq::empty()
                }
            },
        }
    }
}

fn push_refs(acc: &mut Vec<SourceReference>, refs: &Vec<SourceReference>)
    ensures
        ref_views(final(acc)@) == ref_views(old(acc)@) + ref_views(refs@),
{
    let ghost start = ref_views(acc@);
    let mut i: usize = 0;
    while i < refs.len()
        invariant
            i <= refs@.len(),
            ref_views(acc@) == start + ref_views(refs@).take(i as int),
            start == ref_views(old(acc)@),
        decreases refs@.len() - i,
    {
        let ghost prev = ref_views(acc@);
        acc.push(refs[i].clone());
        proof {
            assert(ref_views(acc@) =~= prev.push(refs@[i as int]@));
            assert(ref_views(refs@).take(i + 1) =~= ref_views(refs@).take(i as int).push(refs@[i as int]@));
        }
        i = i + 1;
    }
    assert(ref_views(refs@).take(refs@.len() as int) =~= ref_views(refs@));
}

/// The hint for one group.
pub fn hint_for_group(g: &RankedGroup, facts: &SourceFacts, profile: ReplacementHintProfile) -> (h: Option<ReplacementHint>)
    ensures
        hint_ok(h, *g, *facts, profile),
{
    let ghost lm_all = local_members(g.members@);
    if !eligible(g) {
        return None;
    }
    let target_decl = match &g.target_decl {
        Some(t) => t.clone(),
        None => {
            return None;
        },
    };
    let target_module = match &g.target_module {
        Some(t) => t.clone(),
        None => {
            return None;
        },
    };
    let mut statuses: Vec<ImportStatus> = Vec::new();
    let mut raw: Vec<SourceReference> = Vec::new();
    let mut count_local: usize = 0;
    let mut i: usize = 0;
    proof {
        assert(member_statuses(*facts, local_members(g.members@.take(0)), target_module@) =~= statuses@);
        assert(ref_views(raw@).to_set() =~= caller_set(*facts, local_members(g.members@.take(0))));
    }
    while i < g.members.len()
        invariant
            i <= g.members@.len(),
            target_module@ == g.target_module->Some_0@,
            count_local == local_members(g.members@.take(i as int)).len(),
            count_local <= i,
            statuses@ == member_statuses(*facts, local_members(g.members@.take(i as int)), target_module@),
            ref_views(raw@).to_set() == caller_set(*facts, local_members(g.members@.take(i as int))),
        decreases g.members@.len() - i,
    {
        let m = &g.members[i];
        let ghost lm0 = local_members(g.members@.take(i as int));
        proof {
            assert(g.members@.take(i + 1).drop_last() =~= g.members@.take(i as int));
            assert(g.members@.take(i + 1).last() == *m);
        }
        if str_eq(m.origin.as_str(), "workspace") {
            let ghost lm1 = lm0.push(*m);
            statuses.push(facts.import_status_for(m.declaration_id.as_str(), target_module.as_str()));
            let ghost before = ref_views(raw@);
            match facts.declaration(m.declaration_id.as_str()) {
                Some(f) => {
                    push_refs(&mut raw, &f.references);
                },
                None => {},
            }
            proof {
                assert(statuses@ =~= member_statuses(*facts, lm1, target_module@));
                let cs1 = caller_set(*facts, lm1);
                assert(ref_views(raw@).to_set() =~= cs1) by {
                    assert forall|r| ref_views(raw@).to_set().contains(r) implies cs1.contains(r) by {
                        if before.to_set().contains(r) {
                            let j = choose|j: int|
                                0 <= j < lm0.len() && match #[trigger] decl_fact(
                                    facts.declarations@,
                                    lm0[j].declaration_id@,
                                ) {
                                    Some(f) => ref_views(f.references@).contains(r),
                                    None => false,
                                };
                            assert(lm1[j] == lm0[j]);
                        } else {
                            let k = choose|k: int| 0 <= k < ref_views(raw@).len() && ref_views(raw@)[k] == r;
                            assert(k >= before.len());
                            assert(lm1[lm0.len() as int] == *m);
                            match decl_fact(facts.declarations@, m.declaration_id@) {
                                Some(f) => {
                                    assert(ref_views(f.references@)[k - before.len()] == r);
                                    assert(ref_views(f.references@).contains(r));
                                },
                                None => {},
                            }
                        }
                    }
                    assert forall|r| cs1.contains(r) implies ref_views(raw@).to_set().contains(r) by {
                        let j = choose|j: int|
                            0 <= j < lm1.len() && match #[trigger] decl_fact(facts.declarations@, lm1[j].declaration_id@) {
                                Some(f) => ref_views(f.references@).contains(r),
                                None => false,
                            };
                        if j < lm0.len() {
                            assert(lm1[j] == lm0[j]);
                            assert(caller_set(*facts, lm0).contains(r));
                            let k = choose|k: int| 0 <= k < before.len() && before[k] == r;
                            assert(ref_views(raw@)[k] == r);
                        } else {
                            let f = decl_fact(facts.declarations@, m.declaration_id@)->Some_0;
                            let k = choose|k: int| 0 <= k < ref_views(f.references@).len() && ref_views(f.references@)[k] == r;
                            assert(ref_views(raw@)[before.len() + k] == r);
                        }
                    }
                }
            }
            count_local = count_local + 1;
        } else {
        }
        i = i + 1;
    }
    proof {
        assert(g.members@.take(g.members@.len() as int) =~= g.members@);
    }
    if count_local == 0 {
        return None;
    }
    let status = aggregate_import_status(&statuses);
    let callers = sort_dedup_refs(raw);
    let mut notes: Vec<String> = Vec::new();
    let mut blockers: Vec<String> = Vec::new();
    let ghost nv0 = views(notes@);
    if status == ImportStatus::Missing {
        blockers.push("missing-import".to_owned());
        notes.push(concat3("add `import ", target_module.as_str(), "` before replacing local uses"));
    }
    if callers.len() >= profile.transitional_alias_callers {
        notes.push("many local callers; keep a transitional alias during cleanup".to_owned());
    }
    if g.recommended_action == ReviewAction::LocalAlias {
        notes.push("alias-first cleanup is safer than deleting the local declaration".to_owned());
    }
    if g.recommended_action == ReviewAction::InlinePrivateHelper {
        notes.push(
            "only the public wrapper calls the private helper; inline the helper body into the wrapper".to_owned(),
        );
    }
    proof {
        assert(views(notes@) =~= hint_notes(
            status,
            target_module@,
            callers@.len() as int,
            profile.transitional_alias_callers as int,
            g.recommended_action,
        ));
        assert(views(blockers@) =~= if status == ImportStatus::Missing {
            seq!["missing-import"@]
        } else {
            Seq::<Seq<char>>::empty()
        });
    }
    let max = profile.max_displayed_callers;
    let mut displayed: Vec<SourceReference> = Vec::new();
    let mut k: usize = 0;
    while k < callers.len() && k < max
        invariant
            k <= callers@.len(),
            k <= max,
            ref_views(displayed@) == ref_views(callers@).take(k as int),
        decreases callers@.len() - k,
    {
        let ghost prev = ref_views(displayed@);
        displayed.push(callers[k].clone());
        proof {
            assert(ref_views(displayed@) =~= prev.push(callers@[k as int]@));
            assert(ref_views(callers@).take(k + 1) =~= ref_views(callers@).take(k as int).push(callers@[k as int]@));
        }
        k = k + 1;
    }
    proof {
        let all = ref_views(callers@);
        if all.len() <= max {
            assert(all.take(k as int) =~= all);
        }
        assert(ref_views(displayed@) == first_n(all, max as int));
    }
    let caller_count = callers.len();
    Some(
        ReplacementHint {
            target_decl,
            target_module,
            import_status: status,
            caller_count,
            displayed_callers: displayed,
            notes,
            blockers,
        },
    )
}


/// The group after hinting: inline-helper action when the private helper is
/// only called from its wrapper, and the hint of the group so updated.
pub open spec fn hinted_ok(after: RankedGroup, before: RankedGroup, facts: SourceFacts, profile: ReplacementHintProfile) -> bool {
    let action = if private_helper_cleanup_spec(before, facts) {
        ReviewAction::InlinePrivateHelper
    } else {
        before.recommended_action
    };
    let updated = RankedGroup { recommended_action: action, ..before };
    &&& after == (RankedGroup { replacement_hint: after.replacement_hint, ..updated })
    &&& hint_ok(after.replacement_hint, updated, facts, profile)
}

/// Attaches replacement hints to every group, in place.
pub fn attach_replacement_hints(review: RankedReview, facts: &SourceFacts, profile: ReplacementHintProfile) -> (r: RankedReview)
    ensures
        r.suppressed == review.suppressed,
        r.diagnostics == review.diagnostics,
        r.groups@.len() == review.groups@.len(),
        forall|i: int|
            0 <= i < review.groups@.len() ==> hinted_ok(#[trigger] r.groups@[i], review.groups@[i], *facts, profile),
{
    let RankedReview { groups, suppressed, diagnostics } = review;
    let ghost given = groups@;
    let mut rest = groups;
    let mut out: Vec<RankedGroup> = Vec::new();
    let ghost mut taken: int = 0;
    while rest.len() > 0
        invariant
            taken + rest@.len() == given.len(),
            0 <= taken,
            rest@ == given.skip(taken),
            out@.len() == taken,
            forall|i: int| 0 <= i < taken ==> hinted_ok(#[trigger] out@[i], given[i], *facts, profile),
        decreases rest@.len(),
    {
        let mut g = rest.remove(0);
        let ghost g0 = g;
        proof {
            assert(given.skip(taken)[0] == given[taken]);
            assert(given.skip(taken).remove(0) =~= given.skip(taken + 1));
        }
        if private_helper_wrapper_cleanup(&g, facts) {
            g.recommended_action = ReviewAction::InlinePrivateHelper;
        }
        let hint = hint_for_group(&g, facts, profile);
        g.replacement_hint = hint;
        out.push(g);
        proof {
            taken = taken + 1;
        }
    }
    RankedReview { groups: out, suppressed, diagnostics }
}

/// A workspace member of a visible, hint-eligible group with a target.
pub open spec fn hint_reference_id(groups: Seq<RankedGroup>, filter: ReviewFilter, id: Seq<char>) -> bool {
    exists|i: int, j: int|
        0 <= i < groups.len() && 0 <= j < groups[i].members@.len() && filter_includes(filter, #[trigger] groups[i])
            && eligible_spec(groups[i]) && groups[i].target_decl is Some && groups[i].target_module is Some
            && #[trigger] groups[i].members@[j].origin@ == "workspace"@ && groups[i].members@[j].declaration_id@ == id
}

/// The workspace declarations whose callers visible hints will show, as an
/// ordered set of declaration ids.
pub fn reference_declarations_for_hints(review: &RankedReview, filter: ReviewFilter) -> (r: Vec<String>)
    ensures
        is_ordered_set(r@, Set::new(|id: Seq<char>| hint_reference_id(review.groups@, filter, id))),
{
    let gs = &review.groups;
    let mut out = set_new();
    let ghost mut acc: Set<Seq<char>> = Set::empty();
    let mut i: usize = 0;
    while i < gs.len()
        invariant
            i <= gs@.len(),
            crate::sets::sorted_strict(views(out@)),
            views(out@).to_set() == Set::new(|id: Seq<char>| hint_reference_id(gs@.take(i as int), filter, id)),
        decreases gs@.len() - i,
    {
        let g = &gs[i];
        let ghost before = Set::new(|id: Seq<char>| hint_reference_id(gs@.take(i as int), filter, id));
        let ghost after = Set::new(|id: Seq<char>| hint_reference_id(gs@.take(i + 1), filter, id));
        let wanted = filter.includes(g) && eligible(g) && g.target_decl.is_some() && g.target_module.is_some();
        let ghost mut added: Set<Seq<char>> = Set::empty();
        if wanted {
            let mut j: usize = 0;
            while j < g.members.len()
                invariant
                    j <= g.members@.len(),
                    crate::sets::sorted_strict(views(out@)),
                    views(out@).to_set() == before.union(added),
                    added == Set::new(
                        |id: Seq<char>|
                            exists|q: int|
                                0 <= q < j && #[trigger] g.members@[q].origin@ == "workspace"@
                                    && g.members@[q].declaration_id@ == id,
                    ),
                decreases g.members@.len() - j,
            {
                if str_eq(g.members[j].origin.as_str(), "workspace") {
                    set_insert(&mut out, g.members[j].declaration_id.clone());
                }
                proof {
                    let nadded = Set::new(
                        |id: Seq<char>|
                            exists|q: int|
                                0 <= q < j + 1 && #[trigger] g.members@[q].origin@ == "workspace"@
                                    && g.members@[q].declaration_id@ == id,
                    );
                    if g.members@[j as int].origin@ == "workspace"@ {
                        assert(nadded =~= added.insert(g.members@[j as int].declaration_id@));
                        assert(before.union(nadded) =~= before.union(added).insert(g.members@[j as int].declaration_id@));
                    } else {
                        assert(nadded =~= added);
                    }
                    added = nadded;
                }
                j = j + 1;
            }
        }
        proof {
            assert(gs@.take(i + 1)[i as int] == *g);
            assert forall|id| after.contains(id) <==> before.union(added).contains(id) by {
                if after.contains(id) {
                    let (a, b) = choose|a: int, b: int|
                        0 <= a < gs@.take(i + 1).len() && 0 <= b < gs@.take(i + 1)[a].members@.len() && filter_includes(
                            filter,
                            #[trigger] gs@.take(i + 1)[a],
                        ) && eligible_spec(gs@.take(i + 1)[a]) && gs@.take(i + 1)[a].target_decl is Some
                            && gs@.take(i + 1)[a].target_module is Some && #[trigger] gs@.take(i + 1)[a].members@[b].origin@
                            == "workspace"@ && gs@.take(i + 1)[a].members@[b].declaration_id@ == id;
                    if a < i {
                        assert(gs@.take(i as int)[a] == gs@.take(i + 1)[a]);
                        assert(before.contains(id));
                    } else {
                        assert(wanted);
                        assert(g.members@[b].origin@ == "workspace"@);
                        assert(added.contains(id));
                    }
                }
                if before.contains(id) {
                    let (a, b) = choose|a: int, b: int|
                        0 <= a < gs@.take(i as int).len() && 0 <= b < gs@.take(i as int)[a].members@.len() && filter_includes(
                            filter,
                            #[trigger] gs@.take(i as int)[a],
                        ) && eligible_spec(gs@.take(i as int)[a]) && gs@.take(i as int)[a].target_decl is Some
                            && gs@.take(i as int)[a].target_module is Some && #[trigger] gs@.take(i as int)[a].members@[b].origin@
                            == "workspace"@ && gs@.take(i as int)[a].members@[b].declaration_id@ == id;
                    assert(gs@.take(i + 1)[a] == gs@.take(i as int)[a]);
                    assert(after.contains(id));
                }
                if added.contains(id) {
                    let q = choose|q: int|
                        0 <= q < g.members@.len() && #[trigger] g.members@[q].origin@ == "workspace"@
                            && g.members@[q].declaration_id@ == id;
                    assert(gs@.take(i + 1)[i as int].members@[q].origin@ == "workspace"@);
                    assert(after.contains(id));
                }
            }
            assert(after =~= before.union(added));
        }
        i = i + 1;
    }
    proof {
        assert(gs@.take(gs@.len() as int) =~= gs@);
    }
    out
}


proof fn lemma_local_members_nonempty(ms: Seq<ReviewMember>)
    ensures
        local_members(ms).len() > 0 <==> exists|i: int| 0 <= i < ms.len() && (#[trigger] ms[i]).origin@ == "workspace"@,
    decreases ms.len(),
{
    if ms.len() > 0 {
        lemma_local_members_nonempty(ms.drop_last());
        if exists|i: int| 0 <= i < ms.drop_last().len() && (#[trigger] ms.drop_last()[i]).origin@ == "workspace"@ {
            let i = choose|i: int| 0 <= i < ms.drop_last().len() && (#[trigger] ms.drop_last()[i]).origin@ == "workspace"@;
            assert(ms[i] == ms.drop_last()[i]);
        }
        if exists|i: int| 0 <= i < ms.len() && (#[trigger] ms[i]).origin@ == "workspace"@ {
            let i = choose|i: int| 0 <= i < ms.len() && (#[trigger] ms[i]).origin@ == "workspace"@;
            if i < ms.len() - 1 {
                assert(ms.drop_last()[i] == ms[i]);
            }
        }
    }
}

/// Which groups get a replacement hint. A group whose action is already in
/// Mathlib, replace local uses, local alias or inline private helper, with
/// high or medium confidence, no generated, broad-head-only or weak
/// feature-overlap blocker, a target and a workspace member gets a hint
/// naming its target; every other group gets none.
pub proof fn lemma_replacing_groups_get_hints(
    h: Option<ReplacementHint>,
    g: RankedGroup,
    facts: SourceFacts,
    profile: ReplacementHintProfile,
)
    requires
        hint_ok(h, g, facts, profile),
    ensures
        ({
            let bs = views(g.blockers@);
            let replacing = g.recommended_action == ReviewAction::AlreadyInMathlib || g.recommended_action
                == ReviewAction::ReplaceLocalUses || g.recommended_action == ReviewAction::LocalAlias
                || g.recommended_action == ReviewAction::InlinePrivateHelper;
            let confident = g.confidence == ConfidenceTier::High || g.confidence == ConfidenceTier::Medium;
            let clean = !bs.contains("generated-declaration"@) && !bs.contains("broad-head-only"@) && !bs.contains(
                "weak-feature-overlap"@,
            );
            let local = exists|i: int| 0 <= i < g.members@.len() && (#[trigger] g.members@[i]).origin@ == "workspace"@;
            &&& (replacing && confident && clean && local && g.target_decl is Some && g.target_module is Some) ==> (
            h matches Some(x) && x.target_decl@ == g.target_decl->Some_0@ && x.target_module@
                == g.target_module->Some_0@)
            &&& !(replacing && confident && clean && local && g.target_decl is Some && g.target_module is Some)
                ==> h is None
        }),
{
    lemma_local_members_nonempty(g.members@);
}

} // verus!
