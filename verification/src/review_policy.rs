//! The symbolic review policy: which declaration pairs are blocked from the
//! default cleanup queue, and why.
use vstd::prelude::*;

use crate::declaration::HydratedDeclaration;
use crate::retrieval::KeyContribution;
use crate::sets::{is_ordered_set, set_insert, set_new, views};
use crate::text::{chars_of, has_prefix, starts_with, str_eq, string_of, sub_chars};

verus! {

/// Version of the symbolic review policy.
pub const REVIEW_POLICY_VERSION: &'static str = "lean-dup.symbolic-review-policy.v2";

/// Stable review-policy facts exposed to evaluation and reports.
#[derive(Debug, Clone, Copy)]
pub struct SearchReviewPolicySummary {
    pub version: &'static str,
}

/// The review policy in force.
pub fn summary() -> (r: SearchReviewPolicySummary)
    ensures
        r.version@ == REVIEW_POLICY_VERSION@,
{
    SearchReviewPolicySummary { version: REVIEW_POLICY_VERSION }
}

/// A theorem or an axiom.
pub open spec fn theorem_like_spec(d: HydratedDeclaration) -> bool {
    d.kind@ == "theorem"@ || d.kind@ == "axiom"@
}

/// Whether the declaration is a theorem or an axiom.
pub fn theorem_like(d: &HydratedDeclaration) -> (r: bool)
    ensures
        r == theorem_like_spec(*d),
{
    str_eq(d.kind.as_str(), "theorem") || str_eq(d.kind.as_str(), "axiom")
}

/// Flagged as generated by Lean.
pub open spec fn generated_spec(d: HydratedDeclaration) -> bool {
    views(d.status_flags@).contains("generated"@)
}

/// Not public.
pub open spec fn non_public_spec(d: HydratedDeclaration) -> bool {
    d.visibility@ != "public"@
}

/// Carries at least one low-signal marker.
pub open spec fn low_signal_spec(d: HydratedDeclaration) -> bool {
    d.low_signal_markers@.len() > 0
}

/// A typeclass instance, or named like one.
pub open spec fn instance_noise_spec(d: HydratedDeclaration) -> bool {
    d.kind@ == "instance"@ || has_prefix(d.display_name@, "inst"@)
}

/// Some contribution has this kind.
pub open spec fn has_kind(cs: Seq<KeyContribution>, kind: Seq<char>) -> bool {
    exists|i: int| 0 <= i < cs.len() && (#[trigger] cs[i]).kind@ == kind
}

/// The heads named by the `broad_head:` markers among `ms`.
pub open spec fn heads_of(ms: Seq<Seq<char>>) -> Set<Seq<char>> {
    Set::new(
        |h: Seq<char>|
            exists|m: Seq<char>|
                ms.contains(m) && has_prefix(m, "broad_head:"@) && #[trigger] m.skip("broad_head:"@.len() as int) == h,
    )
}

/// The heads named by `broad_head:` markers of either declaration.
pub open spec fn broad_heads(l: HydratedDeclaration, r: HydratedDeclaration) -> Set<Seq<char>> {
    heads_of(views(l.low_signal_markers@)).union(heads_of(views(r.low_signal_markers@)))
}

/// Every contribution is a role feature whose display is a broad head (and
/// there are contributions and broad heads at all).
pub open spec fn broad_head_only_spec(l: HydratedDeclaration, r: HydratedDeclaration, cs: Seq<KeyContribution>) -> bool {
    &&& cs.len() > 0
    &&& !broad_heads(l, r).is_empty()
    &&& forall|i: int| 0 <= i < cs.len() ==> broad_role(#[trigger] cs[i], broad_heads(l, r))
}

/// A role-feature contribution displayed as one of `heads`.
pub open spec fn broad_role(c: KeyContribution, heads: Set<Seq<char>>) -> bool {
    c.kind@ == "role-feature"@ && match c.display {
        Some(dp) => heads.contains(dp@),
        None => false,
    }
}

/// The blockers that keep a pair out of the default queue.
pub open spec fn visibility_blocker_set(l: HydratedDeclaration, r: HydratedDeclaration, cs: Seq<KeyContribution>) -> Set<
    Seq<char>,
> {
    Set::new(
        |b: Seq<char>|
            {
            ||| (b == "generated-declaration"@ && (generated_spec(l) || generated_spec(r)))
            ||| (b == "non-public-declaration"@ && (non_public_spec(l) || non_public_spec(r)))
            ||| (b == "low-signal-declaration"@ && (low_signal_spec(l) || low_signal_spec(r)))
            ||| (b == "broad-head-only"@ && broad_head_only_spec(l, r, cs))
            ||| (b == "typeclass-instance-noise"@ && (instance_noise_spec(l) || instance_noise_spec(r)))
            ||| (b == "non-theorem-static-only"@ && !(theorem_like_spec(l) && theorem_like_spec(r) || has_kind(
                cs,
                "source-fingerprint"@,
            ) || has_kind(cs, "semantic-proof-grade"@)))
            },
    )
}

fn has_flag(v: &Vec<String>, flag: &str) -> (r: bool)
    ensures
        r == views(v@).contains(flag@),
{
    crate::sets::contains_str(v, flag)
}

/// Whether some contribution has the given kind.
pub fn has_contribution(cs: &Vec<KeyContribution>, kind: &str) -> (r: bool)
    ensures
        r == has_kind(cs@, kind@),
{
    let mut i: usize = 0;
    while i < cs.len()
        invariant
            i <= cs@.len(),
            forall|k: int| 0 <= k < i ==> cs@[k].kind@ != kind@,
        decreases cs@.len() - i,
    {
        if str_eq(cs[i].kind.as_str(), kind) {
            return true;
        }
        i = i + 1;
    }
    false
}

fn instance_noise(d: &HydratedDeclaration) -> (r: bool)
    ensures
        r == instance_noise_spec(*d),
{
    str_eq(d.kind.as_str(), "instance") || starts_with(d.display_name.as_str(), "inst")
}

/// Adds the heads named by `broad_head:` markers of `ms` to the ordered set.
fn add_heads(out: &mut Vec<String>, ms: &Vec<String>)
    requires
        crate::sets::sorted_strict(views(old(out)@)),
    ensures
        crate::sets::sorted_strict(views(final(out)@)),
        views(final(out)@).to_set() == views(old(out)@).to_set().union(heads_of(views(ms@))),
{
    let prefix = chars_of("broad_head:");
    let ghost start = views(out@).to_set();
    let ghost mv = views(ms@);
    let mut k: usize = 0;
    assert(heads_of(mv.take(0)) =~= Set::empty());
    assert(start.union(Set::empty()) =~= start);
    while k < ms.len()
        invariant
            k <= ms@.len(),
            mv == views(ms@),
            prefix@ == "broad_head:"@,
            start == views(old(out)@).to_set(),
            crate::sets::sorted_strict(views(out@)),
            views(out@).to_set() == start.union(heads_of(mv.take(k as int))),
        decreases ms@.len() - k,
    {
        let marker = &ms[k];
        let ghost mk = marker@;
        let ghost before = heads_of(mv.take(k as int));
        let ghost after = heads_of(mv.take(k + 1));
        proof {
            assert(mv[k as int] == mk);
            assert(mv.take(k + 1) =~= mv.take(k as int).push(mk));
            assert(mv.take(k + 1)[k as int] == mk);
            assert(mv.take(k + 1).contains(mk));
            assert forall|m| mv.take(k as int).contains(m) implies mv.take(k + 1).contains(m) by {
                let j = choose|j: int| 0 <= j < k && #[trigger] mv.take(k as int)[j] == m;
                assert(mv.take(k + 1)[j] == m);
            }
            assert forall|m| #[trigger] mv.take(k + 1).contains(m) && m != mk implies mv.take(k as int).contains(m) by {
                let j = choose|j: int| 0 <= j < k + 1 && #[trigger] mv.take(k + 1)[j] == m;
                assert(j != k);
                assert(mv.take(k as int)[j] == m);
            }
        }
        let mc = chars_of(marker.as_str());
        let _n = mc.len();
        if mc.len() >= prefix.len() && crate::text::seq_starts_with(&mc, &prefix, 0) {
            let head_chars = sub_chars(&mc, prefix.len(), mc.len());
            let head = string_of(head_chars.as_slice());
            proof {
                assert(head@ =~= mk.skip("broad_head:"@.len() as int));
            }
            let ghost hv = head@;
            set_insert(out, head);
            proof {
                assert(after =~= before.insert(hv)) by {
                    assert forall|h| after.contains(h) implies before.insert(hv).contains(h) by {
                        let m = choose|m: Seq<char>|
                            mv.take(k + 1).contains(m) && has_prefix(m, "broad_head:"@) && #[trigger] m.skip(
                                "broad_head:"@.len() as int,
                            ) == h;
                        if m != mk {
                            assert(mv.take(k as int).contains(m));
                        }
                    }
                    assert forall|h| before.insert(hv).contains(h) implies after.contains(h) by {
                        if h != hv {
                            let m = choose|m: Seq<char>|
                                mv.take(k as int).contains(m) && has_prefix(m, "broad_head:"@) && #[trigger] m.skip(
                                    "broad_head:"@.len() as int,
                                ) == h;
                            assert(mv.take(k + 1).contains(m));
                        }
                    }
                }
                assert(start.union(after) =~= start.union(before).insert(hv));
            }
        } else {
            proof {
                assert(!has_prefix(mk, "broad_head:"@));
                assert(after =~= before) by {
                    assert forall|h| after.contains(h) implies before.contains(h) by {
                        let m = choose|m: Seq<char>|
                            mv.take(k + 1).contains(m) && has_prefix(m, "broad_head:"@) && #[trigger] m.skip(
                                "broad_head:"@.len() as int,
                            ) == h;
                        assert(mv.take(k as int).contains(m));
                    }
                    assert forall|h| before.contains(h) implies after.contains(h) by {
                        let m = choose|m: Seq<char>|
                            mv.take(k as int).contains(m) && has_prefix(m, "broad_head:"@) && #[trigger] m.skip(
                                "broad_head:"@.len() as int,
                            ) == h;
                        assert(mv.take(k + 1).contains(m));
                    }
                }
            }
        }
        k = k + 1;
    }
    assert(mv.take(ms@.len() as int) =~= mv);
}

/// The heads named by `broad_head:` markers, as an ordered set.
fn collect_broad_heads(l: &HydratedDeclaration, r: &HydratedDeclaration) -> (out: Vec<String>)
    ensures
        is_ordered_set(out@, broad_heads(*l, *r)),
{
    let mut out = set_new();
    add_heads(&mut out, &l.low_signal_markers);
    add_heads(&mut out, &r.low_signal_markers);
    proof {
        assert(Set::<Seq<char>>::empty().union(heads_of(views(l.low_signal_markers@))) =~= heads_of(
            views(l.low_signal_markers@),
        ));
    }
    out
}

fn broad_head_only(l: &HydratedDeclaration, r: &HydratedDeclaration, cs: &Vec<KeyContribution>) -> (b: bool)
    ensures
        b == broad_head_only_spec(*l, *r, cs@),
{
    if cs.len() == 0 {
        return false;
    }
    let heads = collect_broad_heads(l, r);
    if heads.len() == 0 {
        proof {
            assert(broad_heads(*l, *r) =~= views(heads@).to_set());
            assert(views(heads@).to_set() =~= Set::empty());
        }
        return false;
    }
    proof {
        assert(views(heads@).to_set().contains(views(heads@)[0]));
    }
    let mut i: usize = 0;
    while i < cs.len()
        invariant
            i <= cs@.len(),
            is_ordered_set(heads@, broad_heads(*l, *r)),
            forall|k: int| 0 <= k < i ==> broad_role(#[trigger] cs@[k], broad_heads(*l, *r)),
        decreases cs@.len() - i,
    {
        let c = &cs[i];
        if !str_eq(c.kind.as_str(), "role-feature") {
            return false;
        }
        match &c.display {
            Some(dp) => {
                if !crate::sets::contains_str(&heads, dp.as_str()) {
                    return false;
                }
            },
            None => {
                return false;
            },
        }
        i = i + 1;
    }
    true
}

/// The blockers that keep a pair out of the default review queue, as an
/// ordered set.
pub fn visibility_blockers(l: &HydratedDeclaration, r: &HydratedDeclaration, cs: &Vec<KeyContribution>) -> (out: Vec<
    String,
>)
    ensures
        is_ordered_set(out@, visibility_blocker_set(*l, *r, cs@)),
{
    let mut out = set_new();
    let generated = has_flag(&l.status_flags, "generated") || has_flag(&r.status_flags, "generated");
    let non_public = !str_eq(l.visibility.as_str(), "public") || !str_eq(r.visibility.as_str(), "public");
    let low = l.low_signal_markers.len() > 0 || r.low_signal_markers.len() > 0;
    let broad = broad_head_only(l, r, cs);
    let noise = instance_noise(l) || instance_noise(r);
    let proof_or_clone = has_contribution(cs, "source-fingerprint") || has_contribution(cs, "semantic-proof-grade");
    let non_theorem = !(theorem_like(l) && theorem_like(r) || proof_or_clone);
    let ghost mut acc: Set<Seq<char>> = Set::empty();
    if generated {
        set_insert(&mut out, "generated-declaration".to_owned());
        proof { acc = acc.insert("generated-declaration"@); }
    }
    if non_public {
        set_insert(&mut out, "non-public-declaration".to_owned());
        proof { acc = acc.insert("non-public-declaration"@); }
    }
    if low {
        set_insert(&mut out, "low-signal-declaration".to_owned());
        proof { acc = acc.insert("low-signal-declaration"@); }
    }
    if broad {
        set_insert(&mut out, "broad-head-only".to_owned());
        proof { acc = acc.insert("broad-head-only"@); }
    }
    if noise {
        set_insert(&mut out, "typeclass-instance-noise".to_owned());
        proof { acc = acc.insert("typeclass-instance-noise"@); }
    }
    if non_theorem {
        set_insert(&mut out, "non-theorem-static-only".to_owned());
        proof { acc = acc.insert("non-theorem-static-only"@); }
    }
    proof {
        assert(views(out@).to_set() =~= acc);
        assert(acc =~= visibility_blocker_set(*l, *r, cs@));
    }
    out
}

/// Whether the symbolic queue shows a pair by default: no blockers, both
/// theorems, matched on the statement or on a safe permutation of it.
pub open spec fn observation_visible_spec(l: HydratedDeclaration, r: HydratedDeclaration, cs: Seq<KeyContribution>) -> bool {
    &&& visibility_blocker_set(l, r, cs).is_empty()
    &&& theorem_like_spec(l) && theorem_like_spec(r)
    &&& (has_kind(cs, "statement-fingerprint"@) || has_kind(cs, "safe-permutation-fingerprint"@))
}

/// Whether the default symbolic queue shows the pair.
pub fn symbolic_observation_visible(l: &HydratedDeclaration, r: &HydratedDeclaration, cs: &Vec<KeyContribution>) -> (b: bool)
    ensures
        b == observation_visible_spec(*l, *r, cs@),
{
    let blockers = visibility_blockers(l, r, cs);
    if blockers.len() > 0 {
        proof {
            assert(views(blockers@).to_set().contains(views(blockers@)[0]));
        }
        return false;
    }
    proof {
        assert(views(blockers@).to_set() =~= Set::<Seq<char>>::empty());
    }
    if theorem_like(l) && theorem_like(r) {
        return has_contribution(cs, "statement-fingerprint") || has_contribution(cs, "safe-permutation-fingerprint");
    }
    false
}

} // verus!
