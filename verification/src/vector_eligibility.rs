//! Which declarations the vector-validation workload embeds, and why the
//! others are skipped.
//!
//! Skip reasons are counted per reason; the counts are kept in the order of
//! the reason labels, the order a sorted map of them iterates in.
use vstd::prelude::*;

use crate::declaration::HydratedDeclaration;
use crate::sets::{contains_str, views};
use crate::text::{blank, concat, contains, contains_seq, is_blank, owned, str_eq};
use crate::vector::InvalidVectorRequest;

verus! {

/// Version tag of the vector eligibility rules.
pub const ELIGIBILITY_POLICY_VERSION: &'static str = "lean-dup.vector-eligibility.v1";

/// Which declarations are embedded.
#[derive(Debug, Clone, Copy, PartialEq, Eq, Structural)]
pub enum EligibilityPolicy {
    /// Public, non-generated theorem-like statements only.
    ActionablePublicStatement,
    /// Every declaration with statement text that is not otherwise noise.
    Broad,
}

/// The stable id of a policy.
pub open spec fn eligibility_policy_id(p: EligibilityPolicy) -> Seq<char> {
    match p {
        EligibilityPolicy::ActionablePublicStatement => "actionable-public-statement"@,
        EligibilityPolicy::Broad => "broad"@,
    }
}

impl EligibilityPolicy {
    /// The policy with id `id`.
    pub fn from_id(id: &str) -> (r: Result<EligibilityPolicy, InvalidVectorRequest>)
        ensures
            match r {
                Ok(p) => eligibility_policy_id(p) == id@,
                Err(e) => id@ != "actionable-public-statement"@ && id@ != "broad"@ && e.message@
                    == "unsupported eligibility policy: "@ + id@,
            },
    {
        if str_eq(id, "actionable-public-statement") {
            Ok(EligibilityPolicy::ActionablePublicStatement)
        } else if str_eq(id, "broad") {
            Ok(EligibilityPolicy::Broad)
        } else {
            Err(InvalidVectorRequest { message: concat("unsupported eligibility policy: ", id) })
        }
    }

    /// The stable id of this policy.
    pub fn id(self) -> (r: &'static str)
        ensures
            r@ == eligibility_policy_id(self),
    {
        match self {
            EligibilityPolicy::ActionablePublicStatement => "actionable-public-statement",
            EligibilityPolicy::Broad => "broad",
        }
    }
}

/// The skip-reason labels, in their sorted order.
pub open spec fn skip_labels() -> Seq<Seq<char>> {
    seq![
        "generated"@,
        "low-signal"@,
        "missing-statement"@,
        "non-actionable"@,
        "private"@,
        "synthetic"@,
        "unsupported-kind"@,
    ]
}

/// Declaration kinds the actionable policy embeds.
pub open spec fn embeddable_kind(kind: Seq<char>) -> bool {
    ||| kind == "theorem"@
    ||| kind == "lemma"@
    ||| kind == "axiom"@
    ||| kind == "def"@
    ||| kind == "abbrev"@
    ||| kind == "instance"@
    ||| kind == "structure"@
    ||| kind == "class"@
}

/// Why `d` is not embedded under `policy` (by index into `skip_labels`),
/// checked in order: blank statement, generated, private, marked
/// low-signal, synthetic name, and for the actionable policy an unsupported
/// kind or a non-actionable flag.
pub open spec fn skip_index(d: HydratedDeclaration, policy: EligibilityPolicy) -> Option<int> {
    if is_blank(d.statement_text@) {
        Some(2)
    } else if views(d.status_flags@).contains("generated"@) {
        Some(0)
    } else if d.visibility@ == "private"@ {
        Some(4)
    } else if views(d.low_signal_markers@).contains("low-signal"@) {
        Some(1)
    } else if contains_seq(d.qualified_name@, "Synthetic."@) {
        Some(5)
    } else if policy == EligibilityPolicy::ActionablePublicStatement && !embeddable_kind(d.kind@) {
        Some(6)
    } else if policy == EligibilityPolicy::ActionablePublicStatement && views(
        d.status_flags@,
    ).contains("non-actionable"@) {
        Some(3)
    } else {
        None
    }
}

/// Number of declarations of `ds` skipped for reason `k`.
pub open spec fn skip_count(ds: Seq<HydratedDeclaration>, policy: EligibilityPolicy, k: int) -> nat
    decreases ds.len(),
{
    if ds.len() == 0 {
        0
    } else {
        skip_count(ds.drop_last(), policy, k) + if skip_index(ds.last(), policy) == Some(k) {
            1nat
        } else {
            0nat
        }
    }
}

/// The declarations of `ds` that are embedded, in order.
pub open spec fn eligible_of(ds: Seq<HydratedDeclaration>, policy: EligibilityPolicy) -> Seq<
    HydratedDeclaration,
>
    decreases ds.len(),
{
    if ds.len() == 0 {
        Seq::empty()
    } else if skip_index(ds.last(), policy) is None {
        eligible_of(ds.drop_last(), policy).push(ds.last())
    } else {
        eligible_of(ds.drop_last(), policy)
    }
}

/// The nonzero skip counts, label and count, in label order (the entries of
/// the sorted reason map).
pub open spec fn skipped_entries_from(counts: Seq<nat>, k: int) -> Seq<(Seq<char>, nat)>
    decreases 7 - k,
{
    if k >= 7 || k < 0 {
        Seq::empty()
    } else if counts[k] > 0 {
        seq![(skip_labels()[k], counts[k])] + skipped_entries_from(counts, k + 1)
    } else {
        skipped_entries_from(counts, k + 1)
    }
}

/// The skip counts of `ds`, by reason index.
pub open spec fn skip_counts(ds: Seq<HydratedDeclaration>, policy: EligibilityPolicy) -> Seq<nat> {
    Seq::new(7, |k: int| skip_count(ds, policy, k))
}

/// Label and count of each reason entry.
pub open spec fn entry_views(v: Seq<(String, usize)>) -> Seq<(Seq<char>, nat)> {
    v.map_values(|e: (String, usize)| (e.0@, e.1 as nat))
}

/// Counts of an eligibility pass.
#[derive(Debug, Clone)]
pub struct EligibilitySummary {
    pub policy_id: String,
    pub policy_version: &'static str,
    pub total: usize,
    pub eligible: usize,
    /// Skip counts by reason label, in label order, zero counts left out.
    pub skipped_by_reason: Vec<(String, usize)>,
}

impl Default for EligibilitySummary {
    /// The summary of no pass: no policy, nothing counted.
    fn default() -> (r: EligibilitySummary)
        ensures
            r.policy_id@.len() == 0,
            r.policy_version@.len() == 0,
            r.total == 0,
            r.eligible == 0,
            r.skipped_by_reason@.len() == 0,
    {
        let r = EligibilitySummary {
            policy_id: String::new(),
            policy_version: "",
            total: 0,
            eligible: 0,
            skipped_by_reason: Vec::new(),
        };
        proof {
            reveal_strlit("");
        }
        r
    }
}

/// The embedded declarations and the summary of the pass.
#[derive(Debug)]
pub struct EligibleDeclarations {
    pub summary: EligibilitySummary,
    pub declarations: Vec<HydratedDeclaration>,
}

/// The skip reason of `declaration` under `policy`, as its label index.
pub fn skip_reason_index(declaration: &HydratedDeclaration, policy: EligibilityPolicy) -> (r: Option<
    usize,
>)
    ensures
        match r {
            Some(k) => skip_index(*declaration, policy) == Some(k as int) && k < 7,
            None => skip_index(*declaration, policy) is None,
        },
{
    if blank(declaration.statement_text.as_str()) {
        return Some(2);
    }
    if contains_str(&declaration.status_flags, "generated") {
        return Some(0);
    }
    if str_eq(declaration.visibility.as_str(), "private") {
        return Some(4);
    }
    if contains_str(&declaration.low_signal_markers, "low-signal") {
        return Some(1);
    }
    if contains(declaration.qualified_name.as_str(), "Synthetic.") {
        return Some(5);
    }
    if policy == EligibilityPolicy::ActionablePublicStatement {
        let k = declaration.kind.as_str();
        let embeddable = str_eq(k, "theorem") || str_eq(k, "lemma") || str_eq(k, "axiom") || str_eq(
            k,
            "def",
        ) || str_eq(k, "abbrev") || str_eq(k, "instance") || str_eq(k, "structure") || str_eq(
            k,
            "class",
        );
        if !embeddable {
            return Some(6);
        }
        if contains_str(&declaration.status_flags, "non-actionable") {
            return Some(3);
        }
    }
    None
}

/// The skip label of `declaration` under `policy`, or `None` when it is
/// embedded.
pub fn skip_reason(declaration: &HydratedDeclaration, policy: EligibilityPolicy) -> (r: Option<
    &'static str,
>)
    ensures
        match r {
            Some(l) => skip_index(*declaration, policy) matches Some(k) && 0 <= k < 7 && l@
                == skip_labels()[k],
            None => skip_index(*declaration, policy) is None,
        },
{
    match skip_reason_index(declaration, policy) {
        Some(k) => Some(skip_label(k)),
        None => None,
    }
}

/// The label with index `k`.
pub fn skip_label(k: usize) -> (r: &'static str)
    requires
        k < 7,
    ensures
        r@ == skip_labels()[k as int],
{
    if k == 0 {
        "generated"
    } else if k == 1 {
        "low-signal"
    } else if k == 2 {
        "missing-statement"
    } else if k == 3 {
        "non-actionable"
    } else if k == 4 {
        "private"
    } else if k == 5 {
        "synthetic"
    } else {
        "unsupported-kind"
    }
}

proof fn lemma_skip_count_bounded(ds: Seq<HydratedDeclaration>, policy: EligibilityPolicy, k: int)
    ensures
        skip_count(ds, policy, k) <= ds.len(),
    decreases ds.len(),
{
    if ds.len() > 0 {
        lemma_skip_count_bounded(ds.drop_last(), policy, k);
    }
}

/// The reason entries for the counts `counts`, from index `k` on.
fn entries_from(counts: &Vec<usize>, k: usize) -> (r: Vec<(String, usize)>)
    requires
        counts@.len() == 7,
        k <= 7,
    ensures
        entry_views(r@) == skipped_entries_from(counts@.map_values(|c: usize| c as nat), k as int),
    decreases 7 - k,
{
    let ghost cs = counts@.map_values(|c: usize| c as nat);
    if k >= 7 {
        let r: Vec<(String, usize)> = Vec::new();
        assert(entry_views(r@) =~= Seq::<(Seq<char>, nat)>::empty());
        r
    } else {
        let rest = entries_from(counts, k + 1);
        if counts[k] > 0 {
            let mut r: Vec<(String, usize)> = Vec::new();
            r.push((owned(skip_label(k)), counts[k]));
            let mut rest = rest;
            r.append(&mut rest);
            assert(cs[k as int] == counts@[k as int] as nat);
            assert(entry_views(r@) =~= seq![(skip_labels()[k as int], cs[k as int])]
                + skipped_entries_from(cs, k + 1));
            r
        } else {
            assert(cs[k as int] == 0);
            rest
        }
    }
}

/// Splits `declarations` into the embedded ones, in order, and a summary of
/// how many were skipped for each reason.
pub fn filter(declarations: Vec<HydratedDeclaration>, policy: EligibilityPolicy) -> (r:
    EligibleDeclarations)
    ensures
        r.summary.policy_id@ == eligibility_policy_id(policy),
        r.summary.policy_version@ == ELIGIBILITY_POLICY_VERSION@,
        r.summary.total == declarations@.len(),
        r.summary.eligible == eligible_of(declarations@, policy).len(),
        r.declarations@ == eligible_of(declarations@, policy),
        entry_views(r.summary.skipped_by_reason@) == skipped_entries_from(
            skip_counts(declarations@, policy),
            0,
        ),
{
    let ghost all = declarations@;
    let total = declarations.len();
    let mut rest = declarations;
    let mut eligible: Vec<HydratedDeclaration> = Vec::new();
    let mut counts: Vec<usize> = vec![0, 0, 0, 0, 0, 0, 0];
    let mut done: usize = 0;
    while rest.len() > 0
        invariant
            all.len() == total,
            done + rest@.len() == total,
            rest@ == all.skip(done as int),
            eligible@ == eligible_of(all.take(done as int), policy),
            counts@.len() == 7,
            forall|k: int| 0 <= k < 7 ==> #[trigger] counts@[k] == skip_count(all.take(done as int), policy, k),
        decreases rest@.len(),
    {
        let d = rest.remove(0);
        proof {
            assert(all.take(done + 1).drop_last() =~= all.take(done as int));
            assert(all.take(done + 1).last() == d);
            assert(rest@ =~= all.skip(done + 1));
            assert forall|k: int| 0 <= k < 7 implies skip_count(all.take(done as int), policy, k) <= done by {
                lemma_skip_count_bounded(all.take(done as int), policy, k);
            }
        }
        match skip_reason_index(&d, policy) {
            Some(k) => {
                let c = counts[k];
                counts.set(k, c + 1);
            },
            None => {
                eligible.push(d);
            },
        }
        done = done + 1;
    }
    proof {
        assert(all.take(done as int) =~= all);
    }
    let eligible_count = eligible.len();
    let skipped_by_reason = entries_from(&counts, 0);
    proof {
        assert(counts@.map_values(|c: usize| c as nat) =~= skip_counts(all, policy));
    }
    EligibleDeclarations {
        summary: EligibilitySummary {
            policy_id: owned(policy.id()),
            policy_version: ELIGIBILITY_POLICY_VERSION,
            total,
            eligible: eligible_count,
            skipped_by_reason,
        },
        declarations: eligible,
    }
}

/// Declarations skipped for any reason.
pub open spec fn skip_count_total(ds: Seq<HydratedDeclaration>, policy: EligibilityPolicy) -> nat {
    skip_count(ds, policy, 0) + skip_count(ds, policy, 1) + skip_count(ds, policy, 2) + skip_count(ds, policy, 3)
        + skip_count(ds, policy, 4) + skip_count(ds, policy, 5) + skip_count(ds, policy, 6)
}

/// Every declaration is either eligible or skipped for exactly one reason:
/// the eligible count and the skip counts add up to the total.
pub proof fn lemma_eligibility_counts_add_up(ds: Seq<HydratedDeclaration>, policy: EligibilityPolicy)
    ensures
        eligible_of(ds, policy).len() + skip_count_total(ds, policy) == ds.len(),
    decreases ds.len(),
{
    if ds.len() > 0 {
        lemma_eligibility_counts_add_up(ds.drop_last(), policy);
    }
}

} // verus!
