//! Rekey planning: before any file is touched, cross-reference the secrets
//! the store lists with the rules table. Every listed secret gets exactly one
//! planned action — re-encrypt for its declared recipients, or be reported as
//! orphaned when no rule covers it — and every rule whose target file is
//! missing is reported as unreferenced. The whole plan is computed up front so
//! it can be validated before any mutation.

use vstd::prelude::*;
use crate::rules::{RecipientRules, contains_key};

verus! {

/// What a rekey pass will do with one listed secret.
pub enum PlanAction {
    /// Decrypt it and encrypt the recovered plaintext for these recipients.
    Reencrypt(Vec<String>),
    /// No rule covers it: report it and leave its bytes untouched.
    Orphaned,
}

/// One listed secret together with its planned action.
pub struct PlanItem {
    pub path: String,
    pub action: PlanAction,
}

impl PlanItem {
    pub open spec fn is_reencrypt(self) -> bool {
        self.action is Reencrypt
    }

    /// The recipients this item will be encrypted for (meaningful only when
    /// `is_reencrypt()`).
    pub open spec fn recipients_spec(self) -> Seq<Seq<char>> {
        self.action->Reencrypt_0.deep_view()
    }
}

/// The full plan of one rekey pass: one item per listed secret, plus the
/// declared paths whose target file does not exist.
pub struct RekeyPlan {
    pub items: Vec<PlanItem>,
    pub unreferenced: Vec<String>,
}

impl RekeyPlan {
    /// No secret path is planned twice, and every re-encryption names at
    /// least one recipient.
    pub open spec fn wf(self) -> bool {
        &&& forall|i: int, j: int| 0 <= i < j < self.items@.len()
                ==> self.items@[i].path@ != self.items@[j].path@
        &&& forall|i: int| 0 <= i < self.items@.len() && (#[trigger] self.items@[i]).is_reencrypt()
                ==> self.items@[i].recipients_spec().len() > 0
    }

    /// The planned paths, in listing order.
    pub open spec fn paths(self) -> Seq<Seq<char>> {
        Seq::new(self.items@.len(), |i: int| self.items@[i].path@)
    }
}

/// The declared paths (in declaration order) whose secret file is not listed.
pub open spec fn missing_targets(paths: Seq<Seq<char>>, listing: Seq<Seq<char>>) -> Seq<Seq<char>>
    decreases paths.len(),
{
    if paths.len() == 0 {
        Seq::empty()
    } else {
        let rest = missing_targets(paths.drop_last(), listing);
        if listing.contains(paths.last()) {
            rest
        } else {
            rest.push(paths.last())
        }
    }
}

/// What it means for a plan to be the one that `rules` and `listing`
/// determine: one item per listed path in listing order, re-encrypting
/// exactly the declared secrets for exactly their declared recipients,
/// marking the rest orphaned, and reporting exactly the declared paths whose
/// file is missing.
pub open spec fn plan_matches(p: RekeyPlan, rules: RecipientRules, listing: Seq<Seq<char>>) -> bool {
    &&& p.items@.len() == listing.len()
    &&& forall|i: int| 0 <= i < listing.len() ==> (#[trigger] p.items@[i]).path@ == listing[i]
    &&& forall|i: int| 0 <= i < listing.len()
            ==> (rules.declares(listing[i]) <==> (#[trigger] p.items@[i]).is_reencrypt())
    &&& forall|i: int| 0 <= i < listing.len() && rules.declares(listing[i])
            ==> (#[trigger] p.items@[i]).recipients_spec() == rules.recipients_for(listing[i])
    &&& p.unreferenced.deep_view() == missing_targets(rules.paths(), listing)
}

/// Planning is a function of the rules and the listing alone: two plans that
/// both match the same rules and the same listing agree on every path, every
/// action, every recipient set, and every unreferenced rule.
pub proof fn lemma_plan_deterministic(
    p1: RekeyPlan,
    p2: RekeyPlan,
    rules: RecipientRules,
    listing: Seq<Seq<char>>,
)
    requires
        plan_matches(p1, rules, listing),
        plan_matches(p2, rules, listing),
    ensures
        p1.paths() =~= p2.paths(),
        forall|i: int| 0 <= i < p1.items@.len()
            ==> ((#[trigger] p1.items@[i]).is_reencrypt() <==> (#[trigger] p2.items@[i]).is_reencrypt()),
        forall|i: int| 0 <= i < p1.items@.len() && (#[trigger] p1.items@[i]).is_reencrypt()
            ==> p1.items@[i].recipients_spec() == p2.items@[i].recipients_spec(),
        p1.unreferenced.deep_view() == p2.unreferenced.deep_view(),
{
}

/// Builds the plan for one rekey pass. Each listed secret is planned for
/// re-encryption exactly when the rules declare recipients for it — with
/// exactly those recipients — and is otherwise marked orphaned; declared paths
/// with no listed file are reported as unreferenced.
pub fn build_plan(rules: &RecipientRules, listing: &Vec<String>) -> (p: RekeyPlan)
    requires
        rules.wf(),
        forall|a: int, b: int| 0 <= a < b < listing@.len() ==> listing@[a]@ != listing@[b]@,
    ensures
        p.wf(),
        plan_matches(p, *rules, listing.deep_view()),
{
    let mut items: Vec<PlanItem> = Vec::new();
    let mut i: usize = 0;
    while i < listing.len()
        invariant
            rules.wf(),
            forall|a: int, b: int| 0 <= a < b < listing@.len() ==> listing@[a]@ != listing@[b]@,
            i <= listing@.len(),
            items@.len() == i,
            forall|k: int| 0 <= k < i ==> (#[trigger] items@[k]).path@ == listing@[k]@,
            forall|k: int| 0 <= k < i
                ==> (rules.declares(listing@[k]@) <==> (#[trigger] items@[k]).is_reencrypt()),
            forall|k: int| 0 <= k < i && rules.declares(listing@[k]@)
                ==> (#[trigger] items@[k]).recipients_spec() == rules.recipients_for(listing@[k]@),
            forall|k: int| 0 <= k < i && (#[trigger] items@[k]).is_reencrypt()
                ==> items@[k].recipients_spec().len() > 0,
        decreases listing@.len() - i,
    {
        let action = match rules.lookup(&listing[i]) {
            Some(recipients) => PlanAction::Reencrypt(recipients),
            None => PlanAction::Orphaned,
        };
        items.push(PlanItem { path: listing[i].clone(), action });
        i += 1;
    }
    let mut unreferenced: Vec<String> = Vec::new();
    let n = rules.len();
    let mut i: usize = 0;
    while i < n
        invariant
            rules.wf(),
            n == rules.paths().len(),
            i <= n,
            unreferenced.deep_view()
                == missing_targets(rules.paths().subrange(0, i as int), listing.deep_view()),
        decreases n - i,
    {
        let ghost pre = rules.paths().subrange(0, i as int);
        let ghost cur = rules.paths().subrange(0, i as int + 1);
        proof {
            assert(cur.drop_last() =~= pre);
            assert(cur.last() == rules.paths()[i as int]);
        }
        let path = rules.path_at(i);
        if !contains_key(listing, path) {
            let ghost old_dv = unreferenced.deep_view();
            unreferenced.push(path.clone());
            proof {
                assert(unreferenced.deep_view() =~= old_dv.push(rules.paths()[i as int]));
            }
        }
        i += 1;
    }
    proof {
        assert(rules.paths().subrange(0, rules.paths().len() as int) =~= rules.paths());
    }
    let p = RekeyPlan { items, unreferenced };
    proof {
        assert forall|a: int, b: int| 0 <= a < b < p.items@.len()
            implies p.items@[a].path@ != p.items@[b].path@ by {
            assert(p.items@[a].path@ == listing@[a]@);
            assert(p.items@[b].path@ == listing@[b]@);
        }
    }
    p
}

} // verus!
