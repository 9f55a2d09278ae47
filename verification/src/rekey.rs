//! The rekey pass itself, driven as a state machine. The machine owns the
//! plan and all bookkeeping; the surrounding binary performs each operation
//! the machine asks for next — decrypt one secret, encrypt a plaintext for a
//! recipient set, or atomically replace one file — and hands the result back.
//!
//! The contracts pin the safety story down: a secret is only ever replaced
//! after its old ciphertext decrypted and the recovered plaintext was
//! encrypted for exactly the recipients the plan declares; a secret whose
//! decryption or encryption failed, and an orphaned secret, are never
//! written; every planned secret ends in exactly one reported outcome, and
//! one failure never stops the rest of the batch.

use vstd::prelude::*;
use crate::plan::{PlanItem, RekeyPlan};

verus! {

/// The final state of one planned secret. Exactly one is reported per secret.
#[derive(Clone, Copy, PartialEq, Eq, Structural, Debug)]
pub enum SecretOutcome {
    /// Decrypted, re-encrypted for the current recipients, and atomically
    /// replaced on disk.
    Rekeyed,
    /// No rule covers it: reported and left untouched.
    Orphaned,
    /// None of the provided identities could decrypt it: left untouched.
    NoUsableIdentity,
    /// The encryption collaborator failed: left untouched.
    EncryptFailed,
    /// The atomic replacement failed; the old or the new ciphertext is in
    /// place, never a truncated mixture.
    ReplaceFailed,
}

impl SecretOutcome {
    /// Failures make the whole run exit non-zero.
    pub open spec fn is_failure(self) -> bool {
        self is NoUsableIdentity || self is EncryptFailed || self is ReplaceFailed
    }

    pub open spec fn is_success(self) -> bool {
        self is Rekeyed
    }
}

/// One line of the run's report.
pub struct SecretReport {
    pub path: String,
    pub outcome: SecretOutcome,
}

/// One atomic replacement the run performed: the ciphertext now on disk,
/// together with (ghost) the plaintext whose encryption produced it and the
/// recipients that encryption was requested for.
pub struct WriteRecord {
    pub path: String,
    pub ciphertext: Vec<u8>,
    pub plaintext: Ghost<Seq<u8>>,
    pub recipients: Ghost<Seq<Seq<char>>>,
    /// Index of the planned item this replacement belongs to.
    pub item: Ghost<int>,
}

enum Stage {
    Decrypting,
    Encrypting { plaintext: Vec<u8> },
    Writing { ciphertext: Vec<u8>, recovered: Ghost<Seq<u8>> },
    Finished,
}

/// The operation the machine asks the surrounding binary to perform next.
pub enum Pending<'a> {
    /// Read the secret at `path` and try to decrypt it with the available
    /// identities; answer with `give_decrypt`.
    Decrypt { path: &'a String },
    /// Encrypt `plaintext` for `recipients`; answer with `give_encrypt`.
    Encrypt { plaintext: &'a Vec<u8>, recipients: &'a Vec<String> },
    /// Atomically replace the secret at `path` with `ciphertext` (write to a
    /// temporary file, then rename); answer with `give_write`.
    Write { path: &'a String, ciphertext: &'a Vec<u8> },
    /// The run is complete; read the report.
    Finished,
}

/// A rekey pass over one plan.
pub struct RekeyRun {
    plan: RekeyPlan,
    idx: usize,
    stage: Stage,
    report: Vec<SecretReport>,
    writes: Vec<WriteRecord>,
}

impl RekeyRun {
    /// The plan the run was started with.
    pub closed spec fn plan_spec(self) -> RekeyPlan {
        self.plan
    }

    /// The planned items, in order.
    pub closed spec fn items(self) -> Seq<PlanItem> {
        self.plan.items@
    }

    /// The declared paths whose file was missing, carried over from the plan.
    pub closed spec fn unreferenced_view(self) -> Seq<Seq<char>> {
        self.plan.unreferenced.deep_view()
    }

    /// Index of the item currently being worked; everything before it is
    /// reported.
    pub closed spec fn cursor(self) -> int {
        self.idx as int
    }

    /// The outcomes reported so far, one per completed item.
    pub closed spec fn report_view(self) -> Seq<SecretReport> {
        self.report@
    }

    /// The replacements performed so far.
    pub closed spec fn writes_view(self) -> Seq<WriteRecord> {
        self.writes@
    }

    pub closed spec fn awaiting_decrypt(self) -> bool {
        self.stage is Decrypting
    }

    pub closed spec fn awaiting_encrypt(self) -> bool {
        self.stage is Encrypting
    }

    pub closed spec fn awaiting_write(self) -> bool {
        self.stage is Writing
    }

    pub closed spec fn is_finished(self) -> bool {
        self.stage is Finished
    }

    /// The plaintext recovered from the current secret's old ciphertext.
    pub closed spec fn stage_plaintext(self) -> Seq<u8> {
        match self.stage {
            Stage::Encrypting { plaintext } => plaintext@,
            Stage::Writing { recovered, .. } => recovered@,
            _ => Seq::empty(),
        }
    }

    /// The ciphertext the encryption collaborator produced for the current
    /// secret.
    pub closed spec fn stage_ciphertext(self) -> Seq<u8> {
        match self.stage {
            Stage::Writing { ciphertext, .. } => ciphertext@,
            _ => Seq::empty(),
        }
    }

    spec fn report_ok(self) -> bool {
        &&& self.report@.len() == self.idx as int
        &&& forall|i: int| 0 <= i < self.idx as int
                ==> (#[trigger] self.report@[i]).path@ == self.items()[i].path@
        &&& forall|i: int| 0 <= i < self.idx as int
                ==> ((#[trigger] self.report@[i]).outcome is Orphaned <==> !self.items()[i].is_reencrypt())
    }

    spec fn write_entry_ok(self, w: int) -> bool {
        let i = self.writes@[w].item@;
        &&& 0 <= i < self.idx as int
        &&& self.writes@[w].path@ == self.items()[i].path@
        &&& self.report@[i].outcome is Rekeyed
        &&& self.writes@[w].recipients@ == self.items()[i].recipients_spec()
    }

    spec fn writes_ok(self) -> bool {
        forall|w: int| #![trigger self.writes@[w]] 0 <= w < self.writes@.len()
            ==> self.write_entry_ok(w)
    }

    spec fn core_ok(self) -> bool {
        &&& self.plan.wf()
        &&& self.idx as int <= self.items().len()
        &&& self.report_ok()
        &&& self.writes_ok()
    }

    /// The machine's invariant: every public operation preserves it.
    pub closed spec fn inv(self) -> bool {
        &&& self.core_ok()
        &&& (self.stage is Finished <==> self.idx as int == self.items().len())
        &&& (!(self.stage is Finished) ==> self.items()[self.idx as int].is_reencrypt())
    }

    /// How a completed secret relates the machine before and after: the
    /// report grows by this secret's outcome, then by one `Orphaned` line per
    /// directly following uncovered secret, and the machine either rests on
    /// the next covered secret or is finished.
    pub open spec fn step_complete(pre: Self, post: Self, outcome: SecretOutcome) -> bool {
        &&& post.items() == pre.items()
        &&& post.unreferenced_view() == pre.unreferenced_view()
        &&& pre.cursor() < post.cursor() <= post.items().len()
        &&& post.report_view().len() == post.cursor()
        &&& post.report_view().subrange(0, pre.cursor()) == pre.report_view()
        &&& post.report_view()[pre.cursor()].path@ == pre.items()[pre.cursor()].path@
        &&& post.report_view()[pre.cursor()].outcome == outcome
        &&& forall|i: int| pre.cursor() < i < post.cursor()
                ==> !(#[trigger] post.items()[i]).is_reencrypt()
                    && post.report_view()[i].outcome is Orphaned
                    && post.report_view()[i].path@ == post.items()[i].path@
        &&& (post.is_finished() <==> post.cursor() == post.items().len())
        &&& (!post.is_finished() ==> post.awaiting_decrypt()
                && post.items()[post.cursor()].is_reencrypt())
    }

    /// Skips (and reports) consecutive orphaned items, then rests on the next
    /// covered item or finishes.
    #[verifier::loop_isolation(false)]
    fn advance(&mut self)
        requires
            old(self).core_ok(),
            old(self).stage is Finished,
        ensures
            final(self).inv(),
            final(self).plan_spec() == old(self).plan_spec(),
            final(self).items() == old(self).items(),
            final(self).unreferenced_view() == old(self).unreferenced_view(),
            final(self).writes_view() == old(self).writes_view(),
            old(self).cursor() <= final(self).cursor(),
            final(self).report_view().subrange(0, old(self).cursor()) == old(self).report_view(),
            final(self).report_view().len() == final(self).cursor(),
            forall|i: int| old(self).cursor() <= i < final(self).cursor()
                ==> !(#[trigger] final(self).items()[i]).is_reencrypt()
                    && final(self).report_view()[i].outcome is Orphaned
                    && final(self).report_view()[i].path@ == final(self).items()[i].path@,
            (final(self).is_finished() <==> final(self).cursor() == final(self).items().len()),
            (!final(self).is_finished() ==> final(self).awaiting_decrypt()),
    {
        let ghost orig = *old(self);
        let n = self.plan.items.len();
        loop
            invariant
                self.plan == orig.plan,
                self.writes == orig.writes,
                self.stage is Finished,
                n == self.items().len(),
                orig.cursor() <= self.cursor() <= n as int,
                self.core_ok(),
                self.report_view().subrange(0, orig.cursor()) =~= orig.report_view(),
                forall|i: int| orig.cursor() <= i < self.cursor()
                    ==> !(#[trigger] self.items()[i]).is_reencrypt()
                        && self.report_view()[i].outcome is Orphaned
                        && self.report_view()[i].path@ == self.items()[i].path@,
            decreases n - self.idx,
        {
            if self.idx == n {
                return;
            }
            match &self.plan.items[self.idx].action {
                crate::plan::PlanAction::Reencrypt(_) => {
                    self.stage = Stage::Decrypting;
                    return;
                },
                crate::plan::PlanAction::Orphaned => {
                    let ghost old_report = self.report@;
                    let path = self.plan.items[self.idx].path.clone();
                    self.report.push(SecretReport { path, outcome: SecretOutcome::Orphaned });
                    self.idx += 1;
                    proof {
                        assert(self.report@.subrange(0, orig.cursor())
                            =~= old_report.subrange(0, orig.cursor()));
                    }
                },
            }
        }
    }

    /// Starts a run: leading orphaned secrets are reported at once, and the
    /// machine rests on the first secret to re-encrypt (or is finished).
    pub fn new(plan: RekeyPlan) -> (s: Self)
        requires
            plan.wf(),
        ensures
            s.inv(),
            s.plan_spec() == plan,
            s.items() == plan.items@,
            s.unreferenced_view() == plan.unreferenced.deep_view(),
            s.writes_view().len() == 0,
            s.report_view().len() == s.cursor(),
            forall|i: int| 0 <= i < s.cursor()
                ==> !(#[trigger] s.items()[i]).is_reencrypt()
                    && s.report_view()[i].outcome is Orphaned
                    && s.report_view()[i].path@ == s.items()[i].path@,
            (s.is_finished() <==> s.cursor() == plan.items@.len()),
            (!s.is_finished() ==> s.awaiting_decrypt()),
    {
        let mut s = RekeyRun {
            plan,
            idx: 0,
            stage: Stage::Finished,
            report: Vec::new(),
            writes: Vec::new(),
        };
        s.advance();
        s
    }

    /// What the binary must do next.
    pub fn pending(&self) -> (p: Pending<'_>)
        requires
            self.inv(),
        ensures
            match p {
                Pending::Decrypt { path } => self.awaiting_decrypt()
                    && path@ == self.items()[self.cursor()].path@,
                Pending::Encrypt { plaintext, recipients } => self.awaiting_encrypt()
                    && plaintext@ == self.stage_plaintext()
                    && recipients.deep_view() == self.items()[self.cursor()].recipients_spec()
                    && recipients@.len() > 0,
                Pending::Write { path, ciphertext } => self.awaiting_write()
                    && path@ == self.items()[self.cursor()].path@
                    && ciphertext@ == self.stage_ciphertext(),
                Pending::Finished => self.is_finished(),
            },
    {
        match &self.stage {
            Stage::Decrypting => Pending::Decrypt { path: &self.plan.items[self.idx].path },
            Stage::Encrypting { plaintext } => {
                // The invariant makes the current item a re-encryption; the
                // orphaned arm cannot occur.
                match &self.plan.items[self.idx].action {
                    crate::plan::PlanAction::Reencrypt(recipients) => Pending::Encrypt {
                        plaintext,
                        recipients,
                    },
                    crate::plan::PlanAction::Orphaned => Pending::Finished,
                }
            },
            Stage::Writing { ciphertext, .. } => Pending::Write {
                path: &self.plan.items[self.idx].path,
                ciphertext,
            },
            Stage::Finished => Pending::Finished,
        }
    }

    /// Answer to a pending decrypt: the recovered plaintext, or `None` when
    /// no provided identity could open the secret. On failure the secret is
    /// reported `NoUsableIdentity` and left untouched, and the run continues
    /// with the remaining secrets.
    pub fn give_decrypt(&mut self, r: Option<Vec<u8>>)
        requires
            old(self).inv(),
            old(self).awaiting_decrypt(),
        ensures
            final(self).inv(),
            final(self).writes_view() == old(self).writes_view(),
            match r {
                Some(pt) => final(self).awaiting_encrypt()
                    && final(self).stage_plaintext() == pt@
                    && final(self).cursor() == old(self).cursor()
                    && final(self).report_view() == old(self).report_view()
                    && final(self).items() == old(self).items()
                    && final(self).unreferenced_view() == old(self).unreferenced_view(),
                None => Self::step_complete(*old(self), *final(self), SecretOutcome::NoUsableIdentity),
            },
    {
        match r {
            Some(plaintext) => {
                self.stage = Stage::Encrypting { plaintext };
            },
            None => {
                let path = self.plan.items[self.idx].path.clone();
                self.report.push(SecretReport { path, outcome: SecretOutcome::NoUsableIdentity });
                let n = self.plan.items.len();
                assert(self.idx < n);
                self.idx += 1;
                self.stage = Stage::Finished;
                let ghost mid = *self;
                self.advance();
                proof {
                    assert forall|k: int| 0 <= k <= old(self).cursor()
                        implies self.report@[k] == mid.report@[k] by {
                        assert(self.report@.subrange(0, mid.cursor())[k] == self.report@[k]);
                    }
                    assert(self.report@[old(self).cursor()] == mid.report@[old(self).cursor()]);
                    assert(mid.report@[old(self).cursor()].outcome == SecretOutcome::NoUsableIdentity);
                    assert(self.report@.subrange(0, old(self).cursor()) =~= old(self).report@);
                }
            },
        }
    }

    /// Answer to a pending encrypt: the fresh ciphertext, or `None` when the
    /// encryption collaborator failed. On failure the secret is reported
    /// `EncryptFailed` and left untouched, and the run continues.
    pub fn give_encrypt(&mut self, r: Option<Vec<u8>>)
        requires
            old(self).inv(),
            old(self).awaiting_encrypt(),
        ensures
            final(self).inv(),
            final(self).writes_view() == old(self).writes_view(),
            match r {
                Some(ct) => final(self).awaiting_write()
                    && final(self).stage_ciphertext() == ct@
                    && final(self).stage_plaintext() == old(self).stage_plaintext()
                    && final(self).cursor() == old(self).cursor()
                    && final(self).report_view() == old(self).report_view()
                    && final(self).items() == old(self).items()
                    && final(self).unreferenced_view() == old(self).unreferenced_view(),
                None => Self::step_complete(*old(self), *final(self), SecretOutcome::EncryptFailed),
            },
    {
        match r {
            Some(ciphertext) => {
                let ghost pt = self.stage_plaintext();
                self.stage = Stage::Writing { ciphertext, recovered: Ghost(pt) };
            },
            None => {
                let path = self.plan.items[self.idx].path.clone();
                self.report.push(SecretReport { path, outcome: SecretOutcome::EncryptFailed });
                let n = self.plan.items.len();
                assert(self.idx < n);
                self.idx += 1;
                self.stage = Stage::Finished;
                let ghost mid = *self;
                self.advance();
                proof {
                    assert forall|k: int| 0 <= k <= old(self).cursor()
                        implies self.report@[k] == mid.report@[k] by {
                        assert(self.report@.subrange(0, mid.cursor())[k] == self.report@[k]);
                    }
                    assert(self.report@[old(self).cursor()] == mid.report@[old(self).cursor()]);
                    assert(mid.report@[old(self).cursor()].outcome == SecretOutcome::EncryptFailed);
                    assert(self.report@.subrange(0, old(self).cursor()) =~= old(self).report@);
                }
            },
        }
    }

    /// Answer to a pending write: whether the atomic replacement succeeded.
    /// On success the replacement is recorded and the secret reported
    /// `Rekeyed`; on failure it is reported `ReplaceFailed`. Either way the
    /// run continues.
    pub fn give_write(&mut self, ok: bool)
        requires
            old(self).inv(),
            old(self).awaiting_write(),
        ensures
            final(self).inv(),
            if ok {
                Self::step_complete(*old(self), *final(self), SecretOutcome::Rekeyed)
                    && final(self).writes_view().len() == old(self).writes_view().len() + 1
                    && final(self).writes_view().subrange(0, old(self).writes_view().len() as int)
                        == old(self).writes_view()
                    && final(self).writes_view().last().path@
                        == old(self).items()[old(self).cursor()].path@
                    && final(self).writes_view().last().ciphertext@ == old(self).stage_ciphertext()
                    && final(self).writes_view().last().plaintext@ == old(self).stage_plaintext()
                    && final(self).writes_view().last().recipients@
                        == old(self).items()[old(self).cursor()].recipients_spec()
                    && final(self).writes_view().last().item@ == old(self).cursor()
            } else {
                Self::step_complete(*old(self), *final(self), SecretOutcome::ReplaceFailed)
                    && final(self).writes_view() == old(self).writes_view()
            },
    {
        let path = self.plan.items[self.idx].path.clone();
        if ok {
            let mut stage = Stage::Finished;
            core::mem::swap(&mut stage, &mut self.stage);
            // The invariant puts the machine in the writing stage here; no
            // other variant can occur.
            match stage {
                Stage::Writing { ciphertext, recovered } => {
                    let ghost recipients = self.plan.items@[self.idx as int].recipients_spec();
                    self.writes.push(WriteRecord {
                        path: path.clone(),
                        ciphertext,
                        plaintext: recovered,
                        recipients: Ghost(recipients),
                        item: Ghost(self.idx as int),
                    });
                },
                _ => {},
            }
            self.report.push(SecretReport { path, outcome: SecretOutcome::Rekeyed });
            let n = self.plan.items.len();
            assert(self.idx < n);
            self.idx += 1;
            let ghost mid = *self;
            self.advance();
            proof {
                assert forall|k: int| 0 <= k <= old(self).cursor()
                    implies self.report@[k] == mid.report@[k] by {
                    assert(self.report@.subrange(0, mid.cursor())[k] == self.report@[k]);
                }
                assert(self.report@[old(self).cursor()] == mid.report@[old(self).cursor()]);
                assert(mid.report@[old(self).cursor()].outcome == SecretOutcome::Rekeyed);
                assert(self.report@.subrange(0, old(self).cursor()) =~= old(self).report@);
                assert(self.writes@ == mid.writes@);
                assert(self.writes@.subrange(0, old(self).writes@.len() as int)
                    =~= old(self).writes@);
            }
        } else {
            self.report.push(SecretReport { path, outcome: SecretOutcome::ReplaceFailed });
            let n = self.plan.items.len();
            assert(self.idx < n);
            self.idx += 1;
            self.stage = Stage::Finished;
            let ghost mid = *self;
            self.advance();
            proof {
                assert forall|k: int| 0 <= k <= old(self).cursor()
                    implies self.report@[k] == mid.report@[k] by {
                    assert(self.report@.subrange(0, mid.cursor())[k] == self.report@[k]);
                }
                assert(self.report@[old(self).cursor()] == mid.report@[old(self).cursor()]);
                assert(mid.report@[old(self).cursor()].outcome == SecretOutcome::ReplaceFailed);
                assert(self.report@.subrange(0, old(self).cursor()) =~= old(self).report@);
            }
        }
    }

    /// Whether every planned secret has been reported.
    pub fn finished(&self) -> (b: bool)
        ensures
            b == self.is_finished(),
    {
        match &self.stage {
            Stage::Finished => true,
            _ => false,
        }
    }

    /// The per-secret report so far: one line per completed secret, in plan
    /// order.
    pub fn report(&self) -> (r: &Vec<SecretReport>)
        ensures
            r@ == self.report_view(),
    {
        &self.report
    }

    /// The replacements performed so far.
    pub fn writes(&self) -> (r: &Vec<WriteRecord>)
        ensures
            r@ == self.writes_view(),
    {
        &self.writes
    }

    /// The declared paths whose secret file was missing.
    pub fn unreferenced(&self) -> (r: &Vec<String>)
        ensures
            r.deep_view() == self.unreferenced_view(),
    {
        &self.plan.unreferenced
    }

    /// Whether any secret failed: the run's exit status must be non-zero
    /// exactly when this holds.
    pub fn any_failed(&self) -> (b: bool)
        ensures
            b == exists|i: int| 0 <= i < self.report_view().len()
                && (#[trigger] self.report_view()[i]).outcome.is_failure(),
    {
        let mut i: usize = 0;
        while i < self.report.len()
            invariant
                i <= self.report@.len(),
                forall|k: int| 0 <= k < i ==> !(#[trigger] self.report@[k]).outcome.is_failure(),
            decreases self.report@.len() - i,
        {
            match self.report[i].outcome {
                SecretOutcome::NoUsableIdentity => { return true; },
                SecretOutcome::EncryptFailed => { return true; },
                SecretOutcome::ReplaceFailed => { return true; },
                _ => {},
            }
            i += 1;
        }
        false
    }

    /// A secret whose outcome is anything but `Rekeyed` was never written:
    /// its on-disk ciphertext after the run is byte-identical to what it was
    /// before.
    pub proof fn lemma_untouched_unless_rekeyed(self, i: int)
        requires
            self.inv(),
            0 <= i < self.report_view().len(),
            !(self.report_view()[i].outcome is Rekeyed),
        ensures
            forall|w: int| 0 <= w < self.writes_view().len()
                ==> (#[trigger] self.writes_view()[w]).path@ != self.report_view()[i].path@,
    {
        assert forall|w: int| 0 <= w < self.writes_view().len()
            implies (#[trigger] self.writes_view()[w]).path@ != self.report_view()[i].path@ by {
            assert(self.write_entry_ok(w));
            let j = self.writes@[w].item@;
            if self.writes_view()[w].path@ == self.report_view()[i].path@ {
                assert(self.report_view()[i].path@ == self.items()[i].path@);
                assert(self.items()[j].path@ == self.items()[i].path@);
                assert(j != i);
            }
        }
    }

    /// Every replacement the run performed encrypts, for exactly the
    /// recipients the plan declares for that path, the plaintext that was
    /// recovered from that secret's old ciphertext; and that secret is
    /// reported `Rekeyed`.
    pub proof fn lemma_write_follows_plan(self, w: int)
        requires
            self.inv(),
            0 <= w < self.writes_view().len(),
        ensures
            exists|i: int| 0 <= i < self.report_view().len()
                && (#[trigger] self.items()[i]).path@ == self.writes_view()[w].path@
                && self.items()[i].is_reencrypt()
                && self.writes_view()[w].recipients@ == self.items()[i].recipients_spec()
                && self.report_view()[i].outcome is Rekeyed,
    {
        assert(self.write_entry_ok(w));
        let j = self.writes@[w].item@;
        assert(0 <= j < self.report_view().len()
            && (#[trigger] self.items()[j]).path@ == self.writes_view()[w].path@
            && self.items()[j].is_reencrypt()
            && self.writes_view()[w].recipients@ == self.items()[j].recipients_spec()
            && self.report_view()[j].outcome is Rekeyed);
    }

    /// When the run's plan is the one the rules and the listing determine,
    /// every replacement was encrypted for exactly the recipients the rules
    /// declare for that path: a secret is only ever encrypted for its
    /// declared audience.
    pub proof fn lemma_write_recipients_match_rules(
        self,
        rules: crate::rules::RecipientRules,
        listing: Seq<Seq<char>>,
        w: int,
    )
        requires
            self.inv(),
            crate::plan::plan_matches(self.plan_spec(), rules, listing),
            0 <= w < self.writes_view().len(),
        ensures
            rules.declares(self.writes_view()[w].path@),
            self.writes_view()[w].recipients@
                == rules.recipients_for(self.writes_view()[w].path@),
    {
        assert(self.write_entry_ok(w));
        let i = self.writes@[w].item@;
        assert(self.report@[i].outcome is Rekeyed);
        assert(self.items()[i].is_reencrypt());
        assert(self.items()[i].path@ == listing[i]);
        assert(rules.declares(listing[i]));
        assert(self.items()[i].recipients_spec() == rules.recipients_for(listing[i]));
    }

    /// A finished run has reported every planned secret, in plan order:
    /// there is no silent partial failure, and a secret is reported orphaned
    /// exactly when no rule covers it.
    pub proof fn lemma_complete_report(self)
        requires
            self.inv(),
            self.is_finished(),
        ensures
            self.report_view().len() == self.items().len(),
            forall|i: int| 0 <= i < self.items().len()
                ==> (#[trigger] self.report_view()[i]).path@ == self.items()[i].path@,
            forall|i: int| 0 <= i < self.items().len()
                ==> ((#[trigger] self.report_view()[i]).outcome is Orphaned
                    <==> !self.items()[i].is_reencrypt()),
    {
    }
}

/// The store contents after performing a run's replacements, in order.
pub open spec fn apply_writes(
    store: Map<Seq<char>, Seq<u8>>,
    writes: Seq<WriteRecord>,
) -> Map<Seq<char>, Seq<u8>>
    decreases writes.len(),
{
    if writes.len() == 0 {
        store
    } else {
        apply_writes(store, writes.drop_last()).insert(
            writes.last().path@,
            writes.last().ciphertext@,
        )
    }
}

proof fn lemma_apply_writes_dom(store: Map<Seq<char>, Seq<u8>>, writes: Seq<WriteRecord>)
    requires
        forall|w: int| 0 <= w < writes.len() ==> store.dom().contains((#[trigger] writes[w]).path@),
    ensures
        apply_writes(store, writes).dom() =~= store.dom(),
    decreases writes.len(),
{
    if writes.len() > 0 {
        lemma_apply_writes_dom(store, writes.drop_last());
        assert(store.dom().contains(writes.last().path@));
    }
}

/// Rekeying never creates or removes a secret: when every planned path names
/// a secret the store already holds, the store after the run's replacements
/// holds exactly the same set of secrets. A second pass over unchanged rules
/// therefore sees the same listing and — by `lemma_plan_deterministic` —
/// forms a plan with the same contents.
pub proof fn lemma_rekey_preserves_secret_set(run: RekeyRun, store: Map<Seq<char>, Seq<u8>>)
    requires
        run.inv(),
        forall|i: int| 0 <= i < run.items().len()
            ==> store.dom().contains((#[trigger] run.items()[i]).path@),
    ensures
        apply_writes(store, run.writes_view()).dom() =~= store.dom(),
{
    assert forall|w: int| 0 <= w < run.writes_view().len()
        implies store.dom().contains((#[trigger] run.writes_view()[w]).path@) by {
        run.lemma_write_follows_plan(w);
        let j = choose|j: int| 0 <= j < run.report_view().len()
            && (#[trigger] run.items()[j]).path@ == run.writes_view()[w].path@
            && run.items()[j].is_reencrypt()
            && run.writes_view()[w].recipients@ == run.items()[j].recipients_spec()
            && run.report_view()[j].outcome is Rekeyed;
        assert(store.dom().contains(run.items()[j].path@));
    }
    lemma_apply_writes_dom(store, run.writes_view());
}

} // verus!
