//! One interactive edit of one secret, driven as a state machine. The
//! surrounding binary obtains the plaintext (decrypting the existing secret,
//! or starting empty when the file does not exist yet), runs the external
//! editor, encrypts, and atomically replaces the file — each step only when
//! the session asks for it. The generate flow reuses the same session: the
//! script's output is handed in where the editor's result would be.
//!
//! The contracts pin down when the file may be rewritten: only when the
//! editor succeeded, its result differs byte-for-byte from the original
//! plaintext, and the rules declare at least one recipient for the path. In
//! every other case the session ends without ever asking for a write, so the
//! original encrypted file's bytes stay untouched.

use vstd::prelude::*;
use crate::bytes::bytes_eq;
use crate::rules::RecipientRules;

verus! {

/// How the plaintext for the session was obtained.
pub enum PlaintextSource {
    /// The secret does not exist yet: the session starts from an empty
    /// buffer, supporting the create-new-secret flow.
    Missing,
    /// The existing secret decrypted to these bytes.
    Decrypted(Vec<u8>),
    /// No provided identity could decrypt the existing secret.
    DecryptFailed,
}

/// The final state of an edit session.
#[derive(Clone, Copy, PartialEq, Eq, Structural, Debug)]
pub enum EditOutcome {
    /// The edited plaintext was encrypted and atomically replaced the file.
    Saved,
    /// The editor left the plaintext byte-identical: nothing was rewritten.
    Unchanged,
    /// The editor collaborator failed: nothing was rewritten.
    EditorFailed,
    /// No provided identity could decrypt the secret: nothing was rewritten.
    NoUsableIdentity,
    /// The rules declare no recipients for this path: nothing was rewritten.
    NoRecipients,
    /// The encryption collaborator failed: nothing was rewritten.
    EncryptFailed,
    /// The atomic replacement failed; the old or the new ciphertext is in
    /// place, never a truncated mixture.
    ReplaceFailed,
}

enum EditStage {
    AwaitPlaintext,
    AwaitEditor { original: Vec<u8> },
    AwaitEncrypt { edited: Vec<u8> },
    AwaitWrite { ciphertext: Vec<u8> },
    Done { outcome: EditOutcome },
}

/// The operation the session asks the surrounding binary to perform next.
pub enum EditPending<'a> {
    /// Read and decrypt the secret at `path` (or report it missing); answer
    /// with `give_plaintext`.
    GetPlaintext { path: &'a String },
    /// Run the external editor on a transient copy of `original` (or run the
    /// generate script); answer with `give_edited`.
    RunEditor { original: &'a Vec<u8> },
    /// Encrypt `plaintext` for `recipients`; answer with `give_encrypt`.
    Encrypt { plaintext: &'a Vec<u8>, recipients: &'a Vec<String> },
    /// Atomically replace the secret at `path` with `ciphertext`; answer
    /// with `give_write`.
    Write { path: &'a String, ciphertext: &'a Vec<u8> },
    /// The session is over with this outcome.
    Finished { outcome: EditOutcome },
}

/// An edit of one secret against one rules snapshot.
pub struct EditSession {
    path: String,
    recipients: Option<Vec<String>>,
    stage: EditStage,
}

impl EditSession {
    /// The path of the secret being edited.
    pub closed spec fn path_view(self) -> Seq<char> {
        self.path@
    }

    /// The recipients resolved for the path when the session began.
    pub closed spec fn recipients_view(self) -> Option<Seq<Seq<char>>> {
        match self.recipients {
            Some(v) => Some(v.deep_view()),
            None => None,
        }
    }

    pub closed spec fn awaiting_plaintext(self) -> bool {
        self.stage is AwaitPlaintext
    }

    pub closed spec fn awaiting_editor(self) -> bool {
        self.stage is AwaitEditor
    }

    pub closed spec fn awaiting_encrypt(self) -> bool {
        self.stage is AwaitEncrypt
    }

    pub closed spec fn awaiting_write(self) -> bool {
        self.stage is AwaitWrite
    }

    pub closed spec fn is_done(self) -> bool {
        self.stage is Done
    }

    /// The session's outcome (meaningful only when `is_done()`).
    pub closed spec fn outcome_spec(self) -> EditOutcome {
        match self.stage {
            EditStage::Done { outcome } => outcome,
            _ => EditOutcome::EditorFailed,
        }
    }

    /// The plaintext the editor started from.
    pub closed spec fn original_view(self) -> Seq<u8> {
        match self.stage {
            EditStage::AwaitEditor { original } => original@,
            _ => Seq::empty(),
        }
    }

    /// The edited plaintext waiting to be encrypted.
    pub closed spec fn edited_view(self) -> Seq<u8> {
        match self.stage {
            EditStage::AwaitEncrypt { edited } => edited@,
            _ => Seq::empty(),
        }
    }

    /// The fresh ciphertext waiting to replace the file.
    pub closed spec fn ciphertext_view(self) -> Seq<u8> {
        match self.stage {
            EditStage::AwaitWrite { ciphertext } => ciphertext@,
            _ => Seq::empty(),
        }
    }

    /// Sessions only reach the encryption and write steps with declared,
    /// non-empty recipients.
    pub closed spec fn inv(self) -> bool {
        &&& (self.recipients matches Some(v) ==> v@.len() > 0)
        &&& (self.awaiting_encrypt() || self.awaiting_write() ==> self.recipients is Some)
    }

    /// Opens a session for `path`, resolving its recipients from the rules
    /// as they stand at this moment.
    pub fn begin(rules: &RecipientRules, path: String) -> (s: Self)
        requires
            rules.wf(),
        ensures
            s.inv(),
            s.path_view() == path@,
            s.awaiting_plaintext(),
            rules.declares(path@) ==> s.recipients_view() == Some(rules.recipients_for(path@)),
            !rules.declares(path@) ==> s.recipients_view() is None,
    {
        let recipients = rules.lookup(&path);
        EditSession { path, recipients, stage: EditStage::AwaitPlaintext }
    }

    /// What the binary must do next.
    pub fn pending(&self) -> (p: EditPending<'_>)
        requires
            self.inv(),
        ensures
            match p {
                EditPending::GetPlaintext { path } => self.awaiting_plaintext()
                    && path@ == self.path_view(),
                EditPending::RunEditor { original } => self.awaiting_editor()
                    && original@ == self.original_view(),
                EditPending::Encrypt { plaintext, recipients } => self.awaiting_encrypt()
                    && plaintext@ == self.edited_view()
                    && Some(recipients.deep_view()) == self.recipients_view()
                    && recipients@.len() > 0,
                EditPending::Write { path, ciphertext } => self.awaiting_write()
                    && path@ == self.path_view()
                    && ciphertext@ == self.ciphertext_view(),
                EditPending::Finished { outcome } => self.is_done()
                    && outcome == self.outcome_spec(),
            },
    {
        match &self.stage {
            EditStage::AwaitPlaintext => EditPending::GetPlaintext { path: &self.path },
            EditStage::AwaitEditor { original } => EditPending::RunEditor { original },
            EditStage::AwaitEncrypt { edited } => {
                match &self.recipients {
                    Some(recipients) => EditPending::Encrypt { plaintext: edited, recipients },
                    None => EditPending::Finished { outcome: EditOutcome::NoRecipients },
                }
            },
            EditStage::AwaitWrite { ciphertext } => EditPending::Write {
                path: &self.path,
                ciphertext,
            },
            EditStage::Done { outcome } => EditPending::Finished { outcome: *outcome },
        }
    }

    /// Hands in the plaintext: from a successful decryption, from nothing
    /// (the secret does not exist yet, so editing starts from an empty
    /// buffer), or the news that decryption failed, which ends the session
    /// with nothing rewritten.
    pub fn give_plaintext(&mut self, src: PlaintextSource)
        requires
            old(self).inv(),
            old(self).awaiting_plaintext(),
        ensures
            final(self).inv(),
            final(self).path_view() == old(self).path_view(),
            final(self).recipients_view() == old(self).recipients_view(),
            match src {
                PlaintextSource::Missing => final(self).awaiting_editor()
                    && final(self).original_view() == Seq::<u8>::empty(),
                PlaintextSource::Decrypted(pt) => final(self).awaiting_editor()
                    && final(self).original_view() == pt@,
                PlaintextSource::DecryptFailed => final(self).is_done()
                    && final(self).outcome_spec() == EditOutcome::NoUsableIdentity,
            },
    {
        match src {
            PlaintextSource::Missing => {
                let original: Vec<u8> = Vec::new();
                self.stage = EditStage::AwaitEditor { original };
            },
            PlaintextSource::Decrypted(original) => {
                self.stage = EditStage::AwaitEditor { original };
            },
            PlaintextSource::DecryptFailed => {
                self.stage = EditStage::Done { outcome: EditOutcome::NoUsableIdentity };
            },
        }
    }

    /// Hands in the editor's (or generate script's) result. The session asks
    /// to re-encrypt only when the editor succeeded, its result differs from
    /// the original plaintext, and recipients are declared for the path; on
    /// editor failure, on byte-identical plaintext, and on undeclared
    /// recipients it ends at once, so the file is never rewritten.
    pub fn give_edited(&mut self, r: Option<Vec<u8>>)
        requires
            old(self).inv(),
            old(self).awaiting_editor(),
        ensures
            final(self).inv(),
            final(self).path_view() == old(self).path_view(),
            final(self).recipients_view() == old(self).recipients_view(),
            match r {
                Some(edited) => {
                    if edited@ == old(self).original_view() {
                        final(self).is_done()
                            && final(self).outcome_spec() == EditOutcome::Unchanged
                    } else if old(self).recipients_view() is None {
                        final(self).is_done()
                            && final(self).outcome_spec() == EditOutcome::NoRecipients
                    } else {
                        final(self).awaiting_encrypt() && final(self).edited_view() == edited@
                    }
                },
                None => final(self).is_done()
                    && final(self).outcome_spec() == EditOutcome::EditorFailed,
            },
    {
        match r {
            Some(edited) => {
                let unchanged = match &self.stage {
                    EditStage::AwaitEditor { original } => bytes_eq(&edited, original),
                    _ => false,
                };
                if unchanged {
                    self.stage = EditStage::Done { outcome: EditOutcome::Unchanged };
                } else if self.recipients.is_none() {
                    self.stage = EditStage::Done { outcome: EditOutcome::NoRecipients };
                } else {
                    self.stage = EditStage::AwaitEncrypt { edited };
                }
            },
            None => {
                self.stage = EditStage::Done { outcome: EditOutcome::EditorFailed };
            },
        }
    }

    /// Hands in the encryption result. Failure ends the session with nothing
    /// rewritten.
    pub fn give_encrypt(&mut self, r: Option<Vec<u8>>)
        requires
            old(self).inv(),
            old(self).awaiting_encrypt(),
        ensures
            final(self).inv(),
            final(self).path_view() == old(self).path_view(),
            final(self).recipients_view() == old(self).recipients_view(),
            match r {
                Some(ct) => final(self).awaiting_write()
                    && final(self).ciphertext_view() == ct@,
                None => final(self).is_done()
                    && final(self).outcome_spec() == EditOutcome::EncryptFailed,
            },
    {
        match r {
            Some(ciphertext) => {
                self.stage = EditStage::AwaitWrite { ciphertext };
            },
            None => {
                self.stage = EditStage::Done { outcome: EditOutcome::EncryptFailed };
            },
        }
    }

    /// Hands in whether the atomic replacement succeeded.
    pub fn give_write(&mut self, ok: bool)
        requires
            old(self).inv(),
            old(self).awaiting_write(),
        ensures
            final(self).inv(),
            final(self).path_view() == old(self).path_view(),
            final(self).recipients_view() == old(self).recipients_view(),
            final(self).is_done(),
            final(self).outcome_spec() == if ok {
                EditOutcome::Saved
            } else {
                EditOutcome::ReplaceFailed
            },
    {
        let outcome = if ok { EditOutcome::Saved } else { EditOutcome::ReplaceFailed };
        self.stage = EditStage::Done { outcome };
    }

    /// The outcome, once the session is over.
    pub fn outcome(&self) -> (r: Option<EditOutcome>)
        ensures
            match r {
                Some(o) => self.is_done() && o == self.outcome_spec(),
                None => !self.is_done(),
            },
    {
        match &self.stage {
            EditStage::Done { outcome } => Some(*outcome),
            _ => None,
        }
    }
}

} // verus!
