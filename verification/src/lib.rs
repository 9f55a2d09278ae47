//! Core engine for a directory of age-encrypted secrets: resolving which
//! recipient public keys each secret is declared for, planning and driving a
//! safe rekey pass across many files, and deciding the outcome of an
//! interactive edit session.
//!
//! Everything here works on plain values. The collaborators that the engine
//! drives — the encryption primitive, the external editor, and the
//! filesystem — are run by the surrounding binary, which performs each
//! operation the engine asks for and hands the result back as an event.

mod bytes;
mod rules;
mod plan;
mod rekey;
mod edit;
mod cli;

pub use bytes::bytes_eq;
pub use rules::{
    RecipientRules, RuleEntry, RulesError, dedup_keys, dedup_seq, duplicate_path, lemma_dedup_seq,
    no_repeats, resolve, schema_violation,
};
pub use plan::{
    PlanAction, PlanItem, RekeyPlan, build_plan, lemma_plan_deterministic, missing_targets,
    plan_matches,
};
pub use rekey::{
    Pending, RekeyRun, SecretOutcome, SecretReport, WriteRecord, apply_writes,
    lemma_rekey_preserves_secret_set,
};
pub use edit::{EditOutcome, EditPending, EditSession, PlaintextSource};
pub use cli::{Action, CliError, Opts, select_action};
