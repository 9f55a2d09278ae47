//! The already-parsed command line, and the choice of the one action a run
//! performs. Flag parsing itself lives in the outer binary; this module
//! receives the plain option values and decides — exactly one of edit,
//! rekey, generate or schema must be requested, and editing needs an editor.

use vstd::prelude::*;

verus! {

/// The command-line options, already parsed into plain values.
pub struct Opts {
    pub edit: Option<String>,
    pub editor: Option<String>,
    pub identities: Option<Vec<String>>,
    pub rekey: bool,
    pub generate: Option<String>,
    pub rules: String,
    pub schema: bool,
    pub verbose: bool,
}

impl Opts {
    /// How many of the four mutually exclusive actions are requested.
    pub open spec fn action_count(self) -> int {
        (if self.edit is Some { 1int } else { 0int })
            + (if self.rekey { 1int } else { 0int })
            + (if self.generate is Some { 1int } else { 0int })
            + (if self.schema { 1int } else { 0int })
    }
}

/// The one action a run performs.
pub enum Action {
    /// Edit the secret at `file` with `editor`.
    Edit { file: String, editor: String },
    /// Re-encrypt every secret covered by the rules.
    Rekey,
    /// (Re-)generate the secret at `file` from its generate script.
    Generate { file: String },
    /// Print the schema that rules files must conform to.
    Schema,
}

/// Why no action could be selected.
pub enum CliError {
    /// None of edit, rekey, generate, schema was requested.
    NoAction,
    /// More than one action was requested; they are mutually exclusive.
    MultipleActions,
    /// Edit was requested without an editor (flag or environment).
    EditorMissing,
}

/// Selects the single requested action: exactly one of edit, rekey,
/// generate and schema must be set, and edit also needs an editor.
pub fn select_action(opts: &Opts) -> (r: Result<Action, CliError>)
    ensures
        match r {
            Ok(a) => opts.action_count() == 1 && match a {
                Action::Edit { file, editor } => (opts.edit matches Some(f) && f@ == file@)
                    && (opts.editor matches Some(e) && e@ == editor@),
                Action::Rekey => opts.rekey,
                Action::Generate { file } => opts.generate matches Some(f) && f@ == file@,
                Action::Schema => opts.schema,
            },
            Err(CliError::NoAction) => opts.action_count() == 0,
            Err(CliError::MultipleActions) => opts.action_count() >= 2,
            Err(CliError::EditorMissing) => opts.action_count() == 1 && opts.edit is Some
                && opts.editor is None,
        },
{
    let mut count: u8 = 0;
    if opts.edit.is_some() {
        count += 1;
    }
    if opts.rekey {
        count += 1;
    }
    if opts.generate.is_some() {
        count += 1;
    }
    if opts.schema {
        count += 1;
    }
    if count == 0 {
        return Err(CliError::NoAction);
    }
    if count >= 2 {
        return Err(CliError::MultipleActions);
    }
    match &opts.edit {
        Some(file) => {
            return match &opts.editor {
                Some(editor) => Ok(Action::Edit { file: file.clone(), editor: editor.clone() }),
                None => Err(CliError::EditorMissing),
            };
        },
        None => {},
    }
    if opts.rekey {
        return Ok(Action::Rekey);
    }
    match &opts.generate {
        Some(file) => {
            return Ok(Action::Generate { file: file.clone() });
        },
        None => {},
    }
    Ok(Action::Schema)
}

} // verus!
