use agenix_core::{
    EditOutcome, EditPending, EditSession, PlaintextSource, RuleEntry, bytes_eq, resolve,
};

fn entry(path: &str, recipients: &[&str]) -> RuleEntry {
    RuleEntry {
        path: path.to_string(),
        recipients: recipients.iter().map(|r| r.to_string()).collect(),
    }
}

#[test]
fn editor_failure_leaves_file_untouched() {
    let rules = resolve(vec![entry("secrets/a.age", &["keyA"])]).unwrap();
    let mut s = EditSession::begin(&rules, "secrets/a.age".to_string());
    s.give_plaintext(PlaintextSource::Decrypted(b"before".to_vec()));
    s.give_edited(None);
    assert_eq!(s.outcome(), Some(EditOutcome::EditorFailed));
    assert!(matches!(s.pending(), EditPending::Finished { .. }));
}

#[test]
fn unchanged_plaintext_skips_rewrite() {
    let rules = resolve(vec![entry("secrets/a.age", &["keyA"])]).unwrap();
    let mut s = EditSession::begin(&rules, "secrets/a.age".to_string());
    s.give_plaintext(PlaintextSource::Decrypted(b"same".to_vec()));
    s.give_edited(Some(b"same".to_vec()));
    assert_eq!(s.outcome(), Some(EditOutcome::Unchanged));
    assert!(matches!(s.pending(), EditPending::Finished { .. }));
}

#[test]
fn changed_plaintext_is_reencrypted_for_declared_recipients() {
    let rules = resolve(vec![entry("secrets/a.age", &["keyA", "keyB"])]).unwrap();
    let mut s = EditSession::begin(&rules, "secrets/a.age".to_string());
    s.give_plaintext(PlaintextSource::Decrypted(b"old".to_vec()));
    s.give_edited(Some(b"new".to_vec()));
    match s.pending() {
        EditPending::Encrypt { plaintext, recipients } => {
            assert_eq!(plaintext, &b"new".to_vec());
            assert_eq!(recipients.len(), 2);
            assert_eq!(recipients[0], "keyA");
            assert_eq!(recipients[1], "keyB");
        }
        _ => panic!("a changed plaintext must be re-encrypted"),
    }
    s.give_encrypt(Some(b"fresh ciphertext".to_vec()));
    match s.pending() {
        EditPending::Write { path, ciphertext } => {
            assert_eq!(path, "secrets/a.age");
            assert_eq!(ciphertext, &b"fresh ciphertext".to_vec());
        }
        _ => panic!("a fresh ciphertext must be written"),
    }
    s.give_write(true);
    assert_eq!(s.outcome(), Some(EditOutcome::Saved));
}

#[test]
fn missing_secret_starts_from_empty_buffer() {
    let rules = resolve(vec![entry("secrets/new.age", &["keyA"])]).unwrap();
    let mut s = EditSession::begin(&rules, "secrets/new.age".to_string());
    s.give_plaintext(PlaintextSource::Missing);
    match s.pending() {
        EditPending::RunEditor { original } => assert!(original.is_empty()),
        _ => panic!("a missing secret still opens the editor"),
    }
    s.give_edited(Some(b"first contents".to_vec()));
    assert!(matches!(s.pending(), EditPending::Encrypt { .. }));
}

#[test]
fn undeclared_path_fails_with_no_recipients_only_at_reencryption() {
    let rules = resolve(vec![entry("secrets/other.age", &["keyA"])]).unwrap();
    let mut s = EditSession::begin(&rules, "secrets/undeclared.age".to_string());
    s.give_plaintext(PlaintextSource::Decrypted(b"old".to_vec()));
    // An unchanged buffer still ends as Unchanged, not NoRecipients.
    s.give_edited(Some(b"old".to_vec()));
    assert_eq!(s.outcome(), Some(EditOutcome::Unchanged));

    let mut s = EditSession::begin(&rules, "secrets/undeclared.age".to_string());
    s.give_plaintext(PlaintextSource::Decrypted(b"old".to_vec()));
    s.give_edited(Some(b"new".to_vec()));
    assert_eq!(s.outcome(), Some(EditOutcome::NoRecipients));
}

#[test]
fn decrypt_failure_aborts_the_session() {
    let rules = resolve(vec![entry("secrets/a.age", &["keyA"])]).unwrap();
    let mut s = EditSession::begin(&rules, "secrets/a.age".to_string());
    s.give_plaintext(PlaintextSource::DecryptFailed);
    assert_eq!(s.outcome(), Some(EditOutcome::NoUsableIdentity));
}

#[test]
fn encrypt_failure_ends_without_write() {
    let rules = resolve(vec![entry("secrets/a.age", &["keyA"])]).unwrap();
    let mut s = EditSession::begin(&rules, "secrets/a.age".to_string());
    s.give_plaintext(PlaintextSource::Decrypted(b"old".to_vec()));
    s.give_edited(Some(b"new".to_vec()));
    s.give_encrypt(None);
    assert_eq!(s.outcome(), Some(EditOutcome::EncryptFailed));
}

#[test]
fn replace_failure_is_reported_to_the_user() {
    let rules = resolve(vec![entry("secrets/a.age", &["keyA"])]).unwrap();
    let mut s = EditSession::begin(&rules, "secrets/a.age".to_string());
    s.give_plaintext(PlaintextSource::Decrypted(b"old".to_vec()));
    s.give_edited(Some(b"new".to_vec()));
    s.give_encrypt(Some(b"ct".to_vec()));
    s.give_write(false);
    assert_eq!(s.outcome(), Some(EditOutcome::ReplaceFailed));
}

#[test]
fn bytes_eq_compares_contents() {
    assert!(bytes_eq(&b"abc".to_vec(), &b"abc".to_vec()));
    assert!(!bytes_eq(&b"abc".to_vec(), &b"abd".to_vec()));
    assert!(!bytes_eq(&b"abc".to_vec(), &b"ab".to_vec()));
    assert!(bytes_eq(&Vec::new(), &Vec::new()));
}
