use agenix_core::{
    Pending, RekeyRun, RuleEntry, SecretOutcome, build_plan, resolve,
};

fn entry(path: &str, recipients: &[&str]) -> RuleEntry {
    RuleEntry {
        path: path.to_string(),
        recipients: recipients.iter().map(|r| r.to_string()).collect(),
    }
}

fn strings(v: &[&str]) -> Vec<String> {
    v.iter().map(|s| s.to_string()).collect()
}

// A toy, fully reversible stand-in for the encryption collaborator: the
// ciphertext is the recipient list in a header, then the plaintext.
fn toy_encrypt(plaintext: &[u8], recipients: &[String]) -> Vec<u8> {
    let mut out = format!("enc[{}]:", recipients.join(",")).into_bytes();
    out.extend_from_slice(plaintext);
    out
}

fn toy_decrypt(ciphertext: &[u8], identities: &[&str]) -> Option<Vec<u8>> {
    let text = String::from_utf8(ciphertext.to_vec()).ok()?;
    let rest = text.strip_prefix("enc[")?;
    let close = rest.find("]:")?;
    let recipients: Vec<&str> = rest[..close].split(',').collect();
    if identities.iter().any(|id| recipients.contains(id)) {
        Some(rest[close + 2..].as_bytes().to_vec())
    } else {
        None
    }
}

fn store_get<'a>(store: &'a [(String, Vec<u8>)], path: &str) -> &'a [u8] {
    &store.iter().find(|(p, _)| p == path).unwrap().1
}

fn store_put(store: &mut Vec<(String, Vec<u8>)>, path: &str, data: Vec<u8>) {
    for slot in store.iter_mut() {
        if slot.0 == path {
            slot.1 = data;
            return;
        }
    }
    panic!("a rekey run must never write a path the store does not hold");
}

enum Op {
    Decrypt(String),
    Encrypt(Vec<u8>, Vec<String>),
    Write(String, Vec<u8>),
}

// Drives a whole rekey pass the way the binary would, with the toy crypto.
fn run_rekey(
    store: &mut Vec<(String, Vec<u8>)>,
    raw_rules: Vec<RuleEntry>,
    identities: &[&str],
) -> RekeyRun {
    let rules = resolve(raw_rules).unwrap();
    let listing: Vec<String> = store.iter().map(|(p, _)| p.clone()).collect();
    let plan = build_plan(&rules, &listing);
    let mut run = RekeyRun::new(plan);
    loop {
        let op = match run.pending() {
            Pending::Decrypt { path } => Op::Decrypt(path.clone()),
            Pending::Encrypt { plaintext, recipients } => {
                Op::Encrypt(plaintext.clone(), recipients.clone())
            }
            Pending::Write { path, ciphertext } => Op::Write(path.clone(), ciphertext.clone()),
            Pending::Finished => break,
        };
        match op {
            Op::Decrypt(path) => {
                run.give_decrypt(toy_decrypt(store_get(store, &path), identities));
            }
            Op::Encrypt(plaintext, recipients) => {
                run.give_encrypt(Some(toy_encrypt(&plaintext, &recipients)));
            }
            Op::Write(path, ciphertext) => {
                store_put(store, &path, ciphertext);
                run.give_write(true);
            }
        }
    }
    run
}

#[test]
fn rekey_extends_recipient_set() {
    // Rules declare two recipients; the file is currently encrypted for the
    // first alone. After the run both identities must be able to decrypt,
    // and the content must be preserved byte for byte.
    let plaintext = b"db password: swordfish".to_vec();
    let mut store = vec![(
        "secrets/db.age".to_string(),
        toy_encrypt(&plaintext, &strings(&["keyA"])),
    )];
    let run = run_rekey(
        &mut store,
        vec![entry("secrets/db.age", &["keyA", "keyB"])],
        &["keyA"],
    );
    let report = run.report();
    assert_eq!(report.len(), 1);
    assert_eq!(report[0].path, "secrets/db.age");
    assert_eq!(report[0].outcome, SecretOutcome::Rekeyed);
    assert!(!run.any_failed());
    let on_disk = store_get(&store, "secrets/db.age");
    assert_eq!(toy_decrypt(on_disk, &["keyA"]).unwrap(), plaintext);
    assert_eq!(toy_decrypt(on_disk, &["keyB"]).unwrap(), plaintext);
}

#[test]
fn orphaned_secret_reported_and_untouched() {
    let original = toy_encrypt(b"abandoned", &strings(&["keyA"]));
    let mut store = vec![("secrets/orphan.age".to_string(), original.clone())];
    let run = run_rekey(&mut store, vec![entry("secrets/other.age", &["keyA"])], &["keyA"]);
    let report = run.report();
    assert_eq!(report.len(), 1);
    assert_eq!(report[0].path, "secrets/orphan.age");
    assert_eq!(report[0].outcome, SecretOutcome::Orphaned);
    assert!(!run.any_failed());
    assert_eq!(run.writes().len(), 0);
    assert_eq!(store_get(&store, "secrets/orphan.age"), &original[..]);
    assert_eq!(run.unreferenced(), &strings(&["secrets/other.age"]));
}

#[test]
fn unreadable_secret_left_untouched() {
    let original = toy_encrypt(b"locked", &strings(&["keyX"]));
    let mut store = vec![("secrets/locked.age".to_string(), original.clone())];
    let run = run_rekey(&mut store, vec![entry("secrets/locked.age", &["keyA"])], &["keyA"]);
    let report = run.report();
    assert_eq!(report.len(), 1);
    assert_eq!(report[0].outcome, SecretOutcome::NoUsableIdentity);
    assert!(run.any_failed());
    assert_eq!(run.writes().len(), 0);
    assert_eq!(store_get(&store, "secrets/locked.age"), &original[..]);
}

#[test]
fn one_failure_does_not_stop_the_batch() {
    let locked = toy_encrypt(b"locked", &strings(&["keyX"]));
    let open_plain = b"open sesame".to_vec();
    let mut store = vec![
        ("secrets/locked.age".to_string(), locked.clone()),
        ("secrets/open.age".to_string(), toy_encrypt(&open_plain, &strings(&["keyA"]))),
    ];
    let run = run_rekey(
        &mut store,
        vec![entry("secrets/locked.age", &["keyB"]), entry("secrets/open.age", &["keyA", "keyB"])],
        &["keyA"],
    );
    let report = run.report();
    assert_eq!(report.len(), 2);
    assert_eq!(report[0].outcome, SecretOutcome::NoUsableIdentity);
    assert_eq!(report[1].outcome, SecretOutcome::Rekeyed);
    assert!(run.any_failed());
    assert_eq!(store_get(&store, "secrets/locked.age"), &locked[..]);
    assert_eq!(toy_decrypt(store_get(&store, "secrets/open.age"), &["keyB"]).unwrap(), open_plain);
}

#[test]
fn encrypt_failure_is_isolated_and_writes_nothing() {
    let original = toy_encrypt(b"data", &strings(&["keyA"]));
    let mut store = vec![("secrets/a.age".to_string(), original.clone())];
    let rules = resolve(vec![entry("secrets/a.age", &["keyA"])]).unwrap();
    let listing: Vec<String> = store.iter().map(|(p, _)| p.clone()).collect();
    let mut run = RekeyRun::new(build_plan(&rules, &listing));
    let path = match run.pending() {
        Pending::Decrypt { path } => path.clone(),
        _ => panic!("a covered secret starts with a decrypt"),
    };
    run.give_decrypt(toy_decrypt(store_get(&store, &path), &["keyA"]));
    run.give_encrypt(None);
    assert!(run.finished());
    assert_eq!(run.report()[0].outcome, SecretOutcome::EncryptFailed);
    assert!(run.any_failed());
    assert_eq!(run.writes().len(), 0);
    assert_eq!(store_get(&store, "secrets/a.age"), &original[..]);
}

#[test]
fn replace_failure_is_reported() {
    let mut store = vec![(
        "secrets/a.age".to_string(),
        toy_encrypt(b"data", &strings(&["keyA"])),
    )];
    let rules = resolve(vec![entry("secrets/a.age", &["keyA"])]).unwrap();
    let listing: Vec<String> = store.iter().map(|(p, _)| p.clone()).collect();
    let mut run = RekeyRun::new(build_plan(&rules, &listing));
    let path = match run.pending() {
        Pending::Decrypt { path } => path.clone(),
        _ => panic!("a covered secret starts with a decrypt"),
    };
    run.give_decrypt(toy_decrypt(store_get(&store, &path), &["keyA"]));
    let (plaintext, recipients) = match run.pending() {
        Pending::Encrypt { plaintext, recipients } => (plaintext.clone(), recipients.clone()),
        _ => panic!("a decrypted secret moves on to encryption"),
    };
    run.give_encrypt(Some(toy_encrypt(&plaintext, &recipients)));
    run.give_write(false);
    assert!(run.finished());
    assert_eq!(run.report()[0].outcome, SecretOutcome::ReplaceFailed);
    assert!(run.any_failed());
    assert_eq!(run.writes().len(), 0);
}

#[test]
fn rekey_twice_forms_the_same_plan_and_preserves_content() {
    let plaintext = b"stable".to_vec();
    let mut store = vec![(
        "secrets/db.age".to_string(),
        toy_encrypt(&plaintext, &strings(&["keyA"])),
    )];
    let raw = || vec![entry("secrets/db.age", &["keyA", "keyB"])];

    let rules = resolve(raw()).unwrap();
    let listing_one: Vec<String> = store.iter().map(|(p, _)| p.clone()).collect();
    let plan_one = build_plan(&rules, &listing_one);

    let first = run_rekey(&mut store, raw(), &["keyA"]);
    assert!(!first.any_failed());

    // The run replaced contents but neither created nor removed a secret,
    // so the second pass sees the same listing and forms the same plan.
    let listing_two: Vec<String> = store.iter().map(|(p, _)| p.clone()).collect();
    assert_eq!(listing_one, listing_two);
    let plan_two = build_plan(&rules, &listing_two);
    assert_eq!(plan_one.items.len(), plan_two.items.len());
    for (a, b) in plan_one.items.iter().zip(plan_two.items.iter()) {
        assert_eq!(a.path, b.path);
        match (&a.action, &b.action) {
            (agenix_core::PlanAction::Reencrypt(x), agenix_core::PlanAction::Reencrypt(y)) => {
                assert_eq!(x, y)
            }
            (agenix_core::PlanAction::Orphaned, agenix_core::PlanAction::Orphaned) => {}
            _ => panic!("the two plans must agree on every action"),
        }
    }

    let second = run_rekey(&mut store, raw(), &["keyB"]);
    assert!(!second.any_failed());
    let on_disk = store_get(&store, "secrets/db.age");
    assert_eq!(toy_decrypt(on_disk, &["keyA"]).unwrap(), plaintext);
    assert_eq!(toy_decrypt(on_disk, &["keyB"]).unwrap(), plaintext);
}

#[test]
fn run_over_only_orphans_finishes_at_once() {
    let mut store = vec![
        ("secrets/x.age".to_string(), toy_encrypt(b"x", &strings(&["keyA"]))),
        ("secrets/y.age".to_string(), toy_encrypt(b"y", &strings(&["keyA"]))),
    ];
    let run = run_rekey(&mut store, vec![entry("secrets/other.age", &["keyA"])], &["keyA"]);
    assert!(run.finished());
    assert_eq!(run.report().len(), 2);
    assert_eq!(run.report()[0].outcome, SecretOutcome::Orphaned);
    assert_eq!(run.report()[1].outcome, SecretOutcome::Orphaned);
    assert_eq!(run.writes().len(), 0);
}

#[test]
fn fatal_rules_error_touches_no_files() {
    let original = toy_encrypt(b"data", &strings(&["keyA"]));
    let mut store = vec![("secrets/a.age".to_string(), original.clone())];
    // The rules source is malformed (the same path is declared twice): the
    // load fails, no plan is formed, and nothing on disk changes.
    let r = resolve(vec![entry("secrets/a.age", &["k"]), entry("secrets/a.age", &["k"])]);
    if let Ok(rules) = &r {
        let listing: Vec<String> = store.iter().map(|(p, _)| p.clone()).collect();
        let _ = build_plan(rules, &listing);
        panic!("a malformed rules source must abort before planning");
    }
    store.truncate(1);
    assert_eq!(store_get(&store, "secrets/a.age"), &original[..]);
}
