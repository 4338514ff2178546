use tree_sitter_grammars::{
    add_language_grammar_to_toml, build_outcome, compare_keys, destination_directory, parse_revision,
    registry_document, select_jobs, wasm_target, Batch, BuildFailure, BuildReport, BuildStatus,
    Language, Registry, SelectError, StepReport, SyncAction, SyncFailure, SyncPhase, SyncStatus,
    Synchronizer, REGISTRY_HEADER,
};

fn lang(name: &str, git: &str, hash: Option<&str>) -> Language {
    Language::new(name.to_string(), git.to_string(), hash.map(|h| h.to_string()))
}

fn same_entries(a: &Registry, b: &Registry) -> bool {
    a.entries.len() == b.entries.len()
        && a.entries.iter().zip(b.entries.iter()).all(|(x, y)| {
            x.0 == y.0 && x.1.name == y.1.name && x.1.git == y.1.git && x.1.hash == y.1.hash
        })
}

fn foo_registry() -> Registry {
    let mut r = Registry::new();
    r.upsert(
        "foo".to_string(),
        lang("foo", "https://example.test/foo.git", Some("abc123")),
    );
    r
}

fn abc123_bytes() -> Vec<u8> {
    let mut b = vec![0xab, 0xc1, 0x23];
    b.resize(20, 0);
    b
}

#[test]
fn new_language_keeps_fields() {
    let l = lang("tree-sitter-rust", "https://example.test/rust.git", None);
    assert_eq!(l.name, "tree-sitter-rust");
    assert_eq!(l.git, "https://example.test/rust.git");
    assert_eq!(l.hash, None);
}

#[test]
fn adding_twice_equals_adding_once() {
    let mut once = Registry::new();
    once.upsert("zig".to_string(), lang("tree-sitter-zig", "u", None));
    let mut twice = Registry::new();
    twice.upsert("zig".to_string(), lang("tree-sitter-zig", "u", None));
    let e = lang("tree-sitter-rust", "https://example.test/rust.git", Some("abc"));
    add_language_grammar_to_toml(&mut once, "rust".to_string(), e.clone());
    add_language_grammar_to_toml(&mut twice, "rust".to_string(), e.clone());
    add_language_grammar_to_toml(&mut twice, "rust".to_string(), e);
    assert!(same_entries(&once, &twice));
    assert_eq!(twice.entries.len(), 2);
}

#[test]
fn adding_existing_key_updates_source_and_pin_only() {
    let mut r = Registry::new();
    r.upsert("rust".to_string(), lang("tree-sitter-rust", "old", Some("aa")));
    r.upsert("rust".to_string(), lang("other-name", "new", None));
    assert_eq!(r.entries.len(), 1);
    assert_eq!(r.entries[0].0, "rust");
    assert_eq!(r.entries[0].1.name, "tree-sitter-rust");
    assert_eq!(r.entries[0].1.git, "new");
    assert_eq!(r.entries[0].1.hash, None);
}

#[test]
fn registry_document_starts_with_header() {
    let d = registry_document("[languages]\n");
    assert_eq!(
        d,
        "# Automatically generated, DO NOT EDIT! Use `tree-sitter-grammars add` to modify.\n\n[languages]\n"
    );
    assert!(d.starts_with(REGISTRY_HEADER));
}

#[test]
fn revision_parsing() {
    assert_eq!(parse_revision("abc123"), Some(abc123_bytes()));
    assert_eq!(parse_revision("ABC123"), Some(abc123_bytes()));
    let full = "0123456789abcdef0123456789abcdef01234567";
    let b = parse_revision(full).unwrap();
    assert_eq!(b.len(), 20);
    assert_eq!(b[0], 0x01);
    assert_eq!(b[19], 0x67);
    assert_eq!(parse_revision(""), None);
    assert_eq!(parse_revision("xyz"), None);
    assert_eq!(parse_revision(&"a".repeat(41)), None);
}

#[test]
fn paths_are_joined() {
    assert_eq!(destination_directory("./grammars/", "tree-sitter-rust"), "./grammars/tree-sitter-rust");
    assert_eq!(wasm_target("tree-sitter-rust"), "../../wasm/tree-sitter-rust.wasm");
}

#[test]
fn fetch_all_pins_and_strips() {
    let reg = foo_registry();
    let jobs = match select_jobs(&reg, None, true, "./grammars/") {
        Ok(v) => v,
        Err(_) => panic!("selection failed"),
    };
    assert_eq!(jobs.len(), 1);
    assert_eq!(jobs[0].key, "foo");
    assert_eq!(jobs[0].directory, "./grammars/foo");
    let mut batch = Batch::new(jobs);
    let (mut m, a) = Synchronizer::new(batch.jobs[0].language.clone(), batch.jobs[0].directory.clone());
    assert!(matches!(a, SyncAction::RemoveDirectory(ref d) if d == "./grammars/foo"));
    let a = m.step(StepReport::Missing("not found".to_string()));
    assert!(matches!(a, SyncAction::Clone { ref url, .. } if url == "https://example.test/foo.git"));
    let a = m.step(StepReport::Done);
    match a {
        SyncAction::DetachHead { directory, revision } => {
            assert_eq!(directory, "./grammars/foo");
            assert_eq!(revision, abc123_bytes());
        }
        _ => panic!("expected the head to be detached"),
    }
    let a = m.step(StepReport::Done);
    assert!(matches!(a, SyncAction::RemoveMetadata(ref p) if p == "./grammars/foo/.git"));
    let a = m.step(StepReport::Done);
    assert!(m.is_finished());
    match a {
        SyncAction::Report(o) => {
            assert_eq!(o.name, "foo");
            assert!(o.status.is_success());
            batch.record(0, o);
        }
        _ => panic!("expected a report"),
    }
    assert!(batch.is_complete());
    assert!(batch.build_jobs(false).is_empty());
}

#[test]
fn fetch_missing_name_is_not_found() {
    let reg = foo_registry();
    match select_jobs(&reg, Some("bar".to_string()), false, "./grammars/") {
        Err(SelectError::NotFound(n)) => assert_eq!(n, "bar"),
        _ => panic!("expected not found"),
    }
    assert!(matches!(select_jobs(&reg, None, false, "g/"), Err(SelectError::NoSelection)));
    match select_jobs(&reg, Some("foo".to_string()), false, "g/") {
        Ok(v) => assert_eq!(v.len(), 1),
        Err(_) => panic!("expected foo"),
    }
}

#[test]
fn bad_pin_fails_the_entry() {
    let (mut m, _) = Synchronizer::new(lang("x", "u", Some("not-a-commit")), "d".to_string());
    m.step(StepReport::Done);
    match m.step(StepReport::Done) {
        SyncAction::Report(o) => {
            assert!(matches!(o.status, SyncStatus::Failed(SyncFailure::UnresolvedRevision(ref h)) if h == "not-a-commit"))
        }
        _ => panic!("expected a failure"),
    }
    assert!(m.phase == SyncPhase::Finished);
}

#[test]
fn each_step_failure_is_reported() {
    let fail = || StepReport::Failed("boom".to_string());
    let (mut m, _) = Synchronizer::new(lang("x", "u", None), "d".to_string());
    assert!(matches!(m.step(fail()), SyncAction::Report(ref o) if matches!(o.status, SyncStatus::Failed(SyncFailure::Clear(_)))));
    let (mut m, _) = Synchronizer::new(lang("x", "u", None), "d".to_string());
    m.step(StepReport::Done);
    assert!(matches!(m.step(fail()), SyncAction::Report(ref o) if matches!(o.status, SyncStatus::Failed(SyncFailure::Clone(_)))));
    let (mut m, _) = Synchronizer::new(lang("x", "u", Some("ab")), "d".to_string());
    m.step(StepReport::Done);
    m.step(StepReport::Done);
    assert!(matches!(m.step(fail()), SyncAction::Report(ref o) if matches!(o.status, SyncStatus::Failed(SyncFailure::Pin(_)))));
    let (mut m, _) = Synchronizer::new(lang("x", "u", None), "d".to_string());
    m.step(StepReport::Done);
    assert!(matches!(m.step(StepReport::Done), SyncAction::RemoveMetadata(_)));
    assert!(matches!(m.step(StepReport::Missing("gone".to_string())), SyncAction::Report(ref o) if matches!(o.status, SyncStatus::Failed(SyncFailure::Strip(_)))));
}

#[test]
fn failures_are_isolated_and_gate_builds() {
    let mut reg = Registry::new();
    for n in ["a", "b", "c"] {
        reg.upsert(n.to_string(), lang(n, "u", None));
    }
    let jobs = match select_jobs(&reg, None, true, "r/") {
        Ok(v) => v,
        Err(_) => panic!("selection failed"),
    };
    let mut batch = Batch::new(jobs);
    let mut outcomes = Vec::new();
    for (i, fails) in [(0usize, true), (1, false), (2, false)] {
        let (mut m, _) = Synchronizer::new(batch.jobs[i].language.clone(), batch.jobs[i].directory.clone());
        let mut report = if fails { StepReport::Failed("unreachable".to_string()) } else { StepReport::Done };
        loop {
            match m.step(report) {
                SyncAction::Report(o) => {
                    outcomes.push((i, o));
                    break;
                }
                _ => report = StepReport::Done,
            }
        }
    }
    outcomes.reverse();
    assert!(!batch.is_complete());
    for (i, o) in outcomes {
        batch.record(i, o);
    }
    assert!(batch.is_complete());
    assert!(!batch.outcomes[0].as_ref().unwrap().status.is_success());
    assert_eq!(batch.outcomes[1].as_ref().unwrap().name, "b");
    assert!(batch.outcomes[2].as_ref().unwrap().status.is_success());
    let builds = batch.build_jobs(true);
    assert_eq!(builds.len(), 2);
    assert_eq!(builds[0].index, 1);
    assert_eq!(builds[0].directory, "r/b");
    assert_eq!(builds[0].target, "../../wasm/b.wasm");
    assert_eq!(builds[1].index, 2);
}

#[test]
fn build_status_follows_exit_code() {
    let ok = build_outcome("a".to_string(), BuildReport::Exited(Some(0)));
    assert_eq!(ok.name, "a");
    assert!(matches!(ok.status, BuildStatus::Success));
    let bad = build_outcome("a".to_string(), BuildReport::Exited(Some(2)));
    assert!(matches!(bad.status, BuildStatus::Failed(BuildFailure::ExitStatus(Some(2)))));
    let killed = build_outcome("a".to_string(), BuildReport::Exited(None));
    assert!(matches!(killed.status, BuildStatus::Failed(BuildFailure::ExitStatus(None))));
    let absent = build_outcome("a".to_string(), BuildReport::LaunchFailed("no tool".to_string()));
    assert!(matches!(absent.status, BuildStatus::Failed(BuildFailure::Launch(ref e)) if e == "no tool"));
}

#[test]
fn registry_is_ordered_by_key() {
    let mut r = Registry::new();
    for k in ["rust", "c", "zig", "cpp", "c"] {
        r.upsert(k.to_string(), lang(k, "u", None));
    }
    let keys: Vec<&str> = r.entries.iter().map(|e| e.0.as_str()).collect();
    assert_eq!(keys, vec!["c", "cpp", "rust", "zig"]);
}

#[test]
fn keys_compare_like_str() {
    for (a, b) in [("a", "b"), ("ab", "a"), ("", ""), ("rust", "rust"), ("Z", "a"), ("\u{e9}", "z")] {
        assert_eq!(compare_keys(a, b), a.cmp(b));
    }
    assert_eq!(compare_keys("c", "cpp"), std::cmp::Ordering::Less);
}

#[test]
fn artifact_named_after_selected_key() {
    let mut reg = Registry::new();
    reg.upsert("rust".to_string(), lang("tree-sitter-rust", "u", None));
    for (name, all, target) in [
        (Some("rust".to_string()), false, "../../wasm/rust.wasm"),
        (None, true, "../../wasm/tree-sitter-rust.wasm"),
    ] {
        let jobs = match select_jobs(&reg, name, all, "g/") {
            Ok(v) => v,
            Err(_) => panic!("selection failed"),
        };
        assert_eq!(jobs[0].directory, "g/tree-sitter-rust");
        let mut batch = Batch::new(jobs);
        let (mut m, _) = Synchronizer::new(batch.jobs[0].language.clone(), batch.jobs[0].directory.clone());
        let mut report = StepReport::Done;
        let outcome = loop {
            match m.step(report) {
                SyncAction::Report(o) => break o,
                _ => report = StepReport::Done,
            }
        };
        batch.record(0, outcome);
        let builds = batch.build_jobs(true);
        assert_eq!(builds.len(), 1);
        assert_eq!(builds[0].target, target);
    }
}
