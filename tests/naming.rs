use std::collections::HashSet;

use weave::decimal::decimal_string;
use weave::naming::{NamingConvention, SimpleNaming};
use weave::probe::{CreateOutcome, ProbeState};

/// Runs a temp-file search against a directory whose files are `existing`,
/// with nobody else creating files meanwhile; returns the final state and, on
/// success, the path created (which is added to `existing`).
fn search(naming: &SimpleNaming, existing: &mut HashSet<String>) -> (ProbeState, Option<String>) {
    let mut state = ProbeState::start();
    let mut attempts: Vec<u64> = Vec::new();
    loop {
        match state {
            ProbeState::Probing(n) => {
                attempts.push(n);
                let name = naming.temp_name(n);
                let outcome = if existing.contains(&name) {
                    CreateOutcome::AlreadyExists
                } else {
                    existing.insert(name.clone());
                    CreateOutcome::Created
                };
                state = state.step(outcome);
                if let ProbeState::Success(k) = state {
                    assert_eq!(attempts, (0..=k).collect::<Vec<u64>>());
                    return (state, Some(name));
                }
            }
            _ => return (state, None),
        }
    }
}

#[test]
fn layout_uncompressed() {
    let n = SimpleNaming::new("", "db", "dat", false);
    assert_eq!(n.main_file(), "db.dat");
    assert_eq!(n.backup_file(), "db.bak");
    assert_eq!(n.temp_name(0), "db.0");
    assert_eq!(n.temp_name(1), "db.1");
}

#[test]
fn layout_compressed() {
    let n = SimpleNaming::new("", "db", "dat", true);
    assert_eq!(n.main_file(), "db.dat.gz");
    assert_eq!(n.backup_file(), "db.bak.gz");
    assert_eq!(n.temp_name(0), "db.0.gz");
}

#[test]
fn end_to_end_store_scenario() {
    let n = SimpleNaming::new("/data", "store", "idx", true);
    assert_eq!(n.main_file(), "/data/store.idx.gz");
    assert_eq!(n.backup_file(), "/data/store.bak.gz");
    let mut dir = HashSet::new();
    let (state, path) = search(&n, &mut dir);
    assert_eq!(state, ProbeState::Success(0));
    assert_eq!(path.as_deref(), Some("/data/store.0.gz"));
    assert!(dir.contains("/data/store.0.gz"));
}

#[test]
fn repeated_calls_agree() {
    let n = SimpleNaming::new("/var/lib/x", "set", "weave", false);
    assert_eq!(n.main_file(), n.main_file());
    assert_eq!(n.backup_file(), n.backup_file());
    let m = SimpleNaming::new("/var/lib/x", "set", "weave", false);
    assert_eq!(n.main_file(), m.main_file());
    assert_eq!(n.backup_file(), m.backup_file());
    assert_eq!(n.temp_name(42), m.temp_name(42));
}

#[test]
fn compression_adds_only_suffix() {
    let plain = SimpleNaming::new("/d", "b", "e", false);
    let packed = SimpleNaming::new("/d", "b", "e", true);
    assert_eq!(packed.main_file(), format!("{}.gz", plain.main_file()));
    assert_eq!(packed.backup_file(), format!("{}.gz", plain.backup_file()));
    for k in [0u64, 9, 10, 12345] {
        assert_eq!(packed.temp_name(k), format!("{}.gz", plain.temp_name(k)));
    }
}

#[test]
fn joins_like_a_path() {
    assert_eq!(SimpleNaming::new("/d/", "b", "e", false).main_file(), "/d/b.e");
    assert_eq!(SimpleNaming::new("d", "b", "e", false).main_file(), "d/b.e");
    assert_eq!(SimpleNaming::new("/", "b", "e", false).main_file(), "/b.e");
    assert_eq!(SimpleNaming::new("/d", "/b", "e", false).main_file(), "/b.e");
}

#[test]
fn make_name_takes_any_token() {
    let n = SimpleNaming::new("/d", "base", "x", true);
    assert_eq!(n.make_name("tmp"), "/d/base.tmp.gz");
    assert_eq!(n.make_name(""), "/d/base..gz");
}

#[test]
fn counter_in_decimal() {
    assert_eq!(decimal_string(0), "0");
    assert_eq!(decimal_string(7), "7");
    assert_eq!(decimal_string(10), "10");
    assert_eq!(decimal_string(120), "120");
    assert_eq!(decimal_string(u64::MAX), u64::MAX.to_string());
    let n = SimpleNaming::new("/d", "b", "e", false);
    assert_eq!(n.temp_name(305), "/d/b.305");
}

#[test]
fn empty_directory_gives_first_number() {
    let n = SimpleNaming::new("/d", "base", "e", false);
    let mut dir = HashSet::new();
    let (state, path) = search(&n, &mut dir);
    assert_eq!(state, ProbeState::Success(0));
    assert_eq!(path.as_deref(), Some("/d/base.0"));
}

#[test]
fn fills_first_gap() {
    let n = SimpleNaming::new("/d", "base", "e", false);
    let mut dir: HashSet<String> = ["/d/base.0", "/d/base.1"].iter().map(|s| s.to_string()).collect();
    let (state, path) = search(&n, &mut dir);
    assert_eq!(state, ProbeState::Success(2));
    assert_eq!(path.as_deref(), Some("/d/base.2"));

    let mut gap: HashSet<String> = ["/d/base.0", "/d/base.2", "/d/base.bak", "/d/base.e"]
        .iter()
        .map(|s| s.to_string())
        .collect();
    let (state, path) = search(&n, &mut gap);
    assert_eq!(state, ProbeState::Success(1));
    assert_eq!(path.as_deref(), Some("/d/base.1"));
}

#[test]
fn never_returns_existing_path() {
    let n = SimpleNaming::new("/d", "b", "e", true);
    let before: HashSet<String> = (0u64..30)
        .filter(|k| k % 7 != 3)
        .map(|k| n.temp_name(k))
        .collect();
    let mut dir = before.clone();
    let (state, path) = search(&n, &mut dir);
    assert_eq!(state, ProbeState::Success(3));
    let path = path.unwrap();
    assert!(!before.contains(&path));
    assert_eq!(path, "/d/b.3.gz");
}

#[test]
fn successive_searches_increase() {
    let n = SimpleNaming::new("/d", "b", "e", false);
    let mut dir: HashSet<String> = HashSet::new();
    dir.insert("/d/b.1".to_string());
    let mut got = Vec::new();
    for _ in 0..5 {
        let (state, path) = search(&n, &mut dir);
        match state {
            ProbeState::Success(k) => got.push((k, path.unwrap())),
            other => panic!("search ended in {:?}", other),
        }
    }
    let numbers: Vec<u64> = got.iter().map(|g| g.0).collect();
    assert_eq!(numbers, vec![0, 2, 3, 4, 5]);
    let paths: HashSet<&String> = got.iter().map(|g| &g.1).collect();
    assert_eq!(paths.len(), 5);
}

#[test]
fn other_error_ends_search_at_once() {
    let s = ProbeState::start();
    assert_eq!(s, ProbeState::Probing(0));
    let s = s.step(CreateOutcome::OtherError);
    assert_eq!(s, ProbeState::Failed);
    for o in [CreateOutcome::Created, CreateOutcome::AlreadyExists, CreateOutcome::OtherError] {
        assert_eq!(s.step(o), ProbeState::Failed);
    }
}

#[test]
fn collision_moves_to_next_number() {
    assert_eq!(ProbeState::Probing(4).step(CreateOutcome::AlreadyExists), ProbeState::Probing(5));
    assert_eq!(ProbeState::Probing(4).step(CreateOutcome::Created), ProbeState::Success(4));
    assert_eq!(ProbeState::Success(4).step(CreateOutcome::AlreadyExists), ProbeState::Success(4));
}

#[test]
fn counter_exhaustion_ends_search() {
    assert_eq!(
        ProbeState::Probing(u64::MAX).step(CreateOutcome::AlreadyExists),
        ProbeState::Exhausted
    );
    assert_eq!(ProbeState::Exhausted.step(CreateOutcome::Created), ProbeState::Exhausted);
}
