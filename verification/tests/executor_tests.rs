use unpack_rs::config::defaults;
use unpack_rs::executor::check_registry;
use unpack_rs::executor::file_name_of;
use unpack_rs::executor::success_line;
use unpack_rs::executor::unpack_start;
use unpack_rs::executor::unpack_step;
use unpack_rs::executor::UnpackEvent;
use unpack_rs::executor::UnpackState;
use unpack_rs::errors::UnpackError;
use unpack_rs::unpack_format::UnpackFormat;

fn names(list: &[&str]) -> Vec<String> {
    list.iter().map(|s| s.to_string()).collect()
}

#[test]
fn test_file_name_of() {
    assert_eq!(file_name_of("a/b/c.zip"), Some("c.zip".to_string()));
    assert_eq!(file_name_of("c.zip"), Some("c.zip".to_string()));
    assert_eq!(file_name_of("dir/"), Some("dir".to_string()));
    assert_eq!(file_name_of("/abs/path.tar"), Some("path.tar".to_string()));
    assert_eq!(file_name_of(""), None);
    assert_eq!(file_name_of("/"), None);
    assert_eq!(file_name_of("."), None);
    assert_eq!(file_name_of(".."), None);
    assert_eq!(file_name_of("a/.."), None);
}

#[test]
fn test_check_registry() {
    assert!(check_registry(&defaults()));
    let broken = vec![UnpackFormat { extension: ".zip".to_string(), invocation: vec![] }];
    assert!(!check_registry(&broken));
    let blank = vec![UnpackFormat { extension: "".to_string(), invocation: names(&["p"]) }];
    assert!(!check_registry(&blank));
}

#[test]
fn test_start_bad_path() {
    let formats = defaults();
    let r = unpack_start(&formats, "");
    assert!(matches!(r, Err(UnpackError::Arg(_))));
    let r = unpack_start(&formats, "/");
    assert!(matches!(r, Err(UnpackError::Arg(_))));
}

#[test]
fn test_start_bad_format() {
    let formats = defaults();
    let r = unpack_start(&formats, "document.pdf");
    assert!(matches!(r, Err(UnpackError::Format(_))));
    // A name equal to the bare extension has no non-empty basename.
    let r = unpack_start(&formats, ".zip");
    assert!(matches!(r, Err(UnpackError::Format(_))));
}

#[test]
fn test_start_builds_invocation() {
    let formats = defaults();
    let state = unpack_start(&formats, "some/dir/archive.tar").unwrap();
    match state {
        UnpackState::CreateStaging { program, args, archive_base } => {
            assert_eq!(program, "tar");
            assert_eq!(args, names(&["xf", "../some/dir/archive.tar"]));
            assert_eq!(archive_base, "archive");
        },
        _ => panic!("expected the staging-creation state"),
    }
}

#[test]
fn test_start_keeps_absolute_path() {
    let formats = defaults();
    let state = unpack_start(&formats, "/tmp/archive.tar.gz").unwrap();
    match state {
        UnpackState::CreateStaging { program, args, archive_base } => {
            assert_eq!(program, "tar");
            assert_eq!(args, names(&["xfz", "/tmp/archive.tar.gz"]));
            assert_eq!(archive_base, "archive");
        },
        _ => panic!("expected the staging-creation state"),
    }
}

#[test]
fn test_single_entry_collapse() {
    // The unpacker produced exactly one top-level entry `foo`: it is moved up
    // under its own name and the staging directory is removed.
    let formats = defaults();
    let mut state = unpack_start(&formats, "foo.tar.gz").unwrap();
    state = unpack_step(state, UnpackEvent::StagingCreated { name: ".unpack1".to_string() });
    state = unpack_step(state, UnpackEvent::ChildExited { ok: true, code: Some(0) });
    state = unpack_step(state, UnpackEvent::StagingEntries { entries: names(&["foo"]) });
    state = unpack_step(state, UnpackEvent::CwdEntries { entries: names(&["foo.tar.gz"]) });
    match &state {
        UnpackState::PlaceSingle { staging, entry, dest } => {
            assert_eq!(staging, ".unpack1");
            assert_eq!(entry, "foo");
            assert_eq!(dest, "foo");
        },
        _ => panic!("expected the single-entry placement state"),
    }
    state = unpack_step(state, UnpackEvent::Renamed);
    match &state {
        UnpackState::CleanupStaging { staging, dest } => {
            assert_eq!(staging, ".unpack1");
            assert_eq!(dest, "foo");
        },
        _ => panic!("expected the staging-removal state"),
    }
    state = unpack_step(state, UnpackEvent::StagingRemoved);
    assert!(matches!(state, UnpackState::Done { dest } if dest == "foo"));
}

#[test]
fn test_multi_entry_named_after_archive() {
    // Two top-level entries: the staging directory itself is renamed after
    // the archive's base name, keeping the entries together.
    let formats = defaults();
    let mut state = unpack_start(&formats, "foo.tar.gz").unwrap();
    state = unpack_step(state, UnpackEvent::StagingCreated { name: ".unpack1".to_string() });
    state = unpack_step(state, UnpackEvent::ChildExited { ok: true, code: Some(0) });
    state = unpack_step(state, UnpackEvent::StagingEntries { entries: names(&["a", "b"]) });
    state = unpack_step(state, UnpackEvent::CwdEntries { entries: names(&["foo.tar.gz"]) });
    match &state {
        UnpackState::PlaceAll { staging, dest } => {
            assert_eq!(staging, ".unpack1");
            assert_eq!(dest, "foo");
        },
        _ => panic!("expected the whole-staging placement state"),
    }
    state = unpack_step(state, UnpackEvent::Renamed);
    assert!(matches!(state, UnpackState::Done { dest } if dest == "foo"));
}

#[test]
fn test_zero_entries_named_after_archive() {
    let formats = defaults();
    let mut state = unpack_start(&formats, "foo.zip").unwrap();
    state = unpack_step(state, UnpackEvent::StagingCreated { name: ".unpack1".to_string() });
    state = unpack_step(state, UnpackEvent::ChildExited { ok: true, code: Some(0) });
    state = unpack_step(state, UnpackEvent::StagingEntries { entries: Vec::new() });
    state = unpack_step(state, UnpackEvent::CwdEntries { entries: Vec::new() });
    assert!(matches!(state, UnpackState::PlaceAll { dest, .. } if dest == "foo"));
}

#[test]
fn test_collision_avoided_with_suffix() {
    // `foo` already exists in the working directory: the result goes to
    // `foo_2` and the existing `foo` is never a rename target.
    let formats = defaults();
    let mut state = unpack_start(&formats, "foo.zip").unwrap();
    state = unpack_step(state, UnpackEvent::StagingCreated { name: ".unpack1".to_string() });
    state = unpack_step(state, UnpackEvent::ChildExited { ok: true, code: Some(0) });
    state = unpack_step(state, UnpackEvent::StagingEntries { entries: names(&["foo"]) });
    state = unpack_step(
        state,
        UnpackEvent::CwdEntries { entries: names(&["foo", "foo.zip"]) },
    );
    match &state {
        UnpackState::PlaceSingle { entry, dest, .. } => {
            assert_eq!(entry, "foo");
            assert_eq!(dest, "foo_2");
        },
        _ => panic!("expected the single-entry placement state"),
    }
}

#[test]
fn test_child_failure_is_terminal() {
    // tar exiting with status 2 fails the attempt, and no later event ever
    // reaches the staging-removal state: the partial output stays put.
    let formats = defaults();
    let mut state = unpack_start(&formats, "foo.tar").unwrap();
    state = unpack_step(state, UnpackEvent::StagingCreated { name: ".unpack1".to_string() });
    state = unpack_step(state, UnpackEvent::ChildExited { ok: false, code: Some(2) });
    assert!(matches!(
        &state,
        UnpackState::Failed { error: UnpackError::Child(Some(2)) }
    ));
    state = unpack_step(state, UnpackEvent::StagingRemoved);
    assert!(matches!(
        &state,
        UnpackState::Failed { error: UnpackError::Child(Some(2)) }
    ));
    state = unpack_step(state, UnpackEvent::Renamed);
    assert!(matches!(
        &state,
        UnpackState::Failed { error: UnpackError::Child(Some(2)) }
    ));
}

#[test]
fn test_io_failure_is_reported() {
    let formats = defaults();
    let state = unpack_start(&formats, "foo.tar").unwrap();
    let state = unpack_step(
        state,
        UnpackEvent::IoFailed { message: "permission denied".to_string() },
    );
    assert!(matches!(
        &state,
        UnpackState::Failed { error: UnpackError::Io(m) } if m == "permission denied"
    ));
}

#[test]
fn test_naming_exhaustion_not_triggered_by_free_name() {
    let formats = defaults();
    let mut state = unpack_start(&formats, "foo.zip").unwrap();
    state = unpack_step(state, UnpackEvent::StagingCreated { name: ".unpack1".to_string() });
    state = unpack_step(state, UnpackEvent::ChildExited { ok: true, code: Some(0) });
    state = unpack_step(state, UnpackEvent::StagingEntries { entries: names(&["out"]) });
    state = unpack_step(state, UnpackEvent::CwdEntries { entries: names(&["foo.zip"]) });
    assert!(matches!(state, UnpackState::PlaceSingle { dest, .. } if dest == "out"));
}

#[test]
fn test_end_to_end_single_payload() {
    // Registry = defaults; `archive.tar` extracts to a single top-level
    // `payload`; the attempt succeeds with destination `payload` and the
    // observable line is exact.
    let formats = defaults();
    let mut state = unpack_start(&formats, "archive.tar").unwrap();
    match &state {
        UnpackState::CreateStaging { program, args, archive_base } => {
            assert_eq!(program, "tar");
            assert_eq!(args, &names(&["xf", "../archive.tar"]));
            assert_eq!(archive_base, "archive");
        },
        _ => panic!("expected the staging-creation state"),
    }
    state = unpack_step(
        state,
        UnpackEvent::StagingCreated { name: ".unpack42".to_string() },
    );
    state = unpack_step(state, UnpackEvent::ChildExited { ok: true, code: Some(0) });
    state = unpack_step(state, UnpackEvent::StagingEntries { entries: names(&["payload"]) });
    state = unpack_step(state, UnpackEvent::CwdEntries { entries: names(&["archive.tar"]) });
    state = unpack_step(state, UnpackEvent::Renamed);
    state = unpack_step(state, UnpackEvent::StagingRemoved);
    match state {
        UnpackState::Done { dest } => {
            assert_eq!(dest, "payload");
            assert_eq!(success_line(&dest), "unpacked into \"payload\"");
        },
        _ => panic!("expected the finished state"),
    }
}

#[test]
fn test_success_line() {
    assert_eq!(success_line("payload"), "unpacked into \"payload\"");
    assert_eq!(success_line(""), "unpacked into \"\"");
}
