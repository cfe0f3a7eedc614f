use caliber::deps::{sync_state_name, working_tree_name};
use caliber::checkout::{
    fetch_failure, find_dependency, managed_verdict, override_verdict, pin_source, plan_sync,
    set_locked_revision, status_entry, CheckoutProbe, FetchFailure, ManagedVerdict,
    OverrideVerdict, PinProblem,
};
use caliber::cli::{option_path, parse_command, parse_overrides, positional, CliCommand, USAGE};
use caliber::deps::{
    validate_lock, validate_name, validate_revision, Dependency, LockFile, SyncState,
};
use caliber::repository::{normalize_repository, same_repository};
use std::path::PathBuf;

const REV_A: &str = "0123456789abcdef0123456789abcdef01234567";
const REV_B: &str = "89abcdef0123456789abcdef0123456789abcdef";

fn args(items: &[&str]) -> Vec<String> {
    items.iter().map(|s| s.to_string()).collect()
}

fn dependency(repository: &str, ref_name: Option<&str>, revision: &str) -> Dependency {
    Dependency {
        repository: repository.to_string(),
        tracked_ref: ref_name.map(str::to_string),
        revision: revision.to_string(),
    }
}

fn lock() -> LockFile {
    LockFile {
        schema: 1,
        dependencies: vec![
            (
                "alicorn".to_string(),
                dependency("https://github.com/example/alicorn.git", Some("main"), REV_A),
            ),
            ("sample".to_string(), dependency("https://example.com/sample", None, REV_B)),
        ],
    }
}

#[test]
fn names_are_letters_digits_dash_and_underscore() {
    assert!(validate_name("alicorn").is_ok());
    assert!(validate_name("a_b-1").is_ok());
    assert!(validate_name("").is_err());
    assert!(validate_name("bad name").is_err());
    assert!(validate_name("../escape").is_err());
    assert!(validate_name("caf\u{e9}").is_err());
}

#[test]
fn revisions_are_full_object_ids() {
    assert!(validate_revision(REV_A).is_ok());
    assert!(validate_revision(&"A".repeat(64)).is_ok());
    assert!(validate_revision(&REV_A[..39]).is_err());
    assert!(validate_revision(&"g".repeat(40)).is_err());
    assert!(validate_revision("main").is_err());
}

#[test]
fn lock_validation_reports_each_malformed_entry() {
    assert!(validate_lock(&lock()).is_ok());
    let mut wrong_schema = lock();
    wrong_schema.schema = 2;
    assert!(validate_lock(&wrong_schema).unwrap_err().message().contains("schema 2"));
    let empty = LockFile { schema: 1, dependencies: Vec::new() };
    assert_eq!(
        validate_lock(&empty).unwrap_err().message(),
        "malformed lock: no dependencies are defined"
    );
    let mut bad_name = lock();
    bad_name.dependencies[0].0 = "bad name".to_string();
    assert!(validate_lock(&bad_name).unwrap_err().message().starts_with("malformed lock: invalid"));
    let mut blank_repository = lock();
    blank_repository.dependencies[1].1.repository = "  ".to_string();
    assert_eq!(
        validate_lock(&blank_repository).unwrap_err().message(),
        "malformed lock: sample has no Git repository"
    );
    let mut short_revision = lock();
    short_revision.dependencies[1].1.revision = "abc".to_string();
    assert!(validate_lock(&short_revision).is_err());
    let mut blank_ref = lock();
    blank_ref.dependencies[0].1.tracked_ref = Some(" \t".to_string());
    assert_eq!(
        validate_lock(&blank_ref).unwrap_err().message(),
        "malformed lock: alicorn has an empty tracked ref"
    );
}

#[test]
fn repository_addresses_are_compared_in_normal_form() {
    assert_eq!(
        normalize_repository(" git@github.com:Example/Alicorn.git "),
        "https://github.com/example/alicorn"
    );
    assert_eq!(
        normalize_repository("ssh://git@Host.example/Team/Repo/"),
        "https://host.example/team/repo"
    );
    assert_eq!(normalize_repository("/srv/Repos/Alicorn.git//"), "/srv/Repos/Alicorn");
    assert_eq!(normalize_repository("git@local"), "git@local");
    assert!(same_repository(
        "https://github.com/example/alicorn.git",
        "git@github.com:Example/alicorn"
    ));
    assert!(same_repository("ssh://git@github.com/a/b", "https://github.com/a/b/"));
    assert!(!same_repository("/srv/Repo", "/srv/repo"));
    assert!(!same_repository("https://github.com/a/b", "https://github.com/a/c"));
}

#[test]
fn positional_arguments_skip_options_and_their_values() {
    let a = args(&["--project-root", "dir", "alicorn", "--override", "x=y", "../co"]);
    assert_eq!(positional(&a, 0, "dependency name").unwrap(), "alicorn");
    assert_eq!(positional(&a, 1, "local checkout").unwrap(), "../co");
    let missing = positional(&a, 2, "third").unwrap_err();
    assert!(missing.message().starts_with("missing third\n"));
    assert!(missing.message().ends_with(USAGE));
    let unknown = args(&["alicorn", "--bogus"]);
    assert_eq!(positional(&unknown, 0, "name").unwrap_err().message(), "unknown option --bogus");
    let dirty = args(&["--allow-dirty-overrides", "alicorn"]);
    assert_eq!(positional(&dirty, 0, "name").unwrap(), "alicorn");
    let trailing = args(&["alicorn", "--project-root"]);
    assert_eq!(positional(&trailing, 0, "name").unwrap(), "alicorn");
}

#[test]
fn option_paths_take_the_last_value() {
    let a = args(&["--library", "a.so", "x", "--library", "b.so"]);
    assert_eq!(option_path(&a, "--library").unwrap(), Some("b.so".to_string()));
    assert_eq!(option_path(&args(&["x"]), "--library").unwrap(), None);
    assert_eq!(
        option_path(&args(&["--library"]), "--library").unwrap_err().message(),
        "--library requires a path"
    );
}

#[test]
fn overrides_are_parsed_in_order_and_checked() {
    let a = args(&["--override", "alicorn=../a=b", "--allow-dirty-overrides", "--override", "s=p"]);
    let (overrides, allow) = parse_overrides(&a).unwrap();
    assert_eq!(
        overrides,
        vec![
            ("alicorn".to_string(), "../a=b".to_string()),
            ("s".to_string(), "p".to_string()),
        ]
    );
    assert!(allow);
    let (none, allow) = parse_overrides(&args(&["--project-root", "x"])).unwrap();
    assert!(none.is_empty());
    assert!(!allow);
    assert_eq!(
        parse_overrides(&args(&["--override"])).unwrap_err().message(),
        "--override requires NAME=PATH"
    );
    assert_eq!(
        parse_overrides(&args(&["--override", "nopath"])).unwrap_err().message(),
        "--override requires NAME=PATH"
    );
    assert_eq!(
        parse_overrides(&args(&["--override", "a="])).unwrap_err().message(),
        "--override path cannot be empty"
    );
    assert!(parse_overrides(&args(&["--override", "bad name=x"])).is_err());
    assert_eq!(
        parse_overrides(&args(&["--override", "a=1", "--override", "a=2"]))
            .unwrap_err()
            .message(),
        "duplicate override for a"
    );
}

#[test]
fn commands_are_parsed_with_their_arguments() {
    assert!(matches!(parse_command("help", &[]), Ok(CliCommand::Help)));
    assert!(matches!(parse_command("--help", &[]), Ok(CliCommand::Help)));
    assert!(matches!(parse_command("status", &[]), Ok(CliCommand::Status)));
    match parse_command("doctor", &args(&["--library", "lib.so"])) {
        Ok(CliCommand::Doctor { library }) => assert_eq!(library, Some("lib.so".to_string())),
        other => panic!("unexpected {other:?}"),
    }
    assert!(matches!(parse_command("check", &[]), Ok(CliCommand::Check { library: None })));
    match parse_command("sync", &args(&["--override", "a=b"])) {
        Ok(CliCommand::Sync { overrides, allow_dirty }) => {
            assert_eq!(overrides, vec![("a".to_string(), "b".to_string())]);
            assert!(!allow_dirty);
        }
        other => panic!("unexpected {other:?}"),
    }
    match parse_command("pin", &args(&["alicorn", "../a"])) {
        Ok(CliCommand::Pin { name, checkout }) => {
            assert_eq!(name, "alicorn");
            assert_eq!(checkout, "../a");
        }
        other => panic!("unexpected {other:?}"),
    }
    match parse_command("update", &args(&["alicorn"])) {
        Ok(CliCommand::Update { name }) => assert_eq!(name, "alicorn"),
        other => panic!("unexpected {other:?}"),
    }
    assert!(parse_command("pin", &args(&["alicorn"])).is_err());
    assert!(parse_command("update", &[]).is_err());
    let unknown = parse_command("frobnicate", &[]).unwrap_err();
    assert!(unknown.message().starts_with("unknown command \"frobnicate\"\n"));
}

#[test]
fn status_distinguishes_missing_mismatched_dirty_and_synchronized() {
    let d = dependency("https://github.com/example/alicorn.git", None, REV_A);
    let path = PathBuf::from(".deps/alicorn");
    let missing = status_entry("alicorn".into(), &d, path.clone(), CheckoutProbe::Absent).unwrap();
    assert_eq!(missing.state, SyncState::Missing);
    assert_eq!(missing.detail.as_deref(), Some("checkout is not materialized"));
    assert_eq!(missing.revision, REV_A);
    assert_eq!(missing.path, path);
    let not_git =
        status_entry("alicorn".into(), &d, path.clone(), CheckoutProbe::NotACheckout).unwrap();
    assert_eq!(not_git.state, SyncState::Mismatched);
    assert_eq!(not_git.detail.as_deref(), Some("managed path is not a Git checkout"));
    let elsewhere =
        status_entry("alicorn".into(), &d, path.clone(), CheckoutProbe::Elsewhere).unwrap();
    assert_eq!(
        elsewhere.detail.as_deref(),
        Some("checkout resolves outside its managed dependency path")
    );
    assert!(status_entry("alicorn".into(), &d, path.clone(), CheckoutProbe::GitMissing).is_err());

    let inspected = |head: &str, status: &str, origin: &str| {
        status_entry(
            "alicorn".into(),
            &d,
            path.clone(),
            CheckoutProbe::Inspected {
                head_output: Some(head.to_string()),
                status_output: Some(status.to_string()),
                origin_output: Some(origin.to_string()),
            },
        )
        .unwrap()
    };
    let head_line = format!("{REV_A}\n");
    let synced = inspected(&head_line, "\n", "git@github.com:example/alicorn.git\n");
    assert_eq!(synced.state, SyncState::Synchronized);
    assert_eq!(synced.head.as_deref(), Some(REV_A));
    assert_eq!(synced.dirty, Some(false));
    assert_eq!(synced.detail, None);
    let dirty = inspected(&head_line, " M file\n", "https://github.com/example/alicorn");
    assert_eq!(dirty.state, SyncState::Mismatched);
    assert_eq!(dirty.dirty, Some(true));
    assert_eq!(
        dirty.detail.as_deref(),
        Some("working tree is dirty or could not be inspected")
    );
    let moved = inspected(REV_B, "", "https://github.com/example/alicorn");
    assert_eq!(moved.detail.as_deref(), Some("HEAD differs from the locked revision"));
    let foreign = inspected(REV_A, "", "https://github.com/other/alicorn");
    assert_eq!(foreign.detail.as_deref(), Some("repository origin differs from the lock"));
    let unknown = status_entry(
        "alicorn".into(),
        &d,
        path,
        CheckoutProbe::Inspected { head_output: None, status_output: None, origin_output: None },
    )
    .unwrap();
    assert_eq!(unknown.head, None);
    assert_eq!(unknown.dirty, None);
    assert_eq!(unknown.state, SyncState::Mismatched);
}

#[test]
fn overrides_must_match_unless_dirty_overrides_are_allowed() {
    let d = dependency("https://github.com/example/alicorn.git", None, REV_A);
    let origin = "git@github.com:example/alicorn.git\n";
    assert_eq!(override_verdict(&d, origin, REV_A, "", false), OverrideVerdict::Clean);
    assert_eq!(
        override_verdict(&d, "https://elsewhere/x", REV_A, "", false),
        OverrideVerdict::RepositoryMismatch
    );
    assert_eq!(override_verdict(&d, origin, REV_B, "", false), OverrideVerdict::RevisionMismatch);
    assert_eq!(override_verdict(&d, origin, REV_A, "?? new\n", false), OverrideVerdict::Dirty);
    assert_eq!(
        override_verdict(&d, "https://elsewhere/x", REV_B, "?? new\n", true),
        OverrideVerdict::DeveloperOwned { dirty: true, repository_matches: false }
    );
    assert_eq!(
        override_verdict(&d, origin, REV_A, "", true),
        OverrideVerdict::DeveloperOwned { dirty: false, repository_matches: true }
    );
}

#[test]
fn managed_checkouts_are_left_untouched_when_foreign_or_dirty() {
    let d = dependency("https://github.com/example/alicorn.git", None, REV_A);
    let origin = "https://github.com/example/alicorn\n";
    assert_eq!(managed_verdict(&d, "https://x/y", "", REV_A), ManagedVerdict::OriginMismatch);
    assert_eq!(managed_verdict(&d, origin, " M f\n", REV_A), ManagedVerdict::Dirty);
    assert_eq!(managed_verdict(&d, origin, "", &format!("{REV_A}\n")), ManagedVerdict::UpToDate);
    assert_eq!(managed_verdict(&d, origin, "", REV_B), ManagedVerdict::NeedsCheckout);
}

#[test]
fn pin_sources_must_be_clean_matching_and_full() {
    let d = dependency("https://github.com/example/alicorn.git", None, REV_A);
    let origin = "https://github.com/example/alicorn.git";
    assert_eq!(pin_source(&d, "", origin, &format!("{REV_B}\n")), Ok(REV_B.to_string()));
    assert_eq!(pin_source(&d, "?? x\n", origin, REV_B), Err(PinProblem::Dirty));
    assert_eq!(pin_source(&d, "", "https://x/y", REV_B), Err(PinProblem::RepositoryMismatch));
    assert_eq!(pin_source(&d, "", origin, "abc"), Err(PinProblem::InvalidRevision));
}

#[test]
fn failed_fetches_are_classified() {
    assert_eq!(fetch_failure(false, false), FetchFailure::CommitMissing);
    assert_eq!(fetch_failure(false, true), FetchFailure::CommitMissing);
    assert_eq!(fetch_failure(true, true), FetchFailure::CommitMissingReachable);
    assert_eq!(fetch_failure(true, false), FetchFailure::NetworkUnavailable);
}

#[test]
fn updating_a_revision_changes_only_that_entry() {
    let mut l = lock();
    assert_eq!(find_dependency(&l, "sample"), Some(1));
    assert_eq!(find_dependency(&l, "absent"), None);
    assert!(set_locked_revision(&mut l, "alicorn", REV_B.to_string()));
    assert_eq!(l.dependencies[0].1.revision, REV_B);
    assert_eq!(l.dependencies[0].1.tracked_ref.as_deref(), Some("main"));
    assert_eq!(l.dependencies[1].1.revision, REV_B);
    assert!(validate_lock(&l).is_ok());
    assert!(!set_locked_revision(&mut l, "absent", REV_A.to_string()));
    assert_eq!(l.dependencies[0].1.revision, REV_B);
}

#[test]
fn sync_plans_use_overrides_only_for_known_dependencies() {
    let l = lock();
    let overrides = vec![("sample".to_string(), "../sample".to_string())];
    let plan = plan_sync(&l, &overrides, false).unwrap();
    assert_eq!(plan.len(), 2);
    assert_eq!(plan[0].name, "alicorn");
    assert_eq!(plan[0].override_path, None);
    assert_eq!(plan[1].name, "sample");
    assert_eq!(plan[1].override_path.as_deref(), Some("../sample"));
    assert_eq!(plan[1].dependency.revision, REV_B);
    let unknown = vec![("ghost".to_string(), "../g".to_string())];
    assert_eq!(
        plan_sync(&l, &unknown, false).unwrap_err().message(),
        "override names unknown dependency \"ghost\""
    );
    assert_eq!(
        plan_sync(&l, &Vec::new(), true).unwrap_err().message(),
        "--allow-dirty-overrides requires at least one --override"
    );
    let mut invalid = lock();
    invalid.schema = 7;
    assert!(plan_sync(&invalid, &Vec::new(), false).is_err());
}

#[test]
fn report_words_name_states_and_trees() {
    assert_eq!(sync_state_name(SyncState::Synchronized), "synchronized");
    assert_eq!(sync_state_name(SyncState::Missing), "missing");
    assert_eq!(sync_state_name(SyncState::Mismatched), "mismatched");
    assert_eq!(working_tree_name(Some(true)), "dirty");
    assert_eq!(working_tree_name(Some(false)), "clean");
    assert_eq!(working_tree_name(None), "unknown");
}

#[test]
fn argument_errors_give_the_exact_message() {
    assert_eq!(
        positional(&args(&["--bogus"]), 0, "name").unwrap_err().message(),
        "unknown option --bogus"
    );
    assert_eq!(
        positional(&args(&[]), 0, "dependency name").unwrap_err().message(),
        format!("missing dependency name\n{USAGE}")
    );
    assert_eq!(
        parse_command("doctor", &args(&["--library"])).unwrap_err().message(),
        "--library requires a path"
    );
    assert_eq!(
        parse_overrides(&args(&["--override", "a=x", "--override", "a=y"])).unwrap_err().message(),
        "duplicate override for a"
    );
    assert_eq!(
        parse_overrides(&args(&["--override", "a="])).unwrap_err().message(),
        "--override path cannot be empty"
    );
    assert!(parse_overrides(&args(&["--override", "a b=x"]))
        .unwrap_err()
        .message()
        .starts_with("invalid dependency name "));
    assert_eq!(
        parse_command("frobnicate", &[]).unwrap_err().message(),
        format!("unknown command \"frobnicate\"\n{USAGE}")
    );
    assert_eq!(
        parse_command("pin", &args(&["alicorn"])).unwrap_err().message(),
        format!("missing local checkout\n{USAGE}")
    );
}

#[test]
fn unknown_overrides_are_reported_in_name_order() {
    let l = lock();
    let overrides = vec![
        ("zeta".to_string(), "../z".to_string()),
        ("sample".to_string(), "../s".to_string()),
        ("beta".to_string(), "../b".to_string()),
    ];
    assert_eq!(
        plan_sync(&l, &overrides, false).unwrap_err().message(),
        "override names unknown dependency \"beta\""
    );
}

#[test]
fn lock_names_must_be_unique_and_ascending() {
    let mut repeated = lock();
    repeated.dependencies[1].0 = "alicorn".to_string();
    assert_eq!(
        validate_lock(&repeated).unwrap_err().message(),
        "malformed lock: alicorn is repeated or out of name order"
    );
    let mut swapped = lock();
    swapped.dependencies.swap(0, 1);
    assert_eq!(
        validate_lock(&swapped).unwrap_err().message(),
        "malformed lock: alicorn is repeated or out of name order"
    );
}
