use caliber::deps::{StatusEntry, SyncState};
use caliber::abi::{CaliberContextConfig, CaliberStatus};
use caliber::context::CaliberContext;
use caliber::doctor::{
    check_api_header, check_requested_abi, expect_status, finish_report, missing_functions,
    platform_entry, required_function_name, tool_checks, ToolCheck, REQUIRED_FUNCTION_COUNT,
};
use caliber::gate::{WaitStep, WakeGate};
use caliber::hooks::{
    check_config_schema, expand_hook_argument, hook_invocation, ProjectConfig, ValidationHook,
};
use caliber::resource::ResourceRegistry;
use caliber::ResourceHandle;

fn strings(items: &[&str]) -> Vec<String> {
    items.iter().map(|s| s.to_string()).collect()
}

fn config(hook: ValidationHook) -> ProjectConfig {
    ProjectConfig {
        schema: 1,
        validation: vec![("alicorn".to_string(), hook)],
        diagnostics: None,
    }
}

#[test]
fn hook_arguments_have_placeholders_filled_in() {
    assert_eq!(
        expand_hook_argument("{candidate}/{revision}:{dependency}", "/tmp/c", "abc", "alicorn"),
        "/tmp/c/abc:alicorn"
    );
    assert_eq!(
        expand_hook_argument("{candidate}{candidate}", "x", "r", "d"),
        "xx"
    );
    assert_eq!(expand_hook_argument("{revision", "x", "r", "d"), "{revision");
    assert_eq!(expand_hook_argument("plain", "x", "r", "d"), "plain");
}

#[test]
fn hook_invocation_selects_the_platform_command() {
    let hook = ValidationHook {
        windows: Some(strings(&["pwsh", "-File", "{candidate}\\v.ps1"])),
        unix: Some(strings(&["sh", "tools/v.sh", "{revision}", "{dependency}"])),
        command: None,
    };
    let c = config(hook);
    let (program, args) = hook_invocation(&c, "alicorn", false, "/c", "r1").unwrap();
    assert_eq!(program, "sh");
    assert_eq!(args, strings(&["tools/v.sh", "r1", "alicorn"]));
    let (program, args) = hook_invocation(&c, "alicorn", true, "C:\\c", "r1").unwrap();
    assert_eq!(program, "pwsh");
    assert_eq!(args, strings(&["-File", "C:\\c\\v.ps1"]));

    let general = config(ValidationHook {
        windows: None,
        unix: None,
        command: Some(strings(&["git", "-C", "{candidate}", "show"])),
    });
    let (program, args) = hook_invocation(&general, "alicorn", false, "/cand", "r").unwrap();
    assert_eq!(program, "git");
    assert_eq!(args, strings(&["-C", "/cand", "show"]));
}

#[test]
fn hook_invocation_refuses_unusable_configurations() {
    let usable = || ValidationHook { windows: None, unix: None, command: Some(strings(&["true"])) };
    let mut wrong_schema = config(usable());
    wrong_schema.schema = 2;
    assert_eq!(
        hook_invocation(&wrong_schema, "alicorn", false, "c", "r").unwrap_err().message(),
        "malformed project config: unsupported schema 2"
    );
    assert!(hook_invocation(&config(usable()), "other", false, "c", "r")
        .unwrap_err()
        .message()
        .contains("has no validation command for other"));
    let none = config(ValidationHook { windows: Some(strings(&["x"])), unix: None, command: None });
    assert!(hook_invocation(&none, "alicorn", false, "c", "r")
        .unwrap_err()
        .message()
        .contains("has no command for this platform"));
    let empty = config(ValidationHook { windows: None, unix: Some(Vec::new()), command: None });
    assert!(hook_invocation(&empty, "alicorn", false, "c", "r").is_err());
    let blank =
        config(ValidationHook { windows: None, unix: Some(strings(&["  ", "x"])), command: None });
    assert_eq!(
        hook_invocation(&blank, "alicorn", false, "c", "r").unwrap_err().message(),
        "malformed validation hook for alicorn: command must not be empty"
    );
    assert!(check_config_schema(1).is_ok());
    assert!(check_config_schema(0).is_err());
}

#[test]
fn doctor_checks_each_distinct_tool_once_and_reports_blanks() {
    let checks = tool_checks(&strings(&["git", " ", "cmake"]), &strings(&["git", "ninja", ""]));
    let shown: Vec<Option<&str>> = checks
        .iter()
        .map(|c| match c {
            ToolCheck::Blank => None,
            ToolCheck::Lookup(t) => Some(t.as_str()),
        })
        .collect();
    assert_eq!(shown, vec![Some("git"), None, Some("cmake"), Some("ninja"), None]);
    assert!(tool_checks(&Vec::new(), &Vec::new()).is_empty());
}

#[test]
fn platform_entries_follow_the_host_name() {
    let (w, m, l) = (1, 2, 3);
    assert_eq!(platform_entry("windows", &w, &m, &l), Some(&1));
    assert_eq!(platform_entry("macos", &w, &m, &l), Some(&2));
    assert_eq!(platform_entry("linux", &w, &m, &l), Some(&3));
    assert_eq!(platform_entry("freebsd", &w, &m, &l), None);
}

#[test]
fn doctor_report_lists_every_failure() {
    assert_eq!(finish_report(Some("lib.so".to_string()), Vec::new()).unwrap(), "lib.so");
    assert_eq!(
        finish_report(None, Vec::new()).unwrap_err().message(),
        "Caliber library path was not resolved"
    );
    let error = finish_report(Some("x".to_string()), strings(&["first", "second"])).unwrap_err();
    assert_eq!(error.message(), "doctor found 2 issue(s):\n  - first\n  - second");
}

#[test]
fn abi_checks_compare_statuses_versions_and_extents() {
    assert!(expect_status("op", CaliberStatus::Success, CaliberStatus::Success).is_ok());
    assert_eq!(
        expect_status("wait", CaliberStatus::Unavailable, CaliberStatus::Stopped)
            .unwrap_err()
            .message(),
        "wait returned Unavailable, expected Stopped"
    );
    assert!(check_requested_abi(1).is_ok());
    assert!(check_requested_abi(2).is_err());
    assert!(check_api_header(1, 1, 136, 8, 136).is_ok());
    assert!(check_api_header(1, 1, 4, 8, 136).unwrap_err().message().contains("header is too small"));
    assert!(check_api_header(1, 2, 136, 8, 136).unwrap_err().message().contains("mismatch"));
    assert!(check_api_header(1, 1, 120, 8, 136).unwrap_err().message().contains("table is too small"));
}

#[test]
fn missing_functions_are_listed_in_table_order() {
    let mut present = vec![true; REQUIRED_FUNCTION_COUNT];
    assert!(missing_functions(&present).is_empty());
    present[13] = false;
    present[2] = false;
    let missing = missing_functions(&present);
    assert_eq!(missing, vec![2, 13]);
    assert_eq!(required_function_name(2), "context_dispatch");
    assert_eq!(required_function_name(13), "context_wait_wake");
    assert_eq!(required_function_name(14), "context_stop_wake_waiters");
}

#[test]
fn wake_waits_block_until_change_and_stop_is_permanent() {
    let mut gate = WakeGate::new();
    assert_eq!(gate.begin(5, 4), WaitStep::Ready(5));
    assert!(!gate.has_waiter());
    assert_eq!(gate.begin(5, 5), WaitStep::Block);
    assert!(gate.has_waiter());
    assert_eq!(gate.begin(5, 5), WaitStep::Busy);
    assert_eq!(gate.resume(5, 5), WaitStep::Block);
    assert_eq!(gate.resume(6, 5), WaitStep::Ready(6));
    assert!(!gate.has_waiter());
    assert_eq!(gate.begin(6, 6), WaitStep::Block);
    gate.stop();
    assert_eq!(gate.resume(7, 6), WaitStep::Stopped);
    assert!(!gate.has_waiter());
    gate.stop();
    assert!(gate.is_stopped());
    assert_eq!(gate.begin(8, 6), WaitStep::Stopped);
    assert_eq!(CaliberStatus::Stopped.code(), 11);
}

#[test]
fn retired_registry_handles_never_resolve_again() {
    let mut registry = ResourceRegistry::new(2, 16).unwrap();
    let first = registry.insert(b"one").unwrap();
    registry.release(first).unwrap();
    assert!(registry.get(first).is_err());
    let second = registry.insert(b"two").unwrap();
    assert_eq!(second.id, first.id);
    assert_ne!(second.generation, first.generation);
    assert!(registry.get(first).is_err());
    assert_eq!(registry.get(second).unwrap().bytes(), b"two");
    let third = registry.replace(second, b"three").unwrap();
    assert_eq!(third, ResourceHandle { id: second.id, generation: second.generation + 1 });
    assert!(registry.get(second).is_err());
    assert_eq!(registry.get(third).unwrap().bytes(), b"three");
}

#[test]
fn context_maps_published_bytes_and_refuses_released_pairs() {
    let mut context = CaliberContext::new(CaliberContextConfig::default()).unwrap();
    let (id, generation) = context.publish_resource(b"bulk").unwrap();
    assert_eq!(context.map_resource(id, generation).unwrap().bytes(), b"bulk");
    assert_eq!(context.release_resource(id, generation), CaliberStatus::Success);
    assert_eq!(context.map_resource(id, generation).unwrap_err(), CaliberStatus::Stale);
    let (again, next) = context.publish_resource(b"next").unwrap();
    assert_eq!(again, id);
    assert_eq!(next, generation + 1);
    assert_eq!(context.map_resource(id, generation).unwrap_err(), CaliberStatus::Stale);
    assert_eq!(context.map_resource(id, next).unwrap().bytes(), b"next");
    assert_eq!(context.map_resource(id + 7, 1).unwrap_err(), CaliberStatus::NotFound);
}

#[test]
fn linked_abi_table_contains_every_function_required_by_check() {
    let present = vec![true; REQUIRED_FUNCTION_COUNT];
    assert!(missing_functions(&present).is_empty());
    let names: Vec<&str> = (0..REQUIRED_FUNCTION_COUNT).map(required_function_name).collect();
    assert_eq!(names.first(), Some(&"context_create"));
    assert_eq!(names.len(), 15);
}

#[test]
fn doctor_counts_and_reports_unsynchronized_dependencies() {

    let entry = |name: &str, state: SyncState| StatusEntry {
        name: name.to_string(),
        revision: "r".to_string(),
        path: std::path::PathBuf::from(name),
        head: None,
        dirty: None,
        state,
        detail: None,
    };
    let entries = vec![
        entry("a", SyncState::Synchronized),
        entry("b", SyncState::Missing),
        entry("c", SyncState::Mismatched),
        entry("d", SyncState::Synchronized),
    ];
    assert_eq!(caliber::doctor::synchronized_count(&entries), 2);
    assert_eq!(
        caliber::doctor::unsynchronized_failures(&entries),
        vec![
            "dependency b is missing; run caliber sync after reviewing the managed checkout"
                .to_string(),
            "dependency c is mismatched; run caliber sync after reviewing the managed checkout"
                .to_string(),
        ]
    );
}

#[test]
fn abi_refusals_name_the_values_involved() {
    assert_eq!(
        check_requested_abi(2).unwrap_err().message(),
        "this Caliber CLI supports ABI version 1, not requested version 2"
    );
    assert_eq!(
        check_api_header(1, 1, 4, 8, 136).unwrap_err().message(),
        "ABI table header is too small: reported 4 bytes, required 8 bytes"
    );
    assert_eq!(
        check_api_header(1, 2, 136, 8, 136).unwrap_err().message(),
        "ABI version mismatch: requested 1, library reported 2"
    );
    assert_eq!(
        check_api_header(1, 1, 120, 8, 136).unwrap_err().message(),
        "ABI table is too small: reported 120 bytes, required 136 bytes for wake and resource functions; rebuild the Caliber FFI library"
    );
    assert_eq!(
        expect_status("read state", CaliberStatus::Success, CaliberStatus::Stale)
            .unwrap_err()
            .message(),
        "read state returned Ok, expected Stale"
    );
    assert_eq!(
        check_config_schema(3).unwrap_err().message(),
        "malformed project config: unsupported schema 3"
    );
}

#[test]
fn hook_refusals_name_the_configuration_file() {
    let usable = ValidationHook { windows: None, unix: None, command: Some(strings(&["true"])) };
    assert_eq!(
        hook_invocation(&config(usable), "other", false, "c", "r").unwrap_err().message(),
        "validation hook required: caliber.config.json has no validation command for other"
    );
    let none = config(ValidationHook { windows: Some(strings(&["x"])), unix: None, command: None });
    assert_eq!(
        hook_invocation(&none, "alicorn", false, "c", "r").unwrap_err().message(),
        "validation hook required: caliber.config.json has no command for this platform and alicorn"
    );
}
