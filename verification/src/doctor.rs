use vstd::prelude::*;

use crate::abi::{CaliberStatus, CALIBER_ABI_VERSION_1};
use crate::deps::{state_word, sync_state_name, Error, StatusEntry, SyncState};
use crate::text::{decimal, str_equal, str_trim, trim, u32_text, usize_text};

verus! {

/// One entry of the doctor's tool list, in configuration order.
#[derive(Debug)]
pub enum ToolCheck {
    /// A blank tool name, reported as a configuration problem.
    Blank,
    /// A tool to look for on `PATH`.
    Lookup(String),
}

impl View for ToolCheck {
    type V = Option<Seq<char>>;

    /// `None` for a blank name, else the tool to look up.
    open spec fn view(&self) -> Option<Seq<char>> {
        match self {
            ToolCheck::Blank => None,
            ToolCheck::Lookup(t) => Some(t@),
        }
    }
}

/// The tool list for `tools` in order: each blank name is reported, each
/// other name is looked up once, at its first occurrence.
pub open spec fn tool_plan(tools: Seq<Seq<char>>) -> Seq<Option<Seq<char>>>
    decreases tools.len(),
{
    if tools.len() == 0 {
        Seq::empty()
    } else {
        let earlier = tools.drop_last();
        let t = tools.last();
        if trim(t).len() == 0 {
            tool_plan(earlier).push(None)
        } else if earlier.contains(t) {
            tool_plan(earlier)
        } else {
            tool_plan(earlier).push(Some(t))
        }
    }
}

/// The strings as character sequences.
pub open spec fn string_views(v: Seq<String>) -> Seq<Seq<char>> {
    v.map_values(|s: String| s@)
}

proof fn lemma_views_push(v: Seq<String>, s: String)
    ensures
        string_views(v.push(s)) == string_views(v).push(s@),
{
    assert(string_views(v.push(s)) =~= string_views(v).push(s@));
}

/// Whether `name` equals one of the first `n` strings.
fn seen_before(tools: &Vec<String>, n: usize, name: &str) -> (r: bool)
    requires
        n <= tools@.len(),
    ensures
        r == string_views(tools@).subrange(0, n as int).contains(name@),
{
    let ghost v = string_views(tools@);
    let mut i: usize = 0;
    while i < n
        invariant
            v == string_views(tools@),
            n <= tools@.len(),
            i <= n,
            forall|j: int| 0 <= j < i ==> v[j] != name@,
        decreases n - i,
    {
        proof {
            assert(v[i as int] == tools@[i as int]@);
        }
        if str_equal(tools[i].as_str(), name) {
            proof {
                assert(v.subrange(0, n as int)[i as int] == name@);
            }
            return true;
        }
        i = i + 1;
    }
    proof {
        assert forall|j: int| 0 <= j < n implies v.subrange(0, n as int)[j] != name@ by {
            assert(v.subrange(0, n as int)[j] == v[j]);
        }
    }
    false
}

/// The doctor's tool list for the tools required everywhere followed by
/// those of the host platform.
pub fn tool_checks(required: &Vec<String>, platform: &Vec<String>) -> (r: Vec<ToolCheck>)
    ensures
        r@.map_values(|c: ToolCheck| c@) == tool_plan(
            string_views(required@) + string_views(platform@),
        ),
{
    let mut tools: Vec<String> = Vec::new();
    let mut i: usize = 0;
    proof {
        assert(string_views(tools@) =~= string_views(required@).subrange(0, 0));
    }
    while i < required.len()
        invariant
            i <= required@.len(),
            string_views(tools@) == string_views(required@).subrange(0, i as int),
        decreases required@.len() - i,
    {
        let ghost before = tools@;
        tools.push(required[i].clone());
        proof {
            lemma_views_push(before, required@[i as int]);
            assert(string_views(tools@) =~= string_views(required@).subrange(0, i + 1));
        }
        i = i + 1;
    }
    let mut k: usize = 0;
    proof {
        assert(string_views(tools@) =~= string_views(required@) + string_views(
            platform@,
        ).subrange(0, 0));
    }
    while k < platform.len()
        invariant
            k <= platform@.len(),
            string_views(tools@) == string_views(required@) + string_views(platform@).subrange(
                0,
                k as int,
            ),
        decreases platform@.len() - k,
    {
        let ghost before = tools@;
        tools.push(platform[k].clone());
        proof {
            lemma_views_push(before, platform@[k as int]);
            assert(string_views(tools@) =~= string_views(required@) + string_views(
                platform@,
            ).subrange(0, k + 1));
        }
        k = k + 1;
    }
    proof {
        assert(string_views(platform@).subrange(0, platform@.len() as int) =~= string_views(
            platform@,
        ));
    }
    let ghost all = string_views(tools@);
    let mut checks: Vec<ToolCheck> = Vec::new();
    let mut n: usize = 0;
    proof {
        assert(checks@.map_values(|c: ToolCheck| c@) =~= tool_plan(all.subrange(0, 0)));
    }
    while n < tools.len()
        invariant
            all == string_views(tools@),
            n <= tools@.len(),
            checks@.map_values(|c: ToolCheck| c@) == tool_plan(all.subrange(0, n as int)),
        decreases tools@.len() - n,
    {
        let tool = tools[n].as_str();
        proof {
            assert(all.subrange(0, n + 1).drop_last() =~= all.subrange(0, n as int));
            assert(all.subrange(0, n + 1).last() == tool@);
        }
        let ghost before = checks@.map_values(|c: ToolCheck| c@);
        if str_trim(tool).is_empty() {
            checks.push(ToolCheck::Blank);
            proof {
                assert(checks@.map_values(|c: ToolCheck| c@) =~= before.push(None));
            }
        } else if !seen_before(&tools, n, tool) {
            checks.push(ToolCheck::Lookup(String::from_str(tool)));
            proof {
                assert(checks@.map_values(|c: ToolCheck| c@) =~= before.push(Some(tool@)));
            }
        }
        n = n + 1;
    }
    proof {
        assert(all.subrange(0, tools@.len() as int) =~= all);
    }
    checks
}

/// The entry of the host platform among per-platform entries: `None` for a
/// platform other than Windows, macOS and Linux.
pub fn platform_entry<'a, T>(os: &str, windows: &'a T, macos: &'a T, linux: &'a T) -> (r: Option<
    &'a T,
>)
    ensures
        os@ == "windows"@ ==> r == Some(windows),
        os@ == "macos"@ ==> r == Some(macos),
        os@ == "linux"@ ==> r == Some(linux),
        !(os@ == "windows"@ || os@ == "macos"@ || os@ == "linux"@) ==> r is None,
{
    proof {
        reveal_strlit("windows");
        reveal_strlit("macos");
        reveal_strlit("linux");
        assert("windows"@ =~= seq!['w', 'i', 'n', 'd', 'o', 'w', 's']);
        assert("macos"@ =~= seq!['m', 'a', 'c', 'o', 's']);
        assert("linux"@ =~= seq!['l', 'i', 'n', 'u', 'x']);
    }
    if str_equal(os, "windows") {
        Some(windows)
    } else if str_equal(os, "macos") {
        Some(macos)
    } else if str_equal(os, "linux") {
        Some(linux)
    } else {
        None
    }
}

/// The head of the doctor's report of `count` failures.
pub open spec fn issue_count_text(count: nat) -> Seq<char> {
    "doctor found "@ + decimal(count) + " issue(s):"@
}

fn issue_count_message(count: usize) -> (r: String)
    ensures
        r@ == issue_count_text(count as nat),
{
    let mut text = String::from_str("doctor found ");
    text.append(usize_text(count).as_str());
    text.append(" issue(s):");
    text
}

/// The report's list of failures: each on a line of its own after
/// `"\n  - "`.
pub open spec fn failure_lines(failures: Seq<Seq<char>>) -> Seq<char>
    decreases failures.len(),
{
    if failures.len() == 0 {
        Seq::empty()
    } else {
        failure_lines(failures.drop_last()) + seq!['\n', ' ', ' ', '-', ' '] + failures.last()
    }
}

/// Ends the doctor's report: with no failures, the library path that was
/// resolved (it is an error if none was); otherwise an error that counts
/// the failures and lists them in order.
pub fn finish_report(path: Option<String>, failures: Vec<String>) -> (r: Result<String, Error>)
    ensures
        failures@.len() == 0 ==> match path {
            Some(p) => r matches Ok(q) && q@ == p@,
            None => r matches Err(e) && e@ == "Caliber library path was not resolved"@,
        },
        failures@.len() > 0 ==> (r matches Err(e) && e@ == issue_count_text(failures@.len())
            + failure_lines(string_views(failures@))),
{
    if failures.len() == 0 {
        return match path {
            Some(p) => Ok(p),
            None => Err(Error::new(String::from_str("Caliber library path was not resolved"))),
        };
    }
    let mut message = issue_count_message(failures.len());
    let ghost head = message@;
    let ghost all = string_views(failures@);
    let mut i: usize = 0;
    proof {
        assert(all.subrange(0, 0) =~= Seq::<Seq<char>>::empty());
        assert(message@ =~= head + failure_lines(all.subrange(0, 0)));
    }
    while i < failures.len()
        invariant
            all == string_views(failures@),
            i <= failures@.len(),
            message@ == head + failure_lines(all.subrange(0, i as int)),
        decreases failures@.len() - i,
    {
        proof {
            reveal_strlit("\n  - ");
            assert("\n  - "@ =~= seq!['\n', ' ', ' ', '-', ' ']);
            assert(all.subrange(0, i + 1).drop_last() =~= all.subrange(0, i as int));
            assert(all.subrange(0, i + 1).last() == failures@[i as int]@);
        }
        message.append("\n  - ");
        message.append(failures[i].as_str());
        proof {
            assert(message@ =~= head + failure_lines(all.subrange(0, i + 1)));
        }
        i = i + 1;
    }
    proof {
        assert(all.subrange(0, failures@.len() as int) =~= all);
    }
    Err(Error::new(message))
}

/// The name of a status as the ABI's status enumeration spells it; success
/// is `Ok` there.
pub open spec fn status_word(s: CaliberStatus) -> Seq<char> {
    match s {
        CaliberStatus::Success => "Ok"@,
        CaliberStatus::InvalidArgument => "InvalidArgument"@,
        CaliberStatus::InvalidHandle => "InvalidHandle"@,
        CaliberStatus::BufferTooSmall => "BufferTooSmall"@,
        CaliberStatus::LimitExceeded => "LimitExceeded"@,
        CaliberStatus::NotFound => "NotFound"@,
        CaliberStatus::Stale => "Stale"@,
        CaliberStatus::Unavailable => "Unavailable"@,
        CaliberStatus::QueueFull => "QueueFull"@,
        CaliberStatus::UnsupportedVersion => "UnsupportedVersion"@,
        CaliberStatus::Internal => "Internal"@,
        CaliberStatus::Stopped => "Stopped"@,
    }
}

/// Returns the name of `s` as the ABI's status enumeration spells it.
pub fn status_name(s: CaliberStatus) -> (r: &'static str)
    ensures
        r@ == status_word(s),
{
    match s {
        CaliberStatus::Success => "Ok",
        CaliberStatus::InvalidArgument => "InvalidArgument",
        CaliberStatus::InvalidHandle => "InvalidHandle",
        CaliberStatus::BufferTooSmall => "BufferTooSmall",
        CaliberStatus::LimitExceeded => "LimitExceeded",
        CaliberStatus::NotFound => "NotFound",
        CaliberStatus::Stale => "Stale",
        CaliberStatus::Unavailable => "Unavailable",
        CaliberStatus::QueueFull => "QueueFull",
        CaliberStatus::UnsupportedVersion => "UnsupportedVersion",
        CaliberStatus::Internal => "Internal",
        CaliberStatus::Stopped => "Stopped",
    }
}

/// The message for an ABI call that returned another status than expected.
pub open spec fn status_mismatch_text(
    operation: Seq<char>,
    actual: CaliberStatus,
    expected: CaliberStatus,
) -> Seq<char> {
    operation + " returned "@ + status_word(actual) + ", expected "@ + status_word(expected)
}

fn status_mismatch_message(operation: &str, actual: CaliberStatus, expected: CaliberStatus) -> (r:
    String)
    ensures
        r@ == status_mismatch_text(operation@, actual, expected),
{
    let mut text = String::from_str(operation);
    text.append(" returned ");
    text.append(status_name(actual));
    text.append(", expected ");
    text.append(status_name(expected));
    text
}

/// Checks that an ABI call returned the expected status.
pub fn expect_status(operation: &str, actual: CaliberStatus, expected: CaliberStatus) -> (r: Result<
    (),
    Error,
>)
    ensures
        r is Ok <==> actual == expected,
        r matches Err(e) ==> e@ == status_mismatch_text(operation@, actual, expected),
{
    if actual == expected {
        Ok(())
    } else {
        Err(Error::new(status_mismatch_message(operation, actual, expected)))
    }
}

/// The message for a requested ABI version this tool does not support.
pub open spec fn unsupported_abi_text(requested: u32) -> Seq<char> {
    "this Caliber CLI supports ABI version "@ + decimal(CALIBER_ABI_VERSION_1 as nat)
        + ", not requested version "@ + decimal(requested as nat)
}

/// The message for a reported table extent that does not cover the header.
pub open spec fn header_too_small_text(reported: u32, header_size: usize) -> Seq<char> {
    "ABI table header is too small: reported "@ + decimal(reported as nat) + " bytes, required "@
        + decimal(header_size as nat) + " bytes"@
}

/// The message for a library that reports another ABI version.
pub open spec fn version_mismatch_text(requested: u32, reported: u32) -> Seq<char> {
    "ABI version mismatch: requested "@ + decimal(requested as nat) + ", library reported "@
        + decimal(reported as nat)
}

/// The message for a reported table extent that does not cover the table.
pub open spec fn table_too_small_text(reported: u32, table_size: usize) -> Seq<char> {
    "ABI table is too small: reported "@ + decimal(reported as nat) + " bytes, required "@
        + decimal(table_size as nat)
        + " bytes for wake and resource functions; rebuild the Caliber FFI library"@
}

fn unsupported_abi_message(requested: u32) -> (r: String)
    ensures
        r@ == unsupported_abi_text(requested),
{
    let mut text = String::from_str("this Caliber CLI supports ABI version ");
    text.append(u32_text(CALIBER_ABI_VERSION_1).as_str());
    text.append(", not requested version ");
    text.append(u32_text(requested).as_str());
    text
}

fn header_too_small_message(reported: u32, header_size: usize) -> (r: String)
    ensures
        r@ == header_too_small_text(reported, header_size),
{
    let mut text = String::from_str("ABI table header is too small: reported ");
    text.append(u32_text(reported).as_str());
    text.append(" bytes, required ");
    text.append(usize_text(header_size).as_str());
    text.append(" bytes");
    text
}

fn version_mismatch_message(requested: u32, reported: u32) -> (r: String)
    ensures
        r@ == version_mismatch_text(requested, reported),
{
    let mut text = String::from_str("ABI version mismatch: requested ");
    text.append(u32_text(requested).as_str());
    text.append(", library reported ");
    text.append(u32_text(reported).as_str());
    text
}

fn table_too_small_message(reported: u32, table_size: usize) -> (r: String)
    ensures
        r@ == table_too_small_text(reported, table_size),
{
    let mut text = String::from_str("ABI table is too small: reported ");
    text.append(u32_text(reported).as_str());
    text.append(" bytes, required ");
    text.append(usize_text(table_size).as_str());
    text.append(" bytes for wake and resource functions; rebuild the Caliber FFI library");
    text
}

/// Checks the ABI version a configuration requests: only version 1 is
/// supported.
pub fn check_requested_abi(requested: u32) -> (r: Result<(), Error>)
    ensures
        r is Ok <==> requested == CALIBER_ABI_VERSION_1,
        r matches Err(e) ==> e@ == unsupported_abi_text(requested),
{
    if requested != CALIBER_ABI_VERSION_1 {
        Err(Error::new(unsupported_abi_message(requested)))
    } else {
        Ok(())
    }
}

/// Checks the header of a loaded ABI table before any function pointer is
/// read: the reported extent covers the header, the version is the one
/// requested, and the extent covers the whole table.
pub fn check_api_header(
    requested: u32,
    reported_version: u32,
    reported_size: u32,
    header_size: usize,
    table_size: usize,
) -> (r: Result<(), Error>)
    ensures
        r is Ok <==> (reported_size >= header_size && reported_version == requested && reported_size
            >= table_size),
        reported_size < header_size ==> (r matches Err(e) && e@ == header_too_small_text(
            reported_size,
            header_size,
        )),
        reported_size >= header_size && reported_version != requested ==> (r matches Err(e) && e@
            == version_mismatch_text(requested, reported_version)),
        reported_size >= header_size && reported_version == requested && reported_size
            < table_size ==> (r matches Err(e) && e@ == table_too_small_text(
            reported_size,
            table_size,
        )),
{
    if (reported_size as usize) < header_size {
        return Err(Error::new(header_too_small_message(reported_size, header_size)));
    }
    if reported_version != requested {
        return Err(Error::new(version_mismatch_message(requested, reported_version)));
    }
    if (reported_size as usize) < table_size {
        return Err(Error::new(table_too_small_message(reported_size, table_size)));
    }
    Ok(())
}

/// The functions the boundary check needs from the ABI table, in table
/// order.
pub const REQUIRED_FUNCTION_COUNT: usize = 15;

/// The names of the required functions, in table order.
pub open spec fn required_names() -> Seq<Seq<char>> {
    seq![
        "context_create"@,
        "context_destroy"@,
        "context_dispatch"@,
        "context_peek_command"@,
        "context_take_command"@,
        "context_publish_state"@,
        "context_read_latest_state"@,
        "state_publication_release"@,
        "context_map_resource"@,
        "resource_release"@,
        "context_publish_resource"@,
        "context_release_resource"@,
        "context_wake_sequence"@,
        "context_wait_wake"@,
        "context_stop_wake_waiters"@,
    ]
}

/// The name of required function `i`.
pub fn required_function_name(i: usize) -> (r: &'static str)
    requires
        i < REQUIRED_FUNCTION_COUNT,
    ensures
        r@ == required_names()[i as int],
{
    match i {
        0 => "context_create",
        1 => "context_destroy",
        2 => "context_dispatch",
        3 => "context_peek_command",
        4 => "context_take_command",
        5 => "context_publish_state",
        6 => "context_read_latest_state",
        7 => "state_publication_release",
        8 => "context_map_resource",
        9 => "resource_release",
        10 => "context_publish_resource",
        11 => "context_release_resource",
        12 => "context_wake_sequence",
        13 => "context_wait_wake",
        _ => "context_stop_wake_waiters",
    }
}

/// The positions, ascending, of the required functions that are absent.
pub open spec fn absent_positions(present: Seq<bool>, n: int) -> Seq<usize>
    decreases n,
{
    if n <= 0 {
        Seq::empty()
    } else if present[n - 1] {
        absent_positions(present, n - 1)
    } else {
        absent_positions(present, n - 1).push((n - 1) as usize)
    }
}

/// Lists the required functions that the table lacks, from whether each is
/// present in table order.
pub fn missing_functions(present: &[bool]) -> (r: Vec<usize>)
    requires
        present@.len() == REQUIRED_FUNCTION_COUNT,
    ensures
        r@ == absent_positions(present@, present@.len() as int),
{
    let mut missing: Vec<usize> = Vec::new();
    let mut i: usize = 0;
    while i < present.len()
        invariant
            i <= present@.len(),
            present@.len() == REQUIRED_FUNCTION_COUNT,
            missing@ == absent_positions(present@, i as int),
        decreases present@.len() - i,
    {
        if !present[i] {
            missing.push(i);
        }
        i = i + 1;
    }
    missing
}

/// The number of entries in `entries` that are synchronized.
pub open spec fn synchronized_in(entries: Seq<StatusEntry>) -> nat
    decreases entries.len(),
{
    if entries.len() == 0 {
        0
    } else {
        synchronized_in(entries.drop_last()) + if entries.last().state == SyncState::Synchronized {
            1nat
        } else {
            0nat
        }
    }
}

/// The names and states of the entries that are not synchronized, in order.
pub open spec fn unsynchronized(entries: Seq<StatusEntry>) -> Seq<(Seq<char>, SyncState)>
    decreases entries.len(),
{
    if entries.len() == 0 {
        Seq::empty()
    } else if entries.last().state == SyncState::Synchronized {
        unsynchronized(entries.drop_last())
    } else {
        unsynchronized(entries.drop_last()).push((entries.last().name@, entries.last().state))
    }
}

/// The doctor's failure text for a dependency `name` in state `state`.
pub open spec fn unsynchronized_text(name: Seq<char>, state: SyncState) -> Seq<char> {
    "dependency "@ + name + " is "@ + state_word(state)
        + "; run caliber sync after reviewing the managed checkout"@
}

/// Counts the synchronized entries of a status report.
pub fn synchronized_count(entries: &Vec<StatusEntry>) -> (n: usize)
    ensures
        n == synchronized_in(entries@),
{
    let mut n: usize = 0;
    let mut i: usize = 0;
    while i < entries.len()
        invariant
            i <= entries@.len(),
            n == synchronized_in(entries@.subrange(0, i as int)),
            n <= i,
        decreases entries@.len() - i,
    {
        proof {
            assert(entries@.subrange(0, i + 1).drop_last() =~= entries@.subrange(0, i as int));
        }
        if entries[i].state == SyncState::Synchronized {
            n = n + 1;
        }
        i = i + 1;
    }
    proof {
        assert(entries@.subrange(0, entries@.len() as int) =~= entries@);
    }
    n
}

/// The doctor's failure for each entry that is not synchronized, in order;
/// each names the dependency and its state.
pub fn unsynchronized_failures(entries: &Vec<StatusEntry>) -> (r: Vec<String>)
    ensures
        r@.len() == unsynchronized(entries@).len(),
        forall|k: int|
            0 <= k < r@.len() ==> (#[trigger] r@[k])@ == unsynchronized_text(
                unsynchronized(entries@)[k].0,
                unsynchronized(entries@)[k].1,
            ),
{
    let mut failures: Vec<String> = Vec::new();
    let mut i: usize = 0;
    while i < entries.len()
        invariant
            i <= entries@.len(),
            failures@.len() == unsynchronized(entries@.subrange(0, i as int)).len(),
            forall|k: int|
                0 <= k < failures@.len() ==> (#[trigger] failures@[k])@ == unsynchronized_text(
                    unsynchronized(entries@.subrange(0, i as int))[k].0,
                    unsynchronized(entries@.subrange(0, i as int))[k].1,
                ),
        decreases entries@.len() - i,
    {
        proof {
            assert(entries@.subrange(0, i + 1).drop_last() =~= entries@.subrange(0, i as int));
            assert(entries@.subrange(0, i + 1).last() == entries@[i as int]);
        }
        let entry = &entries[i];
        if entry.state != SyncState::Synchronized {
            let mut text = String::from_str("dependency ");
            text.append(entry.name.as_str());
            text.append(" is ");
            text.append(sync_state_name(entry.state));
            text.append("; run caliber sync after reviewing the managed checkout");
            let ghost before = failures@;
            failures.push(text);
            proof {
                assert forall|k: int| 0 <= k < failures@.len() implies (#[trigger] failures@[k])@
                    == unsynchronized_text(
                    unsynchronized(entries@.subrange(0, i + 1))[k].0,
                    unsynchronized(entries@.subrange(0, i + 1))[k].1,
                ) by {
                    if k < before.len() {
                        assert(failures@[k] == before[k]);
                    }
                }
            }
        }
        i = i + 1;
    }
    proof {
        assert(entries@.subrange(0, entries@.len() as int) =~= entries@);
    }
    failures
}

} // verus!
