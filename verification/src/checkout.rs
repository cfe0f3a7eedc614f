use vstd::prelude::*;

use crate::cli::{opt_view, override_views};
use crate::deps::{
    lemma_name_before_irreflexive, lemma_name_before_transitive, lock_valid, name_less,
    names_ascending, name_before, validate_lock, validate_revision, revision_valid, Dependency, DependencyView, Error, LockFile, LockView, StatusEntry, SyncState,
};
use crate::repository::{normalized_repository, same_repository};
use crate::text::{debug_quoted, quoted_text, seq_starts_with, str_equal, str_trim, trim};

verus! {

/// What probing a managed dependency path found.
#[derive(Debug)]
pub enum CheckoutProbe {
    /// Nothing exists at the path.
    Absent,
    /// Git itself could not be started.
    GitMissing,
    /// The path exists but is not a Git checkout.
    NotACheckout,
    /// The checkout's root is not the managed path itself.
    Elsewhere,
    /// The checkout was inspected: the raw output of `rev-parse HEAD`, of
    /// `status --porcelain` and of `remote get-url origin`, each `None`
    /// where that command failed.
    Inspected {
        head_output: Option<String>,
        status_output: Option<String>,
        origin_output: Option<String>,
    },
}

/// An optional output, trimmed.
pub open spec fn trimmed(o: Option<Seq<char>>) -> Option<Seq<char>> {
    match o {
        Some(t) => Some(trim(t)),
        None => None,
    }
}

/// Whether status output reports changes: anything but white space.
pub open spec fn reports_changes(output: Seq<char>) -> bool {
    trim(output).len() > 0
}

/// Whether the inspected working tree has changes; `None` where it could
/// not be inspected.
pub open spec fn dirty_of(status: Option<Seq<char>>) -> Option<bool> {
    match status {
        Some(t) => Some(reports_changes(t)),
        None => None,
    }
}

/// Whether an origin, if one was read, names the locked repository.
pub open spec fn origin_matches(origin: Option<Seq<char>>, repository: Seq<char>) -> bool {
    match origin {
        Some(o) => normalized_repository(trim(o)) == normalized_repository(repository),
        None => false,
    }
}

/// The state of an inspected checkout: synchronized exactly when HEAD is
/// the locked revision, the tree is clean and the origin matches.
pub open spec fn inspected_state(
    d: DependencyView,
    head: Option<Seq<char>>,
    status: Option<Seq<char>>,
    origin: Option<Seq<char>>,
) -> SyncState {
    if trimmed(head) == Some(d.2) && dirty_of(status) == Some(false) && origin_matches(origin, d.0) {
        SyncState::Synchronized
    } else {
        SyncState::Mismatched
    }
}

/// `repository origin differs from the lock`.
pub open spec fn origin_detail() -> Seq<char> {
    "repository origin differs from the lock"@
}

/// `working tree is dirty or could not be inspected`.
pub open spec fn dirty_detail() -> Seq<char> {
    "working tree is dirty or could not be inspected"@
}

/// `HEAD differs from the locked revision`.
pub open spec fn head_detail() -> Seq<char> {
    "HEAD differs from the locked revision"@
}

/// The explanation of an inspected checkout's state: the first of a
/// differing origin, a dirty or uninspectable tree and a differing HEAD.
pub open spec fn inspected_detail(
    d: DependencyView,
    head: Option<Seq<char>>,
    status: Option<Seq<char>>,
    origin: Option<Seq<char>>,
) -> Option<Seq<char>> {
    if !origin_matches(origin, d.0) {
        Some(origin_detail())
    } else if dirty_of(status) != Some(false) {
        Some(dirty_detail())
    } else if trimmed(head) != Some(d.2) {
        Some(head_detail())
    } else {
        None
    }
}

/// Whether `e` reports `name`, `dependency` and `path` with the given head,
/// working tree, state and detail.
pub open spec fn entry_reports(
    e: StatusEntry,
    name: Seq<char>,
    d: DependencyView,
    path: std::path::PathBuf,
    head: Option<Seq<char>>,
    dirty: Option<bool>,
    state: SyncState,
    detail: Option<Seq<char>>,
) -> bool {
    &&& e.name@ == name
    &&& e.revision@ == d.2
    &&& e.path == path
    &&& opt_view(e.head) == head
    &&& e.dirty == dirty
    &&& e.state == state
    &&& opt_view(e.detail) == detail
}

fn trimmed_output(output: &Option<String>) -> (r: Option<String>)
    ensures
        opt_view(r) == trimmed(opt_view(*output)),
{
    match output {
        Some(text) => Some(String::from_str(str_trim(text.as_str()))),
        None => None,
    }
}

fn dirty_output(output: &Option<String>) -> (r: Option<bool>)
    ensures
        r == dirty_of(opt_view(*output)),
{
    match output {
        Some(text) => Some(!str_trim(text.as_str()).is_empty()),
        None => None,
    }
}

fn origin_names(origin: &Option<String>, repository: &str) -> (r: bool)
    ensures
        r == origin_matches(opt_view(*origin), repository@),
{
    match origin {
        Some(text) => same_repository(str_trim(text.as_str()), repository),
        None => false,
    }
}

fn same_text(a: &Option<String>, b: &str) -> (r: bool)
    ensures
        r == (opt_view(*a) == Some(b@)),
{
    match a {
        Some(text) => str_equal(text.as_str(), b),
        None => false,
    }
}

/// The local status of one locked dependency from what probing its managed
/// path found. Only a missing Git is an error.
pub fn status_entry(
    name: String,
    dependency: &Dependency,
    path: std::path::PathBuf,
    probe: CheckoutProbe,
) -> (r: Result<StatusEntry, Error>)
    ensures
        match probe {
            CheckoutProbe::GitMissing => r matches Err(e) && e@
                == "Git is missing; install Git and ensure it is available on PATH"@,
            CheckoutProbe::Absent => r matches Ok(e) && entry_reports(
                e,
                name@,
                dependency@,
                path,
                None,
                None,
                SyncState::Missing,
                Some("checkout is not materialized"@),
            ),
            CheckoutProbe::NotACheckout => r matches Ok(e) && entry_reports(
                e,
                name@,
                dependency@,
                path,
                None,
                None,
                SyncState::Mismatched,
                Some("managed path is not a Git checkout"@),
            ),
            CheckoutProbe::Elsewhere => r matches Ok(e) && entry_reports(
                e,
                name@,
                dependency@,
                path,
                None,
                None,
                SyncState::Mismatched,
                Some("checkout resolves outside its managed dependency path"@),
            ),
            CheckoutProbe::Inspected { head_output, status_output, origin_output } => r matches Ok(
                e,
            ) && entry_reports(
                e,
                name@,
                dependency@,
                path,
                trimmed(opt_view(head_output)),
                dirty_of(opt_view(status_output)),
                inspected_state(
                    dependency@,
                    opt_view(head_output),
                    opt_view(status_output),
                    opt_view(origin_output),
                ),
                inspected_detail(
                    dependency@,
                    opt_view(head_output),
                    opt_view(status_output),
                    opt_view(origin_output),
                ),
            ),
        },
{
    let revision = dependency.revision.clone();
    match probe {
        CheckoutProbe::GitMissing => Err(
            Error::new(
                String::from_str("Git is missing; install Git and ensure it is available on PATH"),
            ),
        ),
        CheckoutProbe::Absent => Ok(
            StatusEntry {
                name,
                revision,
                path,
                head: None,
                dirty: None,
                state: SyncState::Missing,
                detail: Some(String::from_str("checkout is not materialized")),
            },
        ),
        CheckoutProbe::NotACheckout => Ok(
            StatusEntry {
                name,
                revision,
                path,
                head: None,
                dirty: None,
                state: SyncState::Mismatched,
                detail: Some(String::from_str("managed path is not a Git checkout")),
            },
        ),
        CheckoutProbe::Elsewhere => Ok(
            StatusEntry {
                name,
                revision,
                path,
                head: None,
                dirty: None,
                state: SyncState::Mismatched,
                detail: Some(
                    String::from_str("checkout resolves outside its managed dependency path"),
                ),
            },
        ),
        CheckoutProbe::Inspected { head_output, status_output, origin_output } => {
            let head = trimmed_output(&head_output);
            let dirty = dirty_output(&status_output);
            let origin_ok = origin_names(&origin_output, dependency.repository.as_str());
            let head_ok = same_text(&head, dependency.revision.as_str());
            let clean = match dirty {
                Some(d) => !d,
                None => false,
            };
            let state = if head_ok && clean && origin_ok {
                SyncState::Synchronized
            } else {
                SyncState::Mismatched
            };
            let detail = if !origin_ok {
                Some(String::from_str("repository origin differs from the lock"))
            } else if !clean {
                Some(String::from_str("working tree is dirty or could not be inspected"))
            } else if !head_ok {
                Some(String::from_str("HEAD differs from the locked revision"))
            } else {
                None
            };
            Ok(StatusEntry { name, revision, path, head, dirty, state, detail })
        },
    }
}

/// What to do with a developer-owned override checkout.
#[derive(Clone, Copy, Debug, PartialEq, Eq, Structural)]
pub enum OverrideVerdict {
    /// The checkout matches the lock exactly and is clean.
    Clean,
    /// Dirty overrides are allowed: the checkout is used as it is, with a
    /// warning that says whether it is dirty and whether its repository
    /// differs from the lock.
    DeveloperOwned { dirty: bool, repository_matches: bool },
    /// Its origin names another repository.
    RepositoryMismatch,
    /// Its HEAD is not the locked revision.
    RevisionMismatch,
    /// It has uncommitted or untracked changes.
    Dirty,
}

/// The verdict on an override checkout from its origin, the output of
/// `rev-parse HEAD` and of `status --porcelain`.
pub open spec fn override_verdict_of(
    d: DependencyView,
    origin: Seq<char>,
    head: Seq<char>,
    status: Seq<char>,
    allow_dirty: bool,
) -> OverrideVerdict {
    let matches = normalized_repository(trim(origin)) == normalized_repository(d.0);
    if allow_dirty {
        OverrideVerdict::DeveloperOwned { dirty: reports_changes(status), repository_matches: matches }
    } else if !matches {
        OverrideVerdict::RepositoryMismatch
    } else if trim(head) != d.2 {
        OverrideVerdict::RevisionMismatch
    } else if reports_changes(status) {
        OverrideVerdict::Dirty
    } else {
        OverrideVerdict::Clean
    }
}

/// Decides whether an override checkout may be used: with dirty overrides
/// allowed always, with a warning; otherwise only when its origin, HEAD and
/// clean tree all match the lock.
pub fn override_verdict(
    dependency: &Dependency,
    origin_output: &str,
    head_output: &str,
    status_output: &str,
    allow_dirty: bool,
) -> (r: OverrideVerdict)
    ensures
        r == override_verdict_of(dependency@, origin_output@, head_output@, status_output@, allow_dirty),
{
    let matches = same_repository(str_trim(origin_output), dependency.repository.as_str());
    let dirty = !str_trim(status_output).is_empty();
    if allow_dirty {
        OverrideVerdict::DeveloperOwned { dirty, repository_matches: matches }
    } else if !matches {
        OverrideVerdict::RepositoryMismatch
    } else if !str_equal(str_trim(head_output), dependency.revision.as_str()) {
        OverrideVerdict::RevisionMismatch
    } else if dirty {
        OverrideVerdict::Dirty
    } else {
        OverrideVerdict::Clean
    }
}

/// What to do with an existing managed checkout.
#[derive(Clone, Copy, Debug, PartialEq, Eq, Structural)]
pub enum ManagedVerdict {
    /// Its origin names another repository: it is left untouched.
    OriginMismatch,
    /// It has local edits: it is left untouched.
    Dirty,
    /// HEAD is already the locked revision.
    UpToDate,
    /// The locked revision must be checked out.
    NeedsCheckout,
}

/// The verdict on a managed checkout from its origin, the output of
/// `status --porcelain` and of `rev-parse HEAD`.
pub open spec fn managed_verdict_of(d: DependencyView, origin: Seq<char>, status: Seq<char>, head: Seq<
    char,
>) -> ManagedVerdict {
    if normalized_repository(trim(origin)) != normalized_repository(d.0) {
        ManagedVerdict::OriginMismatch
    } else if reports_changes(status) {
        ManagedVerdict::Dirty
    } else if trim(head) == d.2 {
        ManagedVerdict::UpToDate
    } else {
        ManagedVerdict::NeedsCheckout
    }
}

/// What a sync does with a managed checkout, in terms of its origin,
/// status output and HEAD: a foreign origin is left alone; with the locked
/// origin, any reported change leaves the checkout untouched whatever HEAD
/// is; a clean checkout is up to date exactly when HEAD is the locked
/// revision, and needs that revision checked out otherwise.
pub proof fn law_managed_verdict(d: DependencyView, origin: Seq<char>, status: Seq<char>, head: Seq<char>)
    ensures
        (managed_verdict_of(d, origin, status, head) == ManagedVerdict::OriginMismatch)
            <==> normalized_repository(trim(origin)) != normalized_repository(d.0),
        normalized_repository(trim(origin)) == normalized_repository(d.0) && trim(status).len() > 0
            ==> managed_verdict_of(d, origin, status, head) == ManagedVerdict::Dirty,
        (managed_verdict_of(d, origin, status, head) == ManagedVerdict::Dirty) ==> trim(status).len()
            > 0,
        (managed_verdict_of(d, origin, status, head) == ManagedVerdict::UpToDate) <==> (
        normalized_repository(trim(origin)) == normalized_repository(d.0) && trim(status).len() == 0
            && trim(head) == d.2),
        (managed_verdict_of(d, origin, status, head) == ManagedVerdict::NeedsCheckout) <==> (
        normalized_repository(trim(origin)) == normalized_repository(d.0) && trim(status).len() == 0
            && trim(head) != d.2),
{
}

/// An inspected checkout is synchronized exactly when HEAD was read and is
/// the locked revision, the status was read and reports no change, and the
/// origin was read and names the locked repository; it is synchronized
/// exactly when no detail is given, and a foreign or unread origin is the
/// detail reported.
pub proof fn law_inspected_status(
    d: DependencyView,
    head: Option<Seq<char>>,
    status: Option<Seq<char>>,
    origin: Option<Seq<char>>,
)
    ensures
        (inspected_state(d, head, status, origin) == SyncState::Synchronized) <==> ((head matches Some(
            h,
        ) && trim(h) == d.2) && (status matches Some(t) && trim(t).len() == 0) && (origin matches Some(
            o,
        ) && normalized_repository(trim(o)) == normalized_repository(d.0))),
        (inspected_state(d, head, status, origin) == SyncState::Synchronized) <==> inspected_detail(
            d,
            head,
            status,
            origin,
        ) is None,
        !(origin matches Some(o) && normalized_repository(trim(o)) == normalized_repository(d.0))
            ==> inspected_detail(d, head, status, origin) == Some(origin_detail()),
        inspected_state(d, head, status, origin) != SyncState::Missing,
        (origin matches Some(o) && normalized_repository(trim(o)) == normalized_repository(d.0))
            && !(status matches Some(t) && trim(t).len() == 0) ==> inspected_detail(
            d,
            head,
            status,
            origin,
        ) == Some(dirty_detail()),
        (origin matches Some(o) && normalized_repository(trim(o)) == normalized_repository(d.0))
            && (status matches Some(t) && trim(t).len() == 0) && !(head matches Some(h) && trim(h)
            == d.2) ==> inspected_detail(d, head, status, origin) == Some(head_detail()),
        status matches Some(t) ==> dirty_of(status) == Some(trim(t).len() > 0),
        status is None ==> dirty_of(status) is None,
        head matches Some(h) ==> trimmed(head) == Some(trim(h)),
        head is None ==> trimmed(head) is None,
{
}

/// Decides what a sync does with an existing managed checkout: a foreign
/// origin or local edits leave it untouched, a HEAD at the locked revision
/// needs nothing, and anything else needs the locked revision checked out.
pub fn managed_verdict(
    dependency: &Dependency,
    origin_output: &str,
    status_output: &str,
    head_output: &str,
) -> (r: ManagedVerdict)
    ensures
        r == managed_verdict_of(dependency@, origin_output@, status_output@, head_output@),
{
    if !same_repository(str_trim(origin_output), dependency.repository.as_str()) {
        ManagedVerdict::OriginMismatch
    } else if !str_trim(status_output).is_empty() {
        ManagedVerdict::Dirty
    } else if str_equal(str_trim(head_output), dependency.revision.as_str()) {
        ManagedVerdict::UpToDate
    } else {
        ManagedVerdict::NeedsCheckout
    }
}

/// Why a pin source cannot be pinned.
#[derive(Clone, Copy, Debug, PartialEq, Eq, Structural)]
pub enum PinProblem {
    /// It has uncommitted or untracked changes.
    Dirty,
    /// Its origin names another repository.
    RepositoryMismatch,
    /// Its HEAD is not a full object id.
    InvalidRevision,
}

/// The revision a pin source offers, or why it cannot be pinned: checked
/// for changes first, then for its origin, then for a full HEAD.
pub open spec fn pin_source_of(d: DependencyView, status: Seq<char>, origin: Seq<char>, head: Seq<
    char,
>) -> Result<Seq<char>, PinProblem> {
    if reports_changes(status) {
        Err(PinProblem::Dirty)
    } else if normalized_repository(trim(origin)) != normalized_repository(d.0) {
        Err(PinProblem::RepositoryMismatch)
    } else if !revision_valid(trim(head)) {
        Err(PinProblem::InvalidRevision)
    } else {
        Ok(trim(head))
    }
}

/// Checks a pin source from the output of `status --porcelain`, its origin
/// and the output of `rev-parse HEAD`, and returns the revision to pin.
pub fn pin_source(
    dependency: &Dependency,
    status_output: &str,
    origin_output: &str,
    head_output: &str,
) -> (r: Result<String, PinProblem>)
    ensures
        match pin_source_of(dependency@, status_output@, origin_output@, head_output@) {
            Ok(rev) => r matches Ok(s) && s@ == rev,
            Err(p) => r == Err::<String, PinProblem>(p),
        },
{
    if !str_trim(status_output).is_empty() {
        return Err(PinProblem::Dirty);
    }
    if !same_repository(str_trim(origin_output), dependency.repository.as_str()) {
        return Err(PinProblem::RepositoryMismatch);
    }
    let revision = str_trim(head_output);
    match validate_revision(revision) {
        Ok(()) => Ok(String::from_str(revision)),
        Err(_) => Err(PinProblem::InvalidRevision),
    }
}

/// What a failed fetch of a locked revision reports.
#[derive(Clone, Copy, Debug, PartialEq, Eq, Structural)]
pub enum FetchFailure {
    /// The remote answered but lacks the revision.
    CommitMissingReachable,
    /// The remote could not be reached.
    NetworkUnavailable,
    /// The fetches ran without error but the revision did not arrive.
    CommitMissing,
}

/// Classifies a fetch that did not provide the locked revision: with fetch
/// errors, by whether the remote answers; without, as a missing commit.
pub fn fetch_failure(had_errors: bool, remote_available: bool) -> (r: FetchFailure)
    ensures
        r == if !had_errors {
            FetchFailure::CommitMissing
        } else if remote_available {
            FetchFailure::CommitMissingReachable
        } else {
            FetchFailure::NetworkUnavailable
        },
{
    if had_errors {
        if remote_available {
            FetchFailure::CommitMissingReachable
        } else {
            FetchFailure::NetworkUnavailable
        }
    } else {
        FetchFailure::CommitMissing
    }
}

/// Whether some entry is named `name`.
pub open spec fn has_entry(entries: Seq<(Seq<char>, DependencyView)>, name: Seq<char>) -> bool {
    exists|k: int| 0 <= k < entries.len() && entries[k].0 == name
}

/// The position of the first entry named `name`, if any.
pub open spec fn entry_index(entries: Seq<(Seq<char>, DependencyView)>, name: Seq<char>) -> Option<int> {
    if has_entry(entries, name) {
        Some(
            choose|k: int|
                0 <= k < entries.len() && entries[k].0 == name && forall|j: int|
                    0 <= j < k ==> entries[j].0 != name,
        )
    } else {
        None
    }
}

proof fn lemma_entry_index(entries: Seq<(Seq<char>, DependencyView)>, name: Seq<char>, k: int)
    requires
        0 <= k < entries.len(),
        entries[k].0 == name,
        forall|j: int| 0 <= j < k ==> entries[j].0 != name,
    ensures
        entry_index(entries, name) == Some(k),
{
    let c = choose|c: int|
        0 <= c < entries.len() && entries[c].0 == name && forall|j: int|
            0 <= j < c ==> entries[j].0 != name;
    assert(0 <= c < entries.len() && entries[c].0 == name && forall|j: int|
        0 <= j < c ==> entries[j].0 != name);
    if c < k {
        assert(entries[c].0 != name);
    } else if k < c {
        assert(entries[k].0 != name);
    }
}

/// Finds the position of the dependency named `name` in `lock`.
pub fn find_dependency(lock: &LockFile, name: &str) -> (r: Option<usize>)
    ensures
        r is None <==> entry_index(lock@.1, name@) is None,
        r matches Some(k) ==> entry_index(lock@.1, name@) == Some(k as int),
        r is Some <==> has_entry(lock@.1, name@),
        r matches Some(k) ==> k < lock.dependencies@.len() && lock@.1[k as int].0 == name@,
{
    let mut i: usize = 0;
    while i < lock.dependencies.len()
        invariant
            i <= lock.dependencies@.len(),
            lock@.1.len() == lock.dependencies@.len(),
            forall|j: int| 0 <= j < i ==> lock@.1[j].0 != name@,
        decreases lock.dependencies@.len() - i,
    {
        proof {
            assert(lock@.1[i as int].0 == lock.dependencies@[i as int].0@);
        }
        if str_equal(lock.dependencies[i].0.as_str(), name) {
            proof {
                lemma_entry_index(lock@.1, name@, i as int);
            }
            return Some(i);
        }
        i = i + 1;
    }
    None
}

/// Whether `lock` has a dependency named `name`.
fn has_dependency(lock: &LockFile, name: &str) -> (r: bool)
    ensures
        r == has_entry(lock@.1, name@),
{
    let mut i: usize = 0;
    while i < lock.dependencies.len()
        invariant
            i <= lock.dependencies@.len(),
            lock@.1.len() == lock.dependencies@.len(),
            forall|j: int| 0 <= j < i ==> lock@.1[j].0 != name@,
        decreases lock.dependencies@.len() - i,
    {
        proof {
            assert(lock@.1[i as int].0 == lock.dependencies@[i as int].0@);
        }
        if str_equal(lock.dependencies[i].0.as_str(), name) {
            return true;
        }
        i = i + 1;
    }
    false
}

/// `l` with the revision of its entry at `k` replaced by `revision`.
pub open spec fn with_revision(l: LockView, k: int, revision: Seq<char>) -> LockView {
    (l.0, l.1.update(k, (l.1[k].0, (l.1[k].1.0, l.1[k].1.1, revision))))
}

/// Changing a locked revision keeps the names, so an ascending lock stays
/// ascending.
pub proof fn law_revision_update_keeps_order(l: LockView, k: int, revision: Seq<char>)
    requires
        names_ascending(l),
        0 <= k < l.1.len(),
    ensures
        names_ascending(with_revision(l, k, revision)),
{
    let m = with_revision(l, k, revision);
    assert forall|i: int, j: int| 0 <= i < j < m.1.len() implies name_before(
        #[trigger] m.1[i].0,
        #[trigger] m.1[j].0,
    ) by {
        assert(m.1[i].0 == l.1[i].0);
        assert(m.1[j].0 == l.1[j].0);
        assert(name_before(l.1[i].0, l.1[j].0));
    }
}

/// Records `revision` as the locked revision of the dependency named
/// `name`; returns whether it is in the lock. Nothing else changes.
#[verifier::rlimit(50)]
pub fn set_locked_revision(lock: &mut LockFile, name: &str, revision: String) -> (found: bool)
    ensures
        match entry_index(old(lock)@.1, name@) {
            Some(k) => found && final(lock)@ == with_revision(old(lock)@, k, revision@),
            None => !found && final(lock)@ == old(lock)@,
        },
        names_ascending(old(lock)@) ==> names_ascending(final(lock)@),
{
    match find_dependency(lock, name) {
        Some(k) => {
            let ghost before = lock@;
            let ghost old_entries = lock.dependencies@;
            let ghost rev = revision@;
            let ghost expected = with_revision(before, k as int, rev);
            lock.dependencies[k].1.revision = revision;
            proof {
                assert forall|j: int| 0 <= j < lock@.1.len() implies lock@.1[j] == expected.1[j] by {
                    if j != k {
                        assert(lock.dependencies@[j] == old_entries[j]);
                    }
                }
                assert(lock@.1 =~= expected.1);
                if names_ascending(before) {
                    law_revision_update_keeps_order(before, k as int, rev);
                }
            }
            true
        },
        None => false,
    }
}

/// One dependency of a sync, with the override checkout to use for it, if
/// any.
#[derive(Debug)]
pub struct SyncTarget {
    pub name: String,
    pub dependency: Dependency,
    pub override_path: Option<String>,
}

/// The path given for `name` by its first override, if any.
pub open spec fn override_for(o: Seq<(Seq<char>, Seq<char>)>, name: Seq<char>) -> Option<Seq<char>> {
    if exists|k: int| 0 <= k < o.len() && o[k].0 == name {
        Some(
            o[choose|k: int|
                0 <= k < o.len() && o[k].0 == name && forall|j: int|
                    0 <= j < k ==> o[j].0 != name].1,
        )
    } else {
        None
    }
}

proof fn lemma_override_for(o: Seq<(Seq<char>, Seq<char>)>, name: Seq<char>, k: int)
    requires
        0 <= k < o.len(),
        o[k].0 == name,
        forall|j: int| 0 <= j < k ==> o[j].0 != name,
    ensures
        override_for(o, name) == Some(o[k].1),
{
    let c = choose|c: int|
        0 <= c < o.len() && o[c].0 == name && forall|j: int| 0 <= j < c ==> o[j].0 != name;
    assert(0 <= c < o.len() && o[c].0 == name && forall|j: int| 0 <= j < c ==> o[j].0 != name);
    if c < k {
        assert(o[c].0 != name);
    } else if k < c {
        assert(o[k].0 != name);
    }
}

/// Whether the overrides name each dependency once at most.
pub open spec fn override_names_distinct(o: Seq<(Seq<char>, Seq<char>)>) -> bool {
    forall|i: int, j: int| 0 <= i < j < o.len() ==> o[i].0 != o[j].0
}

/// Whether every override names a dependency of the lock.
pub open spec fn overrides_known(l: LockView, o: Seq<(Seq<char>, Seq<char>)>) -> bool {
    forall|i: int| 0 <= i < o.len() ==> has_entry(l.1, #[trigger] o[i].0)
}

/// Whether a sync may proceed: a valid lock, overrides that name known
/// dependencies, and dirty overrides allowed only with an override.
pub open spec fn sync_allowed(l: LockView, o: Seq<(Seq<char>, Seq<char>)>, allow_dirty: bool) -> bool {
    lock_valid(l) && overrides_known(l, o) && !(allow_dirty && o.len() == 0)
}

/// The message for an override of a dependency that the lock does not have.
pub open spec fn unknown_override_text(name: Seq<char>) -> Seq<char> {
    "override names unknown dependency "@ + debug_quoted(name)
}

/// The message for dirty overrides allowed without an override.
pub open spec fn dirty_without_override_text() -> Seq<char> {
    "--allow-dirty-overrides requires at least one --override"@
}

fn unknown_override_message(name: &str) -> (r: String)
    ensures
        r@ == unknown_override_text(name@),
{
    let mut text = String::from_str("override names unknown dependency ");
    text.append(quoted_text(name).as_str());
    text
}

fn override_path(overrides: &Vec<(String, String)>, name: &str) -> (r: Option<String>)
    ensures
        opt_view(r) == override_for(override_views(overrides@), name@),
{
    let ghost o = override_views(overrides@);
    let mut i: usize = 0;
    while i < overrides.len()
        invariant
            o == override_views(overrides@),
            o.len() == overrides@.len(),
            i <= overrides@.len(),
            forall|j: int| 0 <= j < i ==> o[j].0 != name@,
        decreases overrides@.len() - i,
    {
        proof {
            assert(o[i as int] == (overrides@[i as int].0@, overrides@[i as int].1@));
        }
        if str_equal(overrides[i].0.as_str(), name) {
            proof {
                lemma_override_for(o, name@, i as int);
            }
            return Some(overrides[i].1.clone());
        }
        i = i + 1;
    }
    None
}

/// Whether override `k` names a dependency the lock does not have, and no
/// other such override comes before it in name order.
pub open spec fn first_unknown_by_name(l: LockView, o: Seq<(Seq<char>, Seq<char>)>, k: int) -> bool {
    &&& 0 <= k < o.len()
    &&& !has_entry(l.1, o[k].0)
    &&& forall|j: int|
        0 <= j < o.len() && !has_entry(l.1, #[trigger] o[j].0) ==> !name_before(o[j].0, o[k].0)
}

/// Plans a sync: checks the lock, that every override names a dependency
/// of the lock, and that dirty overrides are allowed only together with an
/// override; then lists each dependency in lock order with the override
/// checkout to use for it.
pub fn plan_sync(lock: &LockFile, overrides: &Vec<(String, String)>, allow_dirty: bool) -> (r: Result<
    Vec<SyncTarget>,
    Error,
>)
    ensures
        r is Ok <==> sync_allowed(lock@, override_views(overrides@), allow_dirty),
        !lock_valid(lock@) ==> (r matches Err(e) && seq_starts_with(e@, "malformed lock: "@)),
        lock_valid(lock@) && !overrides_known(lock@, override_views(overrides@)) ==> (r matches Err(
            e,
        ) && exists|k: int|
            first_unknown_by_name(lock@, override_views(overrides@), k) && e@
                == unknown_override_text(#[trigger] override_views(overrides@)[k].0)),
        lock_valid(lock@) && overrides_known(lock@, override_views(overrides@)) && allow_dirty
            && overrides@.len() == 0 ==> (r matches Err(e) && e@ == dirty_without_override_text()),
        r matches Ok(v) ==> v@.len() == lock@.1.len() && forall|i: int|
            0 <= i < v@.len() ==> {
                &&& (#[trigger] v@[i]).name@ == lock@.1[i].0
                &&& v@[i].dependency@ == lock@.1[i].1
                &&& opt_view(v@[i].override_path) == override_for(
                    override_views(overrides@),
                    lock@.1[i].0,
                )
            },
{
    match validate_lock(lock) {
        Ok(()) => {},
        Err(e) => {
            return Err(e);
        },
    }
    let ghost o = override_views(overrides@);
    let mut unknown: Option<usize> = None;
    let mut i: usize = 0;
    while i < overrides.len()
        invariant
            o == override_views(overrides@),
            o.len() == overrides@.len(),
            i <= overrides@.len(),
            lock_valid(lock@),
            match unknown {
                None => forall|j: int| 0 <= j < i ==> has_entry(lock@.1, #[trigger] o[j].0),
                Some(u) => u < i && !has_entry(lock@.1, o[u as int].0) && forall|j: int|
                    0 <= j < i && !has_entry(lock@.1, #[trigger] o[j].0) ==> !name_before(
                        o[j].0,
                        o[u as int].0,
                    ),
            },
        decreases overrides@.len() - i,
    {
        proof {
            assert(o[i as int].0 == overrides@[i as int].0@);
        }
        if !has_dependency(lock, overrides[i].0.as_str()) {
            match unknown {
                None => {
                    proof {
                        lemma_name_before_irreflexive(o[i as int].0, 0);
                    }
                    unknown = Some(i);
                },
                Some(u) => {
                    proof {
                        assert(o[u as int].0 == overrides@[u as int].0@);
                    }
                    if name_less(overrides[i].0.as_str(), overrides[u].0.as_str()) {
                        proof {
                            lemma_name_before_irreflexive(o[i as int].0, 0);
                            assert forall|j: int|
                                0 <= j < i + 1 && !has_entry(lock@.1, #[trigger] o[j].0) implies !name_before(
                                o[j].0,
                                o[i as int].0,
                            ) by {
                                if j < i && name_before(o[j].0, o[i as int].0) {
                                    lemma_name_before_transitive(o[j].0, o[i as int].0, o[u as int].0, 0);
                                }
                            }
                        }
                        unknown = Some(i);
                    }
                },
            }
        }
        i = i + 1;
    }
    if let Some(u) = unknown {
        proof {
            assert(o[u as int].0 == overrides@[u as int].0@);
            assert(first_unknown_by_name(lock@, o, u as int));
        }
        return Err(Error::new(unknown_override_message(overrides[u].0.as_str())));
    }
    if allow_dirty && overrides.len() == 0 {
        return Err(
            Error::new(String::from_str("--allow-dirty-overrides requires at least one --override")),
        );
    }
    let mut targets: Vec<SyncTarget> = Vec::new();
    let mut k: usize = 0;
    while k < lock.dependencies.len()
        invariant
            o == override_views(overrides@),
            k <= lock.dependencies@.len(),
            lock@.1.len() == lock.dependencies@.len(),
            targets@.len() == k,
            forall|i: int|
                0 <= i < k ==> {
                    &&& (#[trigger] targets@[i]).name@ == lock@.1[i].0
                    &&& targets@[i].dependency@ == lock@.1[i].1
                    &&& opt_view(targets@[i].override_path) == override_for(o, lock@.1[i].0)
                },
        decreases lock.dependencies@.len() - k,
    {
        let (name, dependency) = &lock.dependencies[k];
        proof {
            assert(lock@.1[k as int] == (name@, dependency@));
        }
        let target = SyncTarget {
            name: name.clone(),
            dependency: dependency.clone(),
            override_path: override_path(overrides, name.as_str()),
        };
        targets.push(target);
        k = k + 1;
    }
    Ok(targets)
}

/// Recording a full object id as a dependency's locked revision keeps a
/// valid lock valid: the write after `update` or `pin` never produces a lock
/// that the next read would refuse.
pub proof fn law_locked_revision_keeps_lock_valid(lock: LockView, k: int, revision: Seq<char>)
    requires
        lock_valid(lock),
        0 <= k < lock.1.len(),
        revision_valid(revision),
    ensures
        lock_valid(with_revision(lock, k, revision)),
{
    let after = with_revision(lock, k, revision);
    assert forall|i: int| 0 <= i < after.1.len() implies crate::deps::dependency_valid(
        #[trigger] after.1[i].0,
        after.1[i].1,
    ) by {
        assert(crate::deps::dependency_valid(lock.1[i].0, lock.1[i].1));
    }
    law_revision_update_keeps_order(lock, k, revision);
}

} // verus!
