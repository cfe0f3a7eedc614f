use vstd::prelude::*;

use crate::text::{
    ascii_lower, debug_quoted, decimal, lemma_starts_with_concat, lemma_starts_with_extends,
    quoted_text, u32_text, ascii_lowercase, is_white_space, seq_contains, seq_starts_with, str_contains,
    str_equal, str_starts_with, str_trim, trim,
};

verus! {

/// The lock file's name in the project root.
pub const LOCK_FILE: &'static str = "dependencies.lock.json";

/// The project configuration's name in the project root.
pub const CONFIG_FILE: &'static str = "caliber.config.json";

/// The lock format's schema version.
pub const LOCK_SCHEMA: u32 = 1;

#[verifier::external_type_specification]
#[verifier::external_body]
pub struct ExPathBuf(std::path::PathBuf);

/// An error of the dependency tool, carrying its message.
#[derive(Debug)]
pub struct Error(String);

impl View for Error {
    type V = Seq<char>;

    closed spec fn view(&self) -> Seq<char> {
        self.0@
    }
}

impl Error {
    /// Creates an error with `message`.
    pub fn new(message: String) -> (e: Self)
        ensures
            e@ == message@,
    {
        Error(message)
    }

    /// Returns the error's message.
    pub fn message(&self) -> (m: &str)
        ensures
            m@ == self@,
    {
        self.0.as_str()
    }
}

/// One locked dependency: its Git repository, an optional tracked ref, and
/// the full object id of the locked revision.
#[derive(Debug)]
pub struct Dependency {
    pub repository: String,
    pub tracked_ref: Option<String>,
    pub revision: String,
}

/// The model of a dependency: repository, tracked ref and revision.
pub type DependencyView = (Seq<char>, Option<Seq<char>>, Seq<char>);

impl View for Dependency {
    type V = DependencyView;

    open spec fn view(&self) -> DependencyView {
        (self.repository@, match self.tracked_ref {
            Some(r) => Some(r@),
            None => None,
        }, self.revision@)
    }
}

impl Clone for Dependency {
    fn clone(&self) -> (c: Self)
        ensures
            c@ == self@,
    {
        Dependency {
            repository: self.repository.clone(),
            tracked_ref: match &self.tracked_ref {
                Some(r) => Some(r.clone()),
                None => None,
            },
            revision: self.revision.clone(),
        }
    }
}

/// The dependency lock: a schema version and the dependencies by name, in
/// name order, each name once. A lock read from its file comes from an
/// ordered map, so its names ascend (`names_ascending`); the operations here
/// keep that order and take the first entry of a name as its entry.
#[derive(Debug)]
pub struct LockFile {
    pub schema: u32,
    pub dependencies: Vec<(String, Dependency)>,
}

/// The model of a lock: schema and named dependencies.
pub type LockView = (u32, Seq<(Seq<char>, DependencyView)>);

impl View for LockFile {
    type V = LockView;

    open spec fn view(&self) -> LockView {
        (self.schema, self.dependencies@.map_values(|e: (String, Dependency)| (e.0@, e.1@)))
    }
}

/// Whether `a` comes before `b` in the order of Rust strings, comparing from
/// position `i` on: the first differing character decides, and a proper
/// prefix comes first.
pub open spec fn name_before_from(a: Seq<char>, b: Seq<char>, i: int) -> bool
    decreases a.len() - i,
{
    if i < 0 || i >= a.len() {
        0 <= i < b.len()
    } else if i >= b.len() {
        false
    } else if a[i] != b[i] {
        (a[i] as u32) < (b[i] as u32)
    } else {
        name_before_from(a, b, i + 1)
    }
}

/// Whether name `a` comes before name `b` in the order of Rust strings (the
/// order of a `BTreeMap<String, _>`'s keys).
pub open spec fn name_before(a: Seq<char>, b: Seq<char>) -> bool {
    name_before_from(a, b, 0)
}

/// Whether `a` comes before `b` in the order of Rust strings.
pub fn name_less(a: &str, b: &str) -> (r: bool)
    ensures
        r == name_before(a@, b@),
{
    let n = a.unicode_len();
    let m = b.unicode_len();
    let mut i: usize = 0;
    while i < n && i < m
        invariant
            n == a@.len(),
            m == b@.len(),
            i <= n,
            i <= m,
            name_before(a@, b@) == name_before_from(a@, b@, i as int),
        decreases n - i,
    {
        let x = a.get_char(i);
        let y = b.get_char(i);
        if x != y {
            return (x as u32) < (y as u32);
        }
        i = i + 1;
    }
    i < m
}

/// Whether the lock names its dependencies in strictly ascending order, as
/// the keys of an ordered map come.
pub open spec fn names_ascending(l: LockView) -> bool {
    forall|i: int, j: int| 0 <= i < j < l.1.len() ==> name_before(#[trigger] l.1[i].0, #[trigger] l.1[j].0)
}

/// No name comes before itself, comparing from any position.
pub proof fn lemma_name_before_irreflexive(a: Seq<char>, i: int)
    requires
        0 <= i,
    ensures
        !name_before_from(a, a, i),
    decreases a.len() - i,
{
    if i < a.len() {
        lemma_name_before_irreflexive(a, i + 1);
    }
}

/// The order of names is transitive.
pub proof fn lemma_name_before_transitive(a: Seq<char>, b: Seq<char>, c: Seq<char>, i: int)
    requires
        0 <= i,
        name_before_from(a, b, i),
        name_before_from(b, c, i),
    ensures
        name_before_from(a, c, i),
    decreases a.len() - i,
{
    if i < a.len() && i < b.len() && i < c.len() && a[i] == b[i] && b[i] == c[i] {
        lemma_name_before_transitive(a, b, c, i + 1);
    }
}

/// A lock whose names ascend names each dependency once.
pub proof fn law_ascending_names_distinct(l: LockView)
    requires
        names_ascending(l),
    ensures
        forall|i: int, j: int| 0 <= i < j < l.1.len() ==> l.1[i].0 != l.1[j].0,
{
    assert forall|i: int, j: int| 0 <= i < j < l.1.len() implies l.1[i].0 != l.1[j].0 by {
        assert(name_before(l.1[i].0, l.1[j].0));
        lemma_name_before_irreflexive(l.1[i].0, 0);
    }
}

/// Whether a managed checkout matches its lock entry.
#[derive(Clone, Copy, Debug, Eq, PartialEq, Structural)]
pub enum SyncState {
    Synchronized,
    Missing,
    Mismatched,
}

/// The local status of one locked dependency.
#[derive(Debug)]
pub struct StatusEntry {
    pub name: String,
    pub revision: String,
    pub path: std::path::PathBuf,
    pub head: Option<String>,
    pub dirty: Option<bool>,
    pub state: SyncState,
    pub detail: Option<String>,
}

/// Whether a byte may appear in a dependency name: an ASCII letter or digit,
/// `-` or `_`.
pub open spec fn name_byte(b: u8) -> bool {
    (48u8 <= b && b <= 57u8) || (65u8 <= b && b <= 90u8) || (97u8 <= b && b <= 122u8) || b == 45u8
        || b == 95u8
}

/// Whether a byte is an ASCII hexadecimal digit.
pub open spec fn hex_byte(b: u8) -> bool {
    (48u8 <= b && b <= 57u8) || (65u8 <= b && b <= 70u8) || (97u8 <= b && b <= 102u8)
}

/// The UTF-8 bytes of `s`.
pub open spec fn utf8(s: Seq<char>) -> Seq<u8> {
    vstd::utf8::encode_utf8(s)
}

/// Whether `s` is a valid dependency name: non-empty, of letters, digits,
/// `-` and `_` only.
pub open spec fn name_valid(s: Seq<char>) -> bool {
    s.len() > 0 && forall|i: int| 0 <= i < utf8(s).len() ==> name_byte(#[trigger] utf8(s)[i])
}

/// Whether `s` is a full Git object id: 40 or 64 hexadecimal digits.
pub open spec fn revision_valid(s: Seq<char>) -> bool {
    (utf8(s).len() == 40 || utf8(s).len() == 64) && forall|i: int|
        0 <= i < utf8(s).len() ==> hex_byte(#[trigger] utf8(s)[i])
}

/// Whether a named lock entry is valid: a valid name, a repository that is
/// not blank, a full revision, and no blank tracked ref.
pub open spec fn dependency_valid(name: Seq<char>, d: DependencyView) -> bool {
    &&& name_valid(name)
    &&& trim(d.0).len() > 0
    &&& revision_valid(d.2)
    &&& (d.1 matches Some(r) ==> trim(r).len() > 0)
}

/// Whether a lock is valid: the supported schema, at least one dependency,
/// every entry valid, and the names in strictly ascending order, as the keys
/// of the ordered map the lock is read into.
pub open spec fn lock_valid(l: LockView) -> bool {
    &&& l.0 == LOCK_SCHEMA
    &&& l.1.len() > 0
    &&& forall|i: int| 0 <= i < l.1.len() ==> dependency_valid(#[trigger] l.1[i].0, l.1[i].1)
    &&& names_ascending(l)
}

fn all_bytes_match_name(bytes: &[u8]) -> (r: bool)
    ensures
        r == forall|i: int| 0 <= i < bytes@.len() ==> name_byte(#[trigger] bytes@[i]),
{
    let mut i: usize = 0;
    while i < bytes.len()
        invariant
            i <= bytes@.len(),
            forall|j: int| 0 <= j < i ==> name_byte(#[trigger] bytes@[j]),
        decreases bytes@.len() - i,
    {
        let b = bytes[i];
        if !((48u8 <= b && b <= 57u8) || (65u8 <= b && b <= 90u8) || (97u8 <= b && b <= 122u8) || b
            == 45u8 || b == 95u8) {
            return false;
        }
        i = i + 1;
    }
    true
}

fn all_bytes_hex(bytes: &[u8]) -> (r: bool)
    ensures
        r == forall|i: int| 0 <= i < bytes@.len() ==> hex_byte(#[trigger] bytes@[i]),
{
    let mut i: usize = 0;
    while i < bytes.len()
        invariant
            i <= bytes@.len(),
            forall|j: int| 0 <= j < i ==> hex_byte(#[trigger] bytes@[j]),
        decreases bytes@.len() - i,
    {
        let b = bytes[i];
        if !((48u8 <= b && b <= 57u8) || (65u8 <= b && b <= 70u8) || (97u8 <= b && b <= 102u8)) {
            return false;
        }
        i = i + 1;
    }
    true
}

/// The message for an invalid dependency name.
pub open spec fn invalid_name_text(name: Seq<char>) -> Seq<char> {
    "invalid dependency name "@ + debug_quoted(name) + "; use letters, digits, '-' or '_'"@
}

/// The message for a revision that is not a full object id.
pub open spec fn invalid_revision_text(revision: Seq<char>) -> Seq<char> {
    "revision must be a full 40- or 64-character Git object ID: "@ + debug_quoted(revision)
}

/// The message for a lock of another schema.
pub open spec fn unsupported_schema_text(schema: u32) -> Seq<char> {
    "malformed lock: "@ + "schema "@ + decimal(schema as nat) + " is unsupported (expected "@ + decimal(
        LOCK_SCHEMA as nat,
    ) + ")"@
}

fn invalid_name_message(name: &str) -> (r: String)
    ensures
        r@ == invalid_name_text(name@),
{
    let mut text = String::from_str("invalid dependency name ");
    text.append(quoted_text(name).as_str());
    text.append("; use letters, digits, '-' or '_'");
    text
}

fn invalid_revision_message(revision: &str) -> (r: String)
    ensures
        r@ == invalid_revision_text(revision@),
{
    let mut text = String::from_str("revision must be a full 40- or 64-character Git object ID: ");
    text.append(quoted_text(revision).as_str());
    text
}

fn unsupported_schema_message(schema: u32) -> (r: String)
    ensures
        r@ == unsupported_schema_text(schema),
{
    let mut text = String::from_str("malformed lock: ");
    text.append("schema ");
    text.append(u32_text(schema).as_str());
    text.append(" is unsupported (expected ");
    text.append(u32_text(LOCK_SCHEMA).as_str());
    text.append(")");
    text
}

fn lock_entry_message(name: &str, problem: &str) -> (r: String)
    ensures
        r@ == "malformed lock: "@ + name@ + " "@ + problem@,
        seq_starts_with(r@, "malformed lock: "@),
{
    proof {
        let a = "malformed lock: "@;
        lemma_starts_with_concat(a, name@);
        lemma_starts_with_extends(a + name@, a, " "@);
        lemma_starts_with_extends(a + name@ + " "@, a, problem@);
    }
    let mut text = String::from_str("malformed lock: ");
    text.append(name);
    text.append(" ");
    text.append(problem);
    text
}

fn prefixed_message(prefix: &str, error: &str) -> (r: String)
    ensures
        r@ == prefix@ + error@,
        seq_starts_with(r@, prefix@),
{
    proof {
        lemma_starts_with_concat(prefix@, error@);
    }
    let mut text = String::from_str(prefix);
    text.append(error);
    text
}

/// Checks a dependency name: non-empty, of ASCII letters, digits, `-` and
/// `_` only.
pub fn validate_name(name: &str) -> (r: Result<(), Error>)
    ensures
        r is Ok <==> name_valid(name@),
        r matches Err(e) ==> e@ == invalid_name_text(name@),
{
    let bytes = name.as_bytes();
    proof {
        assert(bytes@ == utf8(name@));
    }
    if name.is_empty() || !all_bytes_match_name(bytes) {
        return Err(Error::new(invalid_name_message(name)));
    }
    Ok(())
}

/// Checks that a revision is a full 40- or 64-digit hexadecimal object id.
pub fn validate_revision(revision: &str) -> (r: Result<(), Error>)
    ensures
        r is Ok <==> revision_valid(revision@),
        r matches Err(e) ==> e@ == invalid_revision_text(revision@),
{
    let bytes = revision.as_bytes();
    proof {
        assert(bytes@ == utf8(revision@));
    }
    if !(bytes.len() == 40 || bytes.len() == 64) || !all_bytes_hex(bytes) {
        return Err(Error::new(invalid_revision_message(revision)));
    }
    Ok(())
}

/// Checks a lock: the supported schema, at least one dependency, and for
/// each dependency in order a valid name, a repository, a full revision and
/// no blank tracked ref. The first problem found is reported.
pub fn validate_lock(lock: &LockFile) -> (r: Result<(), Error>)
    ensures
        r is Ok <==> lock_valid(lock@),
        r matches Err(e) ==> seq_starts_with(e@, "malformed lock: "@),
        lock@.0 != LOCK_SCHEMA ==> (r matches Err(e) && e@ == unsupported_schema_text(lock@.0)),
        lock@.0 == LOCK_SCHEMA && lock@.1.len() == 0 ==> (r matches Err(e) && e@
            == "malformed lock: "@ + "no dependencies are defined"@),
{
    if lock.schema != LOCK_SCHEMA {
        proof {
            let a = "malformed lock: "@;
            lemma_starts_with_concat(a, "schema "@);
            lemma_starts_with_extends(a + "schema "@, a, decimal(lock.schema as nat));
            lemma_starts_with_extends(
                a + "schema "@ + decimal(lock.schema as nat),
                a,
                " is unsupported (expected "@,
            );
            lemma_starts_with_extends(
                a + "schema "@ + decimal(lock.schema as nat) + " is unsupported (expected "@,
                a,
                decimal(LOCK_SCHEMA as nat),
            );
            lemma_starts_with_extends(
                a + "schema "@ + decimal(lock.schema as nat) + " is unsupported (expected "@
                    + decimal(LOCK_SCHEMA as nat),
                a,
                ")"@,
            );
        }
        return Err(Error::new(unsupported_schema_message(lock.schema)));
    }
    if lock.dependencies.len() == 0 {
        proof {
            lemma_starts_with_concat("malformed lock: "@, "no dependencies are defined"@);
        }
        return Err(Error::new(prefixed_message("malformed lock: ", "no dependencies are defined")));
    }
    let mut i: usize = 0;
    while i < lock.dependencies.len()
        invariant
            i <= lock.dependencies@.len(),
            lock@.0 == LOCK_SCHEMA,
            lock@.1.len() > 0,
            forall|j: int| 0 <= j < i ==> dependency_valid(#[trigger] lock@.1[j].0, lock@.1[j].1),
            forall|j: int, k: int|
                0 <= j < k < i ==> name_before(#[trigger] lock@.1[j].0, #[trigger] lock@.1[k].0),
        decreases lock.dependencies@.len() - i,
    {
        let (name, dependency) = &lock.dependencies[i];
        proof {
            assert(lock@.1[i as int] == (name@, dependency@));
        }
        match validate_name(name.as_str()) {
            Ok(()) => {},
            Err(error) => {
                proof {
                    assert(!dependency_valid(lock@.1[i as int].0, lock@.1[i as int].1));
                }
                return Err(Error::new(prefixed_message("malformed lock: ", error.message())));
            },
        }
        if str_trim(dependency.repository.as_str()).is_empty() {
            proof {
                assert(!dependency_valid(lock@.1[i as int].0, lock@.1[i as int].1));
            }
            return Err(Error::new(lock_entry_message(name.as_str(), "has no Git repository")));
        }
        match validate_revision(dependency.revision.as_str()) {
            Ok(()) => {},
            Err(error) => {
                proof {
                    assert(!dependency_valid(lock@.1[i as int].0, lock@.1[i as int].1));
                }
                return Err(Error::new(lock_entry_message(name.as_str(), error.message())));
            },
        }
        if let Some(ref_name) = &dependency.tracked_ref {
            if str_trim(ref_name.as_str()).is_empty() {
                proof {
                    assert(!dependency_valid(lock@.1[i as int].0, lock@.1[i as int].1));
                }
                return Err(Error::new(lock_entry_message(name.as_str(), "has an empty tracked ref")));
            }
        }
        if i > 0 {
            let previous = lock.dependencies[i - 1].0.as_str();
            proof {
                assert(lock@.1[i - 1].0 == previous@);
            }
            if !name_less(previous, name.as_str()) {
                proof {
                    assert(!name_before(lock@.1[i - 1].0, lock@.1[i as int].0));
                    assert(!names_ascending(lock@));
                }
                return Err(Error::new(lock_entry_message(name.as_str(), "is repeated or out of name order")));
            }
            proof {
                assert forall|j: int, k: int| 0 <= j < k < i + 1 implies name_before(
                    #[trigger] lock@.1[j].0,
                    #[trigger] lock@.1[k].0,
                ) by {
                    if k == i && j < i - 1 {
                        assert(name_before(lock@.1[j].0, lock@.1[i - 1].0));
                        lemma_name_before_transitive(lock@.1[j].0, lock@.1[i - 1].0, lock@.1[k].0, 0);
                    }
                }
            }
        }
        i = i + 1;
    }
    Ok(())
}

/// The word for a synchronization state.
pub open spec fn state_word(state: SyncState) -> Seq<char> {
    match state {
        SyncState::Synchronized => "synchronized"@,
        SyncState::Missing => "missing"@,
        SyncState::Mismatched => "mismatched"@,
    }
}

/// The word a report uses for a synchronization state.
pub fn sync_state_name(state: SyncState) -> (r: &'static str)
    ensures
        r@ == state_word(state),
{
    match state {
        SyncState::Synchronized => "synchronized",
        SyncState::Missing => "missing",
        SyncState::Mismatched => "mismatched",
    }
}

/// The word a report uses for a working tree: dirty, clean, or unknown
/// where it could not be inspected.
pub fn working_tree_name(dirty: Option<bool>) -> (r: &'static str)
    ensures
        dirty == Some(true) ==> r@ == "dirty"@,
        dirty == Some(false) ==> r@ == "clean"@,
        dirty is None ==> r@ == "unknown"@,
{
    match dirty {
        Some(true) => "dirty",
        Some(false) => "clean",
        None => "unknown",
    }
}

} // verus!
