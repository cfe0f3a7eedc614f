use vstd::prelude::*;

use crate::deps::{Error, CONFIG_FILE};
use crate::text::{decimal, seq_contains, str_equal, str_trim, trim, u32_text};

verus! {

/// The validation command of one dependency, per platform; each command is
/// a program followed by its arguments.
#[derive(Debug)]
pub struct ValidationHook {
    pub windows: Option<Vec<String>>,
    pub unix: Option<Vec<String>>,
    pub command: Option<Vec<String>>,
}

/// A command as character sequences.
pub open spec fn command_view(c: Option<Vec<String>>) -> Option<Seq<Seq<char>>> {
    match c {
        Some(v) => Some(v@.map_values(|a: String| a@)),
        None => None,
    }
}

/// The model of a hook: its Windows, Unix and general commands.
pub type HookView = (Option<Seq<Seq<char>>>, Option<Seq<Seq<char>>>, Option<Seq<Seq<char>>>);

impl View for ValidationHook {
    type V = HookView;

    open spec fn view(&self) -> HookView {
        (command_view(self.windows), command_view(self.unix), command_view(self.command))
    }
}

/// The platforms' entries of a per-platform setting.
#[derive(Debug)]
pub struct PlatformTools {
    pub windows: Vec<String>,
    pub macos: Vec<String>,
    pub linux: Vec<String>,
}

/// A path per platform, where one is configured.
#[derive(Debug)]
pub struct PlatformPaths {
    pub windows: Option<String>,
    pub macos: Option<String>,
    pub linux: Option<String>,
}

/// What the doctor checks: tools needed everywhere and per platform, the
/// library per platform and the ABI version to request.
#[derive(Debug)]
pub struct DiagnosticsConfig {
    pub required_tools: Vec<String>,
    pub platform_tools: PlatformTools,
    pub caliber_library: PlatformPaths,
    pub requested_abi: u32,
}

/// The project configuration: its schema, the validation hooks by
/// dependency name and the diagnostics settings. The hooks are read from an
/// ordered map, so each name comes once, in name order; the lookup here takes
/// the first hook of a name.
#[derive(Debug)]
pub struct ProjectConfig {
    pub schema: u32,
    pub validation: Vec<(String, ValidationHook)>,
    pub diagnostics: Option<DiagnosticsConfig>,
}

/// The only supported project configuration schema.
pub const CONFIG_SCHEMA: u32 = 1;

/// `s` with every occurrence of `from`, scanned from the left and not
/// overlapping, replaced by `to`.
pub open spec fn replace_all(s: Seq<char>, from: Seq<char>, to: Seq<char>) -> Seq<char>
    decreases s.len(),
{
    if from.len() == 0 || s.len() < from.len() {
        s
    } else if s.subrange(0, from.len() as int) == from {
        to + replace_all(s.subrange(from.len() as int, s.len() as int), from, to)
    } else {
        seq![s[0]] + replace_all(s.drop_first(), from, to)
    }
}

/// Returns `s` with every `from` replaced by `to`, as `str::replace` does.
///
/// Trusted: std documents that all matches of the pattern are replaced; for
/// a non-empty pattern they are found from the left without overlap.
#[verifier::external_body]
fn str_replace(s: &str, from: &str, to: &str) -> (r: String)
    requires
        from@.len() > 0,
    ensures
        r@ == replace_all(s@, from@, to@),
{
    s.replace(from, to)
}

/// `{candidate}`.
pub open spec fn candidate_mark() -> Seq<char> {
    seq!['{', 'c', 'a', 'n', 'd', 'i', 'd', 'a', 't', 'e', '}']
}

/// `{revision}`.
pub open spec fn revision_mark() -> Seq<char> {
    seq!['{', 'r', 'e', 'v', 'i', 's', 'i', 'o', 'n', '}']
}

/// `{dependency}`.
pub open spec fn dependency_mark() -> Seq<char> {
    seq!['{', 'd', 'e', 'p', 'e', 'n', 'd', 'e', 'n', 'c', 'y', '}']
}

/// A hook argument with `{candidate}`, then `{revision}`, then
/// `{dependency}` filled in.
pub open spec fn expand_argument(
    arg: Seq<char>,
    candidate: Seq<char>,
    revision: Seq<char>,
    name: Seq<char>,
) -> Seq<char> {
    replace_all(
        replace_all(replace_all(arg, candidate_mark(), candidate), revision_mark(), revision),
        dependency_mark(),
        name,
    )
}

/// Text without `from` is left as it is.
pub proof fn lemma_replace_absent(s: Seq<char>, from: Seq<char>, to: Seq<char>)
    requires
        !seq_contains(s, from),
    ensures
        replace_all(s, from, to) == s,
    decreases s.len(),
{
    if from.len() == 0 {
        assert(s.subrange(0, 0) =~= from);
    } else if s.len() >= from.len() {
        if s.subrange(0, from.len() as int) == from {
            assert(s.subrange(0, 0int + from.len()) == from);
            assert(seq_contains(s, from));
        }
        let rest = s.drop_first();
        assert forall|i: int| 0 <= i && i + from.len() <= rest.len() implies #[trigger] rest.subrange(
            i,
            i + from.len(),
        ) != from by {
            assert(rest.subrange(i, i + from.len()) =~= s.subrange(i + 1, i + 1 + from.len()));
        }
        lemma_replace_absent(rest, from, to);
        assert(seq![s[0]] + rest =~= s);
    }
}

/// Text that is exactly `from` becomes `to`.
pub proof fn lemma_replace_whole(from: Seq<char>, to: Seq<char>)
    requires
        from.len() > 0,
    ensures
        replace_all(from, from, to) == to,
{
    assert(from.subrange(0, from.len() as int) =~= from);
    assert(from.subrange(from.len() as int, from.len() as int) =~= Seq::<char>::empty());
    assert(replace_all(Seq::<char>::empty(), from, to) == Seq::<char>::empty());
    assert(to + Seq::<char>::empty() =~= to);
}

/// An argument without placeholders is passed on unchanged.
pub proof fn law_plain_argument_unchanged(arg: Seq<char>, candidate: Seq<char>, revision: Seq<char>, name: Seq<char>)
    requires
        !seq_contains(arg, candidate_mark()),
        !seq_contains(arg, revision_mark()),
        !seq_contains(arg, dependency_mark()),
    ensures
        expand_argument(arg, candidate, revision, name) == arg,
{
    lemma_replace_absent(arg, candidate_mark(), candidate);
    lemma_replace_absent(arg, revision_mark(), revision);
    lemma_replace_absent(arg, dependency_mark(), name);
}

/// Each placeholder on its own becomes its value: `{candidate}` the
/// candidate checkout, `{revision}` the revision and `{dependency}` the
/// dependency's name (where a value does not itself hold a later
/// placeholder, which would be filled in too).
pub proof fn law_placeholders_filled(candidate: Seq<char>, revision: Seq<char>, name: Seq<char>)
    ensures
        !seq_contains(candidate, revision_mark()) && !seq_contains(candidate, dependency_mark())
            ==> expand_argument(candidate_mark(), candidate, revision, name) == candidate,
        !seq_contains(revision, dependency_mark()) ==> expand_argument(
            revision_mark(),
            candidate,
            revision,
            name,
        ) == revision,
        expand_argument(dependency_mark(), candidate, revision, name) == name,
{
    lemma_replace_whole(candidate_mark(), candidate);
    if !seq_contains(candidate, revision_mark()) && !seq_contains(candidate, dependency_mark()) {
        lemma_replace_absent(candidate, revision_mark(), revision);
        lemma_replace_absent(candidate, dependency_mark(), name);
    }
    assert(replace_all(revision_mark(), candidate_mark(), candidate) == revision_mark());
    lemma_replace_whole(revision_mark(), revision);
    if !seq_contains(revision, dependency_mark()) {
        lemma_replace_absent(revision, dependency_mark(), name);
    }
    let d = dependency_mark();
    assert forall|i: int| 0 <= i && i + candidate_mark().len() <= d.len() implies #[trigger] d.subrange(
        i,
        i + candidate_mark().len(),
    ) != candidate_mark() by {
        if i == 0 {
            assert(d.subrange(i, i + candidate_mark().len())[1] != candidate_mark()[1]);
        } else {
            assert(d.subrange(i, i + candidate_mark().len())[0] != candidate_mark()[0]);
        }
    }
    lemma_replace_absent(d, candidate_mark(), candidate);
    assert forall|i: int| 0 <= i && i + revision_mark().len() <= d.len() implies #[trigger] d.subrange(
        i,
        i + revision_mark().len(),
    ) != revision_mark() by {
        if i == 0 {
            assert(d.subrange(i, i + revision_mark().len())[1] != revision_mark()[1]);
        } else {
            assert(d.subrange(i, i + revision_mark().len())[0] != revision_mark()[0]);
        }
    }
    lemma_replace_absent(d, revision_mark(), revision);
    lemma_replace_whole(d, name);
}

/// The hook of the first entry named `name`, if any.
pub open spec fn hook_for(hooks: Seq<(Seq<char>, HookView)>, name: Seq<char>) -> Option<HookView> {
    if exists|k: int| 0 <= k < hooks.len() && hooks[k].0 == name {
        Some(
            hooks[choose|k: int|
                0 <= k < hooks.len() && hooks[k].0 == name && forall|j: int|
                    0 <= j < k ==> hooks[j].0 != name].1,
        )
    } else {
        None
    }
}

/// The hooks as names and models.
pub open spec fn hook_views(v: Seq<(String, ValidationHook)>) -> Seq<(Seq<char>, HookView)> {
    v.map_values(|e: (String, ValidationHook)| (e.0@, e.1@))
}

/// The command a hook gives for the platform: its Windows or Unix command,
/// else its general one.
pub open spec fn platform_command(h: HookView, windows: bool) -> Option<Seq<Seq<char>>> {
    let specific = if windows {
        h.0
    } else {
        h.1
    };
    if specific is Some {
        specific
    } else {
        h.2
    }
}

/// The platform's own command is the one used: the Windows command on
/// Windows and the Unix command elsewhere, whenever the hook has one; the
/// general command is used only when the platform's is absent.
pub proof fn law_platform_command_preferred(h: HookView, windows: bool)
    ensures
        windows && h.0 is Some ==> platform_command(h, windows) == h.0,
        !windows && h.1 is Some ==> platform_command(h, windows) == h.1,
        windows && h.0 is None ==> platform_command(h, windows) == h.2,
        !windows && h.1 is None ==> platform_command(h, windows) == h.2,
{
}

/// With the supported schema, a hook for `name` whose command for the
/// platform has a program that is not blank is the command invoked, whatever
/// general command the hook also has.
pub proof fn law_platform_hook_is_invoked(
    hooks: Seq<(Seq<char>, HookView)>,
    name: Seq<char>,
    windows: bool,
    h: HookView,
    c: Seq<Seq<char>>,
)
    requires
        hook_for(hooks, name) == Some(h),
        (if windows {
            h.0
        } else {
            h.1
        }) == Some(c),
        c.len() > 0,
        trim(c[0]).len() > 0,
    ensures
        hook_command(CONFIG_SCHEMA, hooks, name, windows) == Ok::<Seq<Seq<char>>, Seq<char>>(c),
{
}

/// Why no command is invoked, in the order the configuration is checked:
/// another schema, then no hook for `name`, then no command for the platform
/// and no general one, then a blank program.
pub proof fn law_hook_refusals(
    schema: u32,
    hooks: Seq<(Seq<char>, HookView)>,
    name: Seq<char>,
    windows: bool,
)
    ensures
        schema != CONFIG_SCHEMA ==> hook_command(schema, hooks, name, windows) == Err::<
            Seq<Seq<char>>,
            Seq<char>,
        >(unsupported_config_text(schema)),
        schema == CONFIG_SCHEMA && hook_for(hooks, name) is None ==> hook_command(
            schema,
            hooks,
            name,
            windows,
        ) == Err::<Seq<Seq<char>>, Seq<char>>(missing_hook_text(name)),
        schema == CONFIG_SCHEMA && (hook_for(hooks, name) matches Some(h) && (if windows {
            h.0
        } else {
            h.1
        }) is None && h.2 is None) ==> hook_command(schema, hooks, name, windows) == Err::<
            Seq<Seq<char>>,
            Seq<char>,
        >(missing_platform_command_text(name)),
        hook_command(schema, hooks, name, windows) matches Ok(c) ==> (c.len() > 0 && trim(c[0]).len()
            > 0 && schema == CONFIG_SCHEMA && (hook_for(hooks, name) matches Some(h) && (h.0 == Some(c)
            || h.1 == Some(c) || h.2 == Some(c)))),
{
}

/// The message for a project configuration of another schema.
pub open spec fn unsupported_config_text(schema: u32) -> Seq<char> {
    "malformed project config: unsupported schema "@ + decimal(schema as nat)
}

/// The message for a dependency without a validation hook.
pub open spec fn missing_hook_text(name: Seq<char>) -> Seq<char> {
    "validation hook required: "@ + CONFIG_FILE@ + " has no validation command for "@ + name
}

/// The message for a hook without a command for the platform.
pub open spec fn missing_platform_command_text(name: Seq<char>) -> Seq<char> {
    "validation hook required: "@ + CONFIG_FILE@ + " has no command for this platform and "@
        + name
}

/// The message for a hook whose command has no program.
pub open spec fn empty_command_text(name: Seq<char>) -> Seq<char> {
    "malformed validation hook for "@ + name + ": command must not be empty"@
}

/// The command to run for `name`, or the message that says why the
/// configuration has no usable one: another schema, no hook for `name`, no
/// command for the platform, or a blank program, checked in that order.
pub open spec fn hook_command(
    schema: u32,
    hooks: Seq<(Seq<char>, HookView)>,
    name: Seq<char>,
    windows: bool,
) -> Result<Seq<Seq<char>>, Seq<char>> {
    if schema != CONFIG_SCHEMA {
        Err(unsupported_config_text(schema))
    } else {
        match hook_for(hooks, name) {
            Some(h) => match platform_command(h, windows) {
                Some(c) => if c.len() > 0 && trim(c[0]).len() > 0 {
                    Ok(c)
                } else {
                    Err(empty_command_text(name))
                },
                None => Err(missing_platform_command_text(name)),
            },
            None => Err(missing_hook_text(name)),
        }
    }
}

fn unsupported_config_message(schema: u32) -> (r: String)
    ensures
        r@ == unsupported_config_text(schema),
{
    let mut text = String::from_str("malformed project config: unsupported schema ");
    text.append(u32_text(schema).as_str());
    text
}

fn missing_hook_message(name: &str) -> (r: String)
    ensures
        r@ == missing_hook_text(name@),
{
    let mut text = String::from_str("validation hook required: ");
    text.append(CONFIG_FILE);
    text.append(" has no validation command for ");
    text.append(name);
    text
}

fn missing_platform_command_message(name: &str) -> (r: String)
    ensures
        r@ == missing_platform_command_text(name@),
{
    let mut text = String::from_str("validation hook required: ");
    text.append(CONFIG_FILE);
    text.append(" has no command for this platform and ");
    text.append(name);
    text
}

fn empty_command_message(name: &str) -> (r: String)
    ensures
        r@ == empty_command_text(name@),
{
    let mut text = String::from_str("malformed validation hook for ");
    text.append(name);
    text.append(": command must not be empty");
    text
}

/// Checks the project configuration's schema.
pub fn check_config_schema(schema: u32) -> (r: Result<(), Error>)
    ensures
        r is Ok <==> schema == CONFIG_SCHEMA,
        r matches Err(e) ==> e@ == unsupported_config_text(schema),
{
    if schema != CONFIG_SCHEMA {
        Err(Error::new(unsupported_config_message(schema)))
    } else {
        Ok(())
    }
}

proof fn lemma_hook_for(hooks: Seq<(Seq<char>, HookView)>, name: Seq<char>, k: int)
    requires
        0 <= k < hooks.len(),
        hooks[k].0 == name,
        forall|j: int| 0 <= j < k ==> hooks[j].0 != name,
    ensures
        hook_for(hooks, name) == Some(hooks[k].1),
{
    let c = choose|c: int|
        0 <= c < hooks.len() && hooks[c].0 == name && forall|j: int|
            0 <= j < c ==> hooks[j].0 != name;
    assert(0 <= c < hooks.len() && hooks[c].0 == name && forall|j: int|
        0 <= j < c ==> hooks[j].0 != name);
    if c < k {
        assert(hooks[c].0 != name);
    } else if k < c {
        assert(hooks[k].0 != name);
    }
}

/// The hook configured for `name`, if any.
fn find_hook<'a>(hooks: &'a Vec<(String, ValidationHook)>, name: &str) -> (r: Option<
    &'a ValidationHook,
>)
    ensures
        match hook_for(hook_views(hooks@), name@) {
            Some(h) => r matches Some(x) && x@ == h,
            None => r is None,
        },
{
    let ghost v = hook_views(hooks@);
    let mut i: usize = 0;
    while i < hooks.len()
        invariant
            v == hook_views(hooks@),
            v.len() == hooks@.len(),
            i <= hooks@.len(),
            forall|j: int| 0 <= j < i ==> v[j].0 != name@,
        decreases hooks@.len() - i,
    {
        proof {
            assert(v[i as int] == (hooks@[i as int].0@, hooks@[i as int].1@));
        }
        if str_equal(hooks[i].0.as_str(), name) {
            proof {
                lemma_hook_for(v, name@, i as int);
            }
            return Some(&hooks[i].1);
        }
        i = i + 1;
    }
    None
}

/// Fills in one hook argument.
pub fn expand_hook_argument(arg: &str, candidate: &str, revision: &str, name: &str) -> (r: String)
    ensures
        r@ == expand_argument(arg@, candidate@, revision@, name@),
{
    proof {
        reveal_strlit("{candidate}");
        reveal_strlit("{revision}");
        reveal_strlit("{dependency}");
        assert("{candidate}"@ == candidate_mark());
        assert("{revision}"@ == revision_mark());
        assert("{dependency}"@ == dependency_mark());
    }
    let a = str_replace(arg, "{candidate}", candidate);
    let b = str_replace(a.as_str(), "{revision}", revision);
    str_replace(b.as_str(), "{dependency}", name)
}

/// The program and arguments that validate a candidate revision of the
/// dependency `name`: the configuration must have the supported schema, a
/// hook for `name`, a command for the platform (`windows` or Unix, else the
/// general one) and a program that is not blank. The arguments have
/// `{candidate}`, `{revision}` and `{dependency}` filled in.
pub fn hook_invocation(
    config: &ProjectConfig,
    name: &str,
    windows: bool,
    candidate: &str,
    revision: &str,
) -> (r: Result<(String, Vec<String>), Error>)
    ensures
        match hook_command(config.schema, hook_views(config.validation@), name@, windows) {
            Ok(c) => r matches Ok((program, args)) && program@ == c[0] && args@.len() == c.len()
                - 1 && forall|i: int|
                0 <= i < args@.len() ==> (#[trigger] args@[i])@ == expand_argument(
                    c[i + 1],
                    candidate@,
                    revision@,
                    name@,
                ),
            Err(m) => r matches Err(e) && e@ == m,
        },
{
    match check_config_schema(config.schema) {
        Ok(()) => {},
        Err(e) => {
            return Err(e);
        },
    }
    let hook = match find_hook(&config.validation, name) {
        Some(h) => h,
        None => {
            return Err(Error::new(missing_hook_message(name)));
        },
    };
    let specific = if windows {
        &hook.windows
    } else {
        &hook.unix
    };
    let command = match specific {
        Some(c) => c,
        None => match &hook.command {
            Some(c) => c,
            None => {
                return Err(Error::new(missing_platform_command_message(name)));
            },
        },
    };
    let ghost c = command@.map_values(|a: String| a@);
    proof {
        assert(platform_command(hook@, windows) == Some(c));
    }
    if command.len() == 0 || str_trim(command[0].as_str()).is_empty() {
        return Err(Error::new(empty_command_message(name)));
    }
    proof {
        assert(c[0] == command@[0]@);
    }
    let program = command[0].clone();
    let mut args: Vec<String> = Vec::new();
    let mut i: usize = 1;
    while i < command.len()
        invariant
            c == command@.map_values(|a: String| a@),
            1 <= i <= command@.len(),
            args@.len() == i - 1,
            forall|j: int|
                0 <= j < args@.len() ==> (#[trigger] args@[j])@ == expand_argument(
                    c[j + 1],
                    candidate@,
                    revision@,
                    name@,
                ),
        decreases command@.len() - i,
    {
        proof {
            assert(c[i as int] == command@[i as int]@);
        }
        args.push(expand_hook_argument(command[i].as_str(), candidate, revision, name));
        i = i + 1;
    }
    Ok((program, args))
}

} // verus!
