use vstd::prelude::*;

use crate::text::{
    ascii_lower, seq_contains, seq_starts_with, str_contains, str_equal, str_starts_with, str_trim,
    trim,
};

verus! {

/// `ssh://git@`, the SSH URL prefix rewritten to HTTPS.
pub open spec fn ssh_git_prefix() -> Seq<char> {
    seq!['s', 's', 'h', ':', '/', '/', 'g', 'i', 't', '@']
}

/// `git@`, the prefix of an SCP-like Git address.
pub open spec fn scp_git_prefix() -> Seq<char> {
    seq!['g', 'i', 't', '@']
}

/// `https://`.
pub open spec fn https_prefix() -> Seq<char> {
    seq!['h', 't', 't', 'p', 's', ':', '/', '/']
}

/// `.git`.
pub open spec fn git_suffix() -> Seq<char> {
    seq!['.', 'g', 'i', 't']
}

/// `://`, the mark of a URL with a scheme.
pub open spec fn scheme_separator() -> Seq<char> {
    seq![':', '/', '/']
}

/// Whether `k` is the first position of `c` in `s`.
pub open spec fn is_first_index(s: Seq<char>, c: char, k: int) -> bool {
    0 <= k < s.len() && s[k] == c && forall|j: int| 0 <= j < k ==> s[j] != c
}

/// The first position of `c` in `s`; meaningful where `s` contains `c`.
pub open spec fn first_index(s: Seq<char>, c: char) -> int {
    choose|k: int| is_first_index(s, c, k)
}

/// An address with its SSH forms rewritten to HTTPS: `ssh://git@REST`
/// becomes `https://REST`, and `git@HOST:PATH` (split at the first `:`)
/// becomes `https://HOST/PATH`. Anything else is unchanged.
pub open spec fn https_form(t: Seq<char>) -> Seq<char> {
    if seq_starts_with(t, ssh_git_prefix()) {
        https_prefix() + t.subrange(10, t.len() as int)
    } else if seq_starts_with(t, scp_git_prefix()) && t.subrange(4, t.len() as int).contains(':') {
        let rest = t.subrange(4, t.len() as int);
        let k = first_index(rest, ':');
        https_prefix() + rest.subrange(0, k) + seq!['/'] + rest.subrange(k + 1, rest.len() as int)
    } else {
        t
    }
}

/// `s` without any trailing `/`.
pub open spec fn without_trailing_slashes(s: Seq<char>) -> Seq<char>
    decreases s.len(),
{
    if s.len() > 0 && s.last() == '/' {
        without_trailing_slashes(s.drop_last())
    } else {
        s
    }
}

/// `s` without one trailing `.git`.
pub open spec fn without_git_suffix(s: Seq<char>) -> Seq<char> {
    if s.len() >= 4 && s.subrange(s.len() - 4, s.len() as int) == git_suffix() {
        s.subrange(0, s.len() - 4)
    } else {
        s
    }
}

/// The form in which two repository addresses are compared: trimmed, SSH
/// forms rewritten to HTTPS, trailing `/` and one `.git` removed, and ASCII
/// letters lowered where the address has a scheme.
pub open spec fn normalized_repository(value: Seq<char>) -> Seq<char> {
    let w = without_git_suffix(without_trailing_slashes(https_form(trim(value))));
    if seq_contains(w, scheme_separator()) {
        ascii_lower(w)
    } else {
        w
    }
}

/// Lowers the ASCII letters of `s` in place, as `str::make_ascii_lowercase`
/// does.
///
/// Trusted: std documents that only ASCII `A`..`Z` change, to `a`..`z`.
#[verifier::external_body]
fn make_ascii_lowercase(s: &mut String)
    ensures
        final(s)@ == ascii_lower(old(s)@),
{
    s.make_ascii_lowercase()
}

/// The first position of `c` in `s`, if any.
pub(crate) fn find_char(s: &str, c: char) -> (r: Option<usize>)
    ensures
        match r {
            Some(k) => is_first_index(s@, c, k as int),
            None => !s@.contains(c),
        },
{
    let n = s.unicode_len();
    let mut i: usize = 0;
    while i < n
        invariant
            n == s@.len(),
            i <= n,
            forall|j: int| 0 <= j < i ==> s@[j] != c,
        decreases n - i,
    {
        if s.get_char(i) == c {
            return Some(i);
        }
        i = i + 1;
    }
    None
}

pub(crate) proof fn lemma_first_index_unique(s: Seq<char>, c: char, k: int)
    requires
        is_first_index(s, c, k),
    ensures
        first_index(s, c) == k,
{
    let f = first_index(s, c);
    assert(is_first_index(s, c, f));
    if f < k {
        assert(s[f] != c);
    } else if k < f {
        assert(s[k] != c);
    }
}

fn https_rewrite(t: &str) -> (r: String)
    ensures
        r@ == https_form(t@),
{
    proof {
        reveal_strlit("ssh://git@");
        reveal_strlit("git@");
        reveal_strlit("https://");
        reveal_strlit("/");
        assert("ssh://git@"@ == ssh_git_prefix());
        assert("git@"@ == scp_git_prefix());
        assert("https://"@ == https_prefix());
        assert("/"@ == seq!['/']);
    }
    let n = t.unicode_len();
    if str_starts_with(t, "ssh://git@") {
        let mut v = String::from_str("https://");
        v.append(t.substring_char(10, n));
        return v;
    }
    if str_starts_with(t, "git@") {
        let rest = t.substring_char(4, n);
        match find_char(rest, ':') {
            Some(k) => {
                proof {
                    lemma_first_index_unique(rest@, ':', k as int);
                }
                let m = rest.unicode_len();
                let mut v = String::from_str("https://");
                v.append(rest.substring_char(0, k));
                v.append("/");
                v.append(rest.substring_char(k + 1, m));
                proof {
                    assert(v@ == https_prefix() + rest@.subrange(0, k as int) + seq!['/']
                        + rest@.subrange(k + 1, m as int));
                }
                return v;
            },
            None => {},
        }
    }
    String::from_str(t)
}

/// Returns `value` in the form in which repository addresses are compared.
pub fn normalize_repository(value: &str) -> (r: String)
    ensures
        r@ == normalized_repository(value@),
{
    let t = str_trim(value);
    let mut v = https_rewrite(t);
    let ghost rewritten = v@;
    let mut n = v.as_str().unicode_len();
    while n > 0 && v.as_str().get_char(n - 1) == '/'
        invariant
            n == v@.len(),
            without_trailing_slashes(v@) == without_trailing_slashes(rewritten),
        decreases n,
    {
        let shorter = String::from_str(v.as_str().substring_char(0, n - 1));
        proof {
            assert(shorter@ == v@.drop_last());
        }
        v = shorter;
        n = n - 1;
    }
    proof {
        assert(v@ == without_trailing_slashes(rewritten));
        reveal_strlit(".git");
        assert(".git"@ == git_suffix());
    }
    if n >= 4 && str_equal(v.as_str().substring_char(n - 4, n), ".git") {
        let shorter = String::from_str(v.as_str().substring_char(0, n - 4));
        v = shorter;
    }
    proof {
        reveal_strlit("://");
        assert("://"@ == scheme_separator());
    }
    if str_contains(v.as_str(), "://") {
        make_ascii_lowercase(&mut v);
    }
    v
}

/// Whether two repository addresses name the same repository, compared in
/// their normalized forms.
pub fn same_repository(left: &str, right: &str) -> (r: bool)
    ensures
        r == (normalized_repository(left@) == normalized_repository(right@)),
{
    let l = normalize_repository(left);
    let r = normalize_repository(right);
    str_equal(l.as_str(), r.as_str())
}

} // verus!
