//! Path resolution: expanding the home-directory shorthand, extracting the
//! base file name a tracked file is mirrored under, and joining mirror paths.

use vstd::prelude::*;
use crate::errors::ConfigError;
use crate::errors::SydError;

verus! {

/// Does the path begin with the home-directory shorthand: a `~` that is the
/// whole path or is followed by a separator?
pub open spec fn tilde_prefixed(s: Seq<char>) -> bool {
    s.len() >= 1 && s[0] == '~' && (s.len() == 1 || s[1] == '/')
}

/// Relies on simple_expand_tilde::expand_tilde: a path that does not begin
/// with the tilde shorthand comes back unchanged; one that does is joined to
/// the invoking user's home directory, and the call returns None when no
/// home directory can be resolved. The result also becomes None when it is
/// not valid UTF-8, which cannot happen for an unchanged input string.
#[verifier::external_body]
fn expand_home(path: &String) -> (r: Option<String>)
    ensures
        match r {
            Some(s) => !tilde_prefixed(path@) ==> s@ == path@,
            None => tilde_prefixed(path@),
        },
{
    match simple_expand_tilde::expand_tilde(path.as_str()) {
        Some(p) => p.into_os_string().into_string().ok(),
        None => None,
    }
}

/// Expand a possible home-directory shorthand into a usable path.
///
/// Resolution is idempotent on its results: a path without the shorthand —
/// in particular any already-absolute path — resolves to itself. A shorthand
/// path fails with `PathExpansion`, carrying the path as written, exactly
/// when the home directory cannot be resolved.
pub fn resolve(path: &String) -> (r: Result<String, SydError>)
    ensures
        match r {
            Ok(s) => !tilde_prefixed(path@) ==> s@ == path@,
            Err(e) => {
                &&& e matches SydError::Config(ConfigError::PathExpansion(p)) && p@ == path@
                &&& tilde_prefixed(path@)
            },
        },
{
    match expand_home(path) {
        Some(s) => Ok(s),
        None => Err(SydError::Config(ConfigError::PathExpansion(path.clone()))),
    }
}

/// The characters after the last separator.
pub open spec fn base_name(s: Seq<char>) -> Seq<char>
    decreases s.len(),
{
    if s.len() == 0 || s.last() == '/' {
        Seq::empty()
    } else {
        base_name(s.drop_last()).push(s.last())
    }
}

/// The base file name a path is mirrored under: the characters after the
/// last separator, provided they name a real file — not empty (so not a
/// root or separator-terminated path) and not a relative-navigation
/// component.
pub open spec fn spec_file_name(s: Seq<char>) -> Option<Seq<char>> {
    let b = base_name(s);
    if b.len() == 0 {
        None
    } else if b.len() == 1 && b[0] == '.' {
        None
    } else if b.len() == 2 && b[0] == '.' && b[1] == '.' {
        None
    } else {
        Some(b)
    }
}

proof fn lemma_base_name_subrange(s: Seq<char>, i: int)
    requires
        0 <= i <= s.len(),
        forall|j: int| i <= j < s.len() ==> s[j] != '/',
        i > 0 ==> s[i - 1] == '/',
    ensures
        base_name(s) == s.subrange(i, s.len() as int),
    decreases s.len(),
{
    if i == s.len() {
        if i > 0 {
            assert(s.last() == '/');
        }
        assert(base_name(s) =~= s.subrange(i, s.len() as int));
    } else {
        assert(s.last() != '/');
        lemma_base_name_subrange(s.drop_last(), i);
        assert(s.drop_last().subrange(i, s.len() - 1) =~= s.subrange(i, s.len() - 1));
        assert(base_name(s) =~= s.subrange(i, s.len() as int));
    }
}

/// Extract the base file name of a tracked path, or nothing when the path
/// has no extractable file name.
pub fn file_name_of(path: &String) -> (r: Option<String>)
    ensures
        match r {
            Some(n) => spec_file_name(path@) == Some(n@),
            None => spec_file_name(path@) is None,
        },
{
    let s = path.as_str();
    let len = s.unicode_len();
    let mut i: usize = 0;
    let mut j: usize = 0;
    while j < len
        invariant
            j <= len,
            len == s@.len(),
            i <= j,
            i > 0 ==> s@[i - 1] == '/',
            forall|k: int| i <= k < j ==> s@[k] != '/',
        decreases len - j,
    {
        if s.get_char(j) == '/' {
            i = j + 1;
        }
        j += 1;
    }
    proof {
        lemma_base_name_subrange(s@, i as int);
    }
    let n = len - i;
    if n == 0 {
        return None;
    }
    if n == 1 && s.get_char(i) == '.' {
        assert(base_name(s@) =~= seq!['.']);
        return None;
    }
    if n == 2 && s.get_char(i) == '.' && s.get_char(i + 1) == '.' {
        assert(base_name(s@) =~= seq!['.', '.']);
        return None;
    }
    let b = s.substring_char(i, len);
    assert(base_name(path@) == b@);
    Some(b.to_owned())
}

/// The mirror-side path of a tracked file: the mirror folder joined with
/// the file's base name by a single separator.
pub fn join_path(folder: &String, name: &String) -> (r: String)
    ensures
        r@ == folder@ + seq!['/'] + name@,
{
    let mut out = folder.clone();
    out.append("/");
    out.append(name.as_str());
    proof {
        reveal_strlit("/");
        assert(out@ =~= folder@ + seq!['/'] + name@);
    }
    out
}

} // verus!
