//! Home-directory expansion for the `~` shorthand in configured paths.

use vstd::prelude::*;

use crate::text::{substring, to_owned_str};

verus! {

use vstd::string::*;

/// The install directory used when no configuration overrides it.
pub const DEFAULT_INSTALL_DIR: &'static str = "~/.steam/root/compatibilitytools.d/";

/// The view of an optional owned string.
pub open spec fn opt_str_view(o: Option<String>) -> Option<Seq<char>> {
    match o {
        Some(s) => Some(s@),
        None => None,
    }
}

/// `p` names a location under the home directory: it is `~` itself or
/// begins with `~/`.
pub open spec fn tilde_prefixed(p: Seq<char>) -> bool {
    p =~= seq!['~'] || (p.len() >= 2 && p[0] == '~' && p[1] == '/')
}

/// `sub` appended under the directory `base`, with exactly one slash
/// between them; an empty `sub` leaves `base` as it is.
pub open spec fn spec_join_dir(base: Seq<char>, sub: Seq<char>) -> Seq<char> {
    if sub.len() == 0 {
        base
    } else if base.len() > 0 && base[base.len() - 1] == '/' {
        base + sub
    } else {
        base + seq!['/'] + sub
    }
}

/// What expanding `~` in `p` yields when the home directory is `home`:
/// paths not rooted at `~` pass through unchanged; with no home
/// directory there is no answer; a home of `/` drops the `~/` without
/// prepending anything.
pub open spec fn spec_expand_with(p: Seq<char>, home: Option<Seq<char>>) -> Option<Seq<char>> {
    if !tilde_prefixed(p) {
        Some(p)
    } else {
        match home {
            None => None,
            Some(h) => if p =~= seq!['~'] {
                Some(h)
            } else if h =~= seq!['/'] {
                Some(p.skip(2))
            } else {
                Some(spec_join_dir(h, p.skip(2)))
            },
        }
    }
}

/// Appends `sub` under the directory `base`.
pub fn join_dir(base: String, sub: &str) -> (r: String)
    ensures
        r@ == spec_join_dir(base@, sub@),
{
    let m: usize = sub.unicode_len();
    if m == 0 {
        base
    } else {
        let n: usize = base.as_str().unicode_len();
        let mut r = base;
        if !(n > 0 && r.as_str().get_char(n - 1) == '/') {
            r.append("/");
            proof {
                reveal_strlit("/");
            }
        }
        r.append(sub);
        r
    }
}

/// Expands a leading `~` in `path` against the given home directory.
pub fn expand_tilde_with(path: &str, home: &Option<String>) -> (r: Option<String>)
    ensures
        opt_str_view(r) == spec_expand_with(path@, opt_str_view(*home)),
{
    let n: usize = path.unicode_len();
    let tilde = if n == 1 {
        let c0 = path.get_char(0);
        proof {
            if c0 == '~' {
                assert(path@ =~= seq!['~']);
            }
        }
        c0 == '~'
    } else {
        n >= 2 && path.get_char(0) == '~' && path.get_char(1) == '/'
    };
    proof {
        if n != 1 {
            assert(path@.len() != seq!['~'].len() || n == 1);
        }
        assert(tilde == tilde_prefixed(path@));
    }
    if !tilde {
        Some(to_owned_str(path))
    } else {
        match home {
            None => None,
            Some(h) => {
                if n == 1 {
                    Some(to_owned_str(h.as_str()))
                } else {
                    let rest = substring(path, 2, n);
                    let hn: usize = h.as_str().unicode_len();
                    let root = hn == 1 && h.as_str().get_char(0) == '/';
                    proof {
                        if root {
                            assert(h@ =~= seq!['/']);
                        } else if hn == 1 {
                            assert(h@[0] != '/');
                            assert(!(h@ =~= seq!['/']));
                        } else {
                            assert(h@.len() != seq!['/'].len());
                        }
                        assert(path@.skip(2) =~= path@.subrange(2, n as int));
                    }
                    if root {
                        Some(rest)
                    } else {
                        Some(join_dir(to_owned_str(h.as_str()), rest.as_str()))
                    }
                }
            },
        }
    }
}

/// Relies on `dirs::home_dir`: the result depends on the environment,
/// so nothing is promised of it; a home directory that is not valid
/// Unicode counts as absent.
#[verifier::external_body]
fn home_dir_string() -> (r: Option<String>) {
    dirs::home_dir().and_then(|p| p.to_str().map(|s| s.to_owned()))
}

/// Expands a leading `~` in `path` against the home directory of the
/// environment.  Since the home directory is the environment's, only the
/// tilde-free case has a fixed answer; every answer is the expansion
/// against some home value.
pub fn expand_tilde(path: &str) -> (r: Option<String>)
    ensures
        !tilde_prefixed(path@) ==> opt_str_view(r) == Some(path@),
        exists|h: Option<Seq<char>>| opt_str_view(r) == spec_expand_with(path@, h),
{
    let home = home_dir_string();
    let r = expand_tilde_with(path, &home);
    proof {
        let hv = opt_str_view(home);
        assert(opt_str_view(r) == spec_expand_with(path@, hv));
    }
    r
}

/// The default install directory with `~` expanded, read from no
/// configuration file.
pub fn install_directory() -> (r: Option<String>)
    ensures
        exists|h: Option<Seq<char>>| opt_str_view(r) == spec_expand_with(
            DEFAULT_INSTALL_DIR@,
            h,
        ),
{
    expand_tilde(DEFAULT_INSTALL_DIR)
}

} // verus!
