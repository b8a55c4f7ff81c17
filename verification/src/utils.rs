//! Path and permission-string helpers shared by the listing and walker
//! components.

use vstd::prelude::*;
use vstd::string::StrSliceExecFns;
use vstd::string::StringExecFns;

verus! {

/// One permission character: `c` when `bit` is set in `mode`, `'-'` otherwise.
pub open spec fn perm_char(mode: u32, bit: u32, c: char) -> char {
    if mode & bit != 0 {
        c
    } else {
        '-'
    }
}

/// The ten-character permission rendering of a numeric mode: a directory
/// marker, then read/write/execute triples for owner, group and other,
/// each position depending only on its own bit.
pub open spec fn perm_string(mode: u32) -> Seq<char> {
    seq![
        perm_char(mode, 0o40000, 'd'),
        perm_char(mode, 0o400, 'r'),
        perm_char(mode, 0o200, 'w'),
        perm_char(mode, 0o100, 'x'),
        perm_char(mode, 0o040, 'r'),
        perm_char(mode, 0o020, 'w'),
        perm_char(mode, 0o010, 'x'),
        perm_char(mode, 0o004, 'r'),
        perm_char(mode, 0o002, 'w'),
        perm_char(mode, 0o001, 'x'),
    ]
}

/// Appends the permission character for one bit: `on` when the bit is set,
/// `'-'` otherwise.
fn append_perm(perms: &mut String, mode: u32, bit: u32, on: &str, Ghost(c): Ghost<char>)
    requires
        on@ == seq![c],
    ensures
        final(perms)@ == old(perms)@ + seq![perm_char(mode, bit, c)],
{
    proof {
        reveal_strlit("-");
    }
    if mode & bit != 0 {
        perms.append(on);
    } else {
        perms.append("-");
        proof {
            assert(perms@ =~= old(perms)@ + seq![perm_char(mode, bit, c)]);
        }
    }
}

/// Renders a numeric permission mode as the usual `drwxr-xr-x` form.
pub fn format_permissions(mode: u32) -> (r: String)
    ensures
        r@ == perm_string(mode),
{
    proof {
        reveal_strlit("d");
        reveal_strlit("r");
        reveal_strlit("w");
        reveal_strlit("x");
        assert("d"@ =~= seq!['d']);
        assert("r"@ =~= seq!['r']);
        assert("w"@ =~= seq!['w']);
        assert("x"@ =~= seq!['x']);
    }
    let mut perms = String::new();
    append_perm(&mut perms, mode, 0o40000, "d", Ghost('d'));
    append_perm(&mut perms, mode, 0o400, "r", Ghost('r'));
    append_perm(&mut perms, mode, 0o200, "w", Ghost('w'));
    append_perm(&mut perms, mode, 0o100, "x", Ghost('x'));
    append_perm(&mut perms, mode, 0o040, "r", Ghost('r'));
    append_perm(&mut perms, mode, 0o020, "w", Ghost('w'));
    append_perm(&mut perms, mode, 0o010, "x", Ghost('x'));
    append_perm(&mut perms, mode, 0o004, "r", Ghost('r'));
    append_perm(&mut perms, mode, 0o002, "w", Ghost('w'));
    append_perm(&mut perms, mode, 0o001, "x", Ghost('x'));
    proof {
        assert(perms@ =~= perm_string(mode));
    }
    perms
}

/// `s` with every trailing `'/'` removed.
pub open spec fn strip_trailing_slashes(s: Seq<char>) -> Seq<char>
    decreases s.len(),
{
    if s.len() > 0 && s[s.len() - 1] == '/' {
        strip_trailing_slashes(s.drop_last())
    } else {
        s
    }
}

/// `s` with every trailing non-`'/'` character removed, so that the result
/// is empty or ends with `'/'`.
pub open spec fn drop_last_component(s: Seq<char>) -> Seq<char>
    decreases s.len(),
{
    if s.len() > 0 && s[s.len() - 1] != '/' {
        drop_last_component(s.drop_last())
    } else {
        s
    }
}

/// The parent of a `'/'`-separated path: trailing separators are ignored,
/// the last component is dropped, a path without a separator has the empty
/// parent, and the root is its own parent.
pub open spec fn parent_path(s: Seq<char>) -> Seq<char> {
    let t = strip_trailing_slashes(s);
    if t.len() == 0 {
        seq!['/']
    } else {
        let u = drop_last_component(t);
        if u.len() == 0 {
            Seq::<char>::empty()
        } else {
            let v = strip_trailing_slashes(u);
            if v.len() == 0 {
                seq!['/']
            } else {
                v
            }
        }
    }
}

/// Returns the parent directory of a remote path.
pub fn get_parent_path(path: &str) -> (r: String)
    ensures
        r@ == parent_path(path@),
{
    proof {
        reveal_strlit("/");
    }
    let n = path.unicode_len();
    proof {
        assert(path@.subrange(0, n as int) =~= path@);
    }
    // Index just past the last character that is not a trailing slash.
    let mut j = n;
    while j > 0 && path.get_char(j - 1) == '/'
        invariant
            j <= n,
            n == path@.len(),
            strip_trailing_slashes(path@) == strip_trailing_slashes(path@.subrange(0, j as int)),
        decreases j,
    {
        proof {
            assert(path@.subrange(0, j as int).drop_last() =~= path@.subrange(0, j - 1 as int));
        }
        j = j - 1;
    }
    proof {
        assert(strip_trailing_slashes(path@) == path@.subrange(0, j as int));
    }
    if j == 0 {
        return String::from_str("/");
    }
    // Index just past the last slash before the final component.
    let mut k = j;
    while k > 0 && path.get_char(k - 1) != '/'
        invariant
            k <= j,
            j <= n,
            n == path@.len(),
            drop_last_component(path@.subrange(0, j as int)) == drop_last_component(
                path@.subrange(0, k as int),
            ),
        decreases k,
    {
        proof {
            assert(path@.subrange(0, k as int).drop_last() =~= path@.subrange(0, k - 1 as int));
        }
        k = k - 1;
    }
    proof {
        assert(drop_last_component(path@.subrange(0, j as int)) == path@.subrange(0, k as int));
    }
    if k == 0 {
        return String::new();
    }
    // Index just past the parent itself, with its own trailing slashes gone.
    let mut m = k;
    while m > 0 && path.get_char(m - 1) == '/'
        invariant
            m <= k,
            k <= n,
            n == path@.len(),
            strip_trailing_slashes(path@.subrange(0, k as int)) == strip_trailing_slashes(
                path@.subrange(0, m as int),
            ),
        decreases m,
    {
        proof {
            assert(path@.subrange(0, m as int).drop_last() =~= path@.subrange(0, m - 1 as int));
        }
        m = m - 1;
    }
    proof {
        assert(strip_trailing_slashes(path@.subrange(0, k as int)) == path@.subrange(0, m as int));
    }
    if m == 0 {
        return String::from_str("/");
    }
    let parent = path.substring_char(0, m);
    String::from_str(parent)
}

} // verus!
