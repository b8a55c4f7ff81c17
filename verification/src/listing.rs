//! Directory-listing presentation: which entries are shown, how raw
//! entries become [`FileItem`] rows, and the total order in which they
//! are listed — the parent pseudo-entry first, then directories, then
//! files, names compared case-insensitively.

use crate::types::FileItem;
use crate::types::RawEntry;
use crate::utils::format_permissions;
use crate::utils::perm_string;
use vstd::prelude::*;
use vstd::string::StrSliceExecFns;

verus! {

broadcast use vstd::seq_lib::group_to_multiset_ensures;

/// A listing shows an entry unless its name is hidden: a leading dot
/// hides it, except for the parent pseudo-entry `..` itself.
pub open spec fn visible_name(name: Seq<char>) -> bool {
    !(name.len() > 0 && name[0] == '.' && name != seq!['.', '.'])
}

/// The entries a listing shows, in reported order.
pub open spec fn visible_entries(s: Seq<RawEntry>) -> Seq<RawEntry>
    decreases s.len(),
{
    if s.len() == 0 {
        Seq::empty()
    } else {
        let v = visible_entries(s.drop_last());
        if visible_name(s.last().name@) {
            v.push(s.last())
        } else {
            v
        }
    }
}

/// Everything a listing row shows, as plain values: name, path,
/// directory flag, size, modification time, permission text.
pub open spec fn item_view(it: FileItem) -> (Seq<char>, Seq<char>, bool, u64, u64, Seq<char>) {
    (it.name@, it.path@, it.is_directory, it.size, it.modified, it.permissions@)
}

/// The row a raw entry turns into: absent stat fields default to zero,
/// and the permission bits are rendered as text.
pub open spec fn entry_view(e: RawEntry) -> (Seq<char>, Seq<char>, bool, u64, u64, Seq<char>) {
    (
        e.name@,
        e.path@,
        e.is_directory,
        match e.size {
            Some(n) => n,
            None => 0,
        },
        match e.modified {
            Some(n) => n,
            None => 0,
        },
        perm_string(
            match e.mode {
                Some(m) => m,
                None => 0,
            },
        ),
    )
}

/// The case-insensitive key of one character: upper-case ASCII letters
/// compare as their lower-case forms, every other character as itself.
pub open spec fn fold_char(c: char) -> int {
    if 65 <= c as u32 && c as u32 <= 90 {
        c as u32 + 32
    } else {
        c as int
    }
}

/// Case-insensitive lexicographic order on names.
pub open spec fn lex_le(a: Seq<char>, b: Seq<char>) -> bool
    decreases a.len(),
{
    if a.len() == 0 {
        true
    } else if b.len() == 0 {
        false
    } else if fold_char(a[0]) < fold_char(b[0]) {
        true
    } else if fold_char(a[0]) > fold_char(b[0]) {
        false
    } else {
        lex_le(a.drop_first(), b.drop_first())
    }
}

/// Any two names are ordered one way or the other.
pub proof fn lemma_lex_le_total(a: Seq<char>, b: Seq<char>)
    ensures
        lex_le(a, b) || lex_le(b, a),
    decreases a.len(),
{
    if a.len() > 0 && b.len() > 0 && fold_char(a[0]) == fold_char(b[0]) {
        lemma_lex_le_total(a.drop_first(), b.drop_first());
    }
}

/// The name order is transitive.
pub proof fn lemma_lex_le_trans(a: Seq<char>, b: Seq<char>, c: Seq<char>)
    requires
        lex_le(a, b),
        lex_le(b, c),
    ensures
        lex_le(a, c),
    decreases a.len(),
{
    if a.len() > 0 && b.len() > 0 && c.len() > 0 && fold_char(a[0]) == fold_char(b[0]) && fold_char(
        b[0],
    ) == fold_char(c[0]) {
        lemma_lex_le_trans(a.drop_first(), b.drop_first(), c.drop_first());
    }
}

/// The band an item sorts into: the parent pseudo-entry first, then
/// directories, then files.
pub open spec fn rank(it: FileItem) -> int {
    if it.name@ == seq!['.', '.'] {
        0
    } else if it.is_directory {
        1
    } else {
        2
    }
}

/// The listing order: by band, then by case-insensitive name.
pub open spec fn item_le(a: FileItem, b: FileItem) -> bool {
    rank(a) < rank(b) || (rank(a) == rank(b) && lex_le(a.name@, b.name@))
}

/// Any two items are ordered one way or the other.
pub proof fn lemma_item_le_total(a: FileItem, b: FileItem)
    ensures
        item_le(a, b) || item_le(b, a),
{
    lemma_lex_le_total(a.name@, b.name@);
}

/// The listing order is transitive.
pub proof fn lemma_item_le_trans(a: FileItem, b: FileItem, c: FileItem)
    requires
        item_le(a, b),
        item_le(b, c),
    ensures
        item_le(a, c),
{
    if rank(a) == rank(b) && rank(b) == rank(c) {
        lemma_lex_le_trans(a.name@, b.name@, c.name@);
    }
}

/// Every earlier row is at most every later row.
pub open spec fn sorted_items(s: Seq<FileItem>) -> bool {
    forall|i: int, j: int| 0 <= i < j < s.len() ==> item_le(#[trigger] s[i], #[trigger] s[j])
}

/// Whether a name is shown in a listing.
fn visible_name_exec(name: &String) -> (r: bool)
    ensures
        r == visible_name(name@),
{
    let len = name.as_str().unicode_len();
    if len == 0 {
        return true;
    }
    if name.as_str().get_char(0) != '.' {
        return true;
    }
    let is_parent = len == 2 && name.as_str().get_char(1) == '.';
    proof {
        if is_parent {
            assert(name@ =~= seq!['.', '.']);
        }
        if name@ == seq!['.', '.'] {
            assert(is_parent);
        }
    }
    is_parent
}

/// The case-insensitive key of one character.
fn fold_char_exec(c: char) -> (r: u32)
    ensures
        r as int == fold_char(c),
{
    let x = c as u32;
    if 65 <= x && x <= 90 {
        x + 32
    } else {
        x
    }
}

/// Whether `a` sorts at or before `b` in the listing order.
fn item_le_exec(a: &FileItem, b: &FileItem) -> (r: bool)
    ensures
        r == item_le(*a, *b),
{
    let ra = rank_exec(a);
    let rb = rank_exec(b);
    if ra < rb {
        true
    } else if ra > rb {
        false
    } else {
        lex_le_exec(&a.name, &b.name)
    }
}

/// The band an item sorts into.
fn rank_exec(it: &FileItem) -> (r: u8)
    ensures
        r as int == rank(*it),
{
    let len = it.name.as_str().unicode_len();
    let is_parent = len == 2 && it.name.as_str().get_char(0) == '.' && it.name.as_str().get_char(1)
        == '.';
    proof {
        if is_parent {
            assert(it.name@ =~= seq!['.', '.']);
        }
        if it.name@ == seq!['.', '.'] {
            assert(is_parent);
        }
    }
    if is_parent {
        0
    } else if it.is_directory {
        1
    } else {
        2
    }
}

/// Whether `a` is at or before `b` in case-insensitive name order.
fn lex_le_exec(a: &String, b: &String) -> (r: bool)
    ensures
        r == lex_le(a@, b@),
{
    let alen = a.as_str().unicode_len();
    let blen = b.as_str().unicode_len();
    let mut i: usize = 0;
    proof {
        assert(a@.skip(0) =~= a@);
        assert(b@.skip(0) =~= b@);
    }
    while i < alen && i < blen
        invariant
            i <= alen,
            i <= blen,
            alen == a@.len(),
            blen == b@.len(),
            lex_le(a@, b@) == lex_le(a@.skip(i as int), b@.skip(i as int)),
        decreases alen - i,
    {
        let ca = fold_char_exec(a.as_str().get_char(i));
        let cb = fold_char_exec(b.as_str().get_char(i));
        proof {
            assert(a@.skip(i as int)[0] == a@[i as int]);
            assert(b@.skip(i as int)[0] == b@[i as int]);
        }
        if ca < cb {
            return true;
        }
        if ca > cb {
            return false;
        }
        proof {
            assert(a@.skip(i as int).drop_first() =~= a@.skip(i + 1 as int));
            assert(b@.skip(i as int).drop_first() =~= b@.skip(i + 1 as int));
        }
        i = i + 1;
    }
    proof {
        assert(a@.skip(i as int).len() == alen - i);
        assert(b@.skip(i as int).len() == blen - i);
    }
    alen <= blen
}

/// Places one row into an already sorted listing, keeping it sorted.
fn insert_sorted(out: &mut Vec<FileItem>, it: FileItem)
    requires
        sorted_items(old(out)@),
    ensures
        sorted_items(final(out)@),
        final(out)@.len() == old(out)@.len() + 1,
        final(out)@.map_values(|x: FileItem| item_view(x)).to_multiset() == old(out)@.map_values(
            |x: FileItem| item_view(x),
        ).to_multiset().insert(item_view(it)),
{
    let mut j = out.len();
    while j > 0 && !item_le_exec(&out[j - 1], &it)
        invariant
            j <= out@.len(),
            *out == *old(out),
            forall|k: int| j <= k < out@.len() ==> item_le(it, #[trigger] out@[k]),
        decreases j,
    {
        proof {
            lemma_item_le_total(out@[j - 1], it);
        }
        j = j - 1;
    }
    proof {
        if j > 0 {
            assert(item_le(out@[j - 1], it));
            assert forall|k: int| 0 <= k < j implies item_le(#[trigger] out@[k], it) by {
                if k < j - 1 {
                    lemma_item_le_trans(out@[k], out@[j - 1], it);
                }
            }
        }
    }
    out.insert(j, it);
    proof {
        let ghost s = old(out)@;
        let ghost t = out@;
        assert(t == s.insert(j as int, it));
        assert forall|i1: int, i2: int| 0 <= i1 < i2 < t.len() implies item_le(
            #[trigger] t[i1],
            #[trigger] t[i2],
        ) by {
            if i1 == j {
                assert(t[i2] == s[i2 - 1]);
            } else if i2 == j {
                assert(t[i1] == s[i1]);
            } else if i1 < j && i2 > j {
                assert(t[i1] == s[i1]);
                assert(t[i2] == s[i2 - 1]);
            }
        }
        assert(t.map_values(|x: FileItem| item_view(x)) =~= s.map_values(
            |x: FileItem| item_view(x),
        ).insert(j as int, item_view(it)));
    }
}

/// Builds the user-facing listing of one directory from the entries the
/// remote side reported: hidden names are dropped, each remaining entry
/// becomes a row with defaulted stat fields and rendered permissions,
/// and the rows are sorted with the parent pseudo-entry first, then
/// directories, then files, names compared case-insensitively.
pub fn list_directory(entries: Vec<RawEntry>) -> (r: Vec<FileItem>)
    ensures
        sorted_items(r@),
        r@.map_values(|x: FileItem| item_view(x)).to_multiset() == visible_entries(
            entries@,
        ).map_values(|e: RawEntry| entry_view(e)).to_multiset(),
{
    let mut out: Vec<FileItem> = Vec::new();
    let n = entries.len();
    let mut i: usize = 0;
    proof {
        assert(visible_entries(entries@.subrange(0, 0)).map_values(|e: RawEntry| entry_view(e))
            =~= Seq::<(Seq<char>, Seq<char>, bool, u64, u64, Seq<char>)>::empty());
        assert(out@.map_values(|x: FileItem| item_view(x)) =~= Seq::<
            (Seq<char>, Seq<char>, bool, u64, u64, Seq<char>),
        >::empty());
    }
    while i < n
        invariant
            n == entries@.len(),
            i <= n,
            sorted_items(out@),
            out@.map_values(|x: FileItem| item_view(x)).to_multiset() == visible_entries(
                entries@.subrange(0, i as int),
            ).map_values(|e: RawEntry| entry_view(e)).to_multiset(),
        decreases n - i,
    {
        let ghost prefix = entries@.subrange(0, i as int);
        proof {
            assert(entries@.subrange(0, i + 1 as int).drop_last() =~= prefix);
            assert(entries@.subrange(0, i + 1 as int).last() == entries@[i as int]);
        }
        let e = &entries[i];
        if visible_name_exec(&e.name) {
            let size = match e.size {
                Some(s) => s,
                None => 0,
            };
            let modified = match e.modified {
                Some(m) => m,
                None => 0,
            };
            let mode = match e.mode {
                Some(m) => m,
                None => 0,
            };
            let it = FileItem {
                name: e.name.clone(),
                path: e.path.clone(),
                is_directory: e.is_directory,
                size,
                modified,
                permissions: format_permissions(mode),
            };
            proof {
                assert(item_view(it) == entry_view(entries@[i as int]));
                assert(visible_entries(entries@.subrange(0, i + 1 as int)).map_values(
                    |e: RawEntry| entry_view(e),
                ) =~= visible_entries(prefix).map_values(|e: RawEntry| entry_view(e)).push(
                    entry_view(entries@[i as int]),
                ));
            }
            insert_sorted(&mut out, it);
        } else {
            proof {
                assert(visible_entries(entries@.subrange(0, i + 1 as int)) == visible_entries(
                    prefix,
                ));
            }
        }
        i = i + 1;
    }
    proof {
        assert(entries@.subrange(0, n as int) =~= entries@);
    }
    out
}

} // verus!
