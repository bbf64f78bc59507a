//! The ordering rules of the directory views: the flat listing puts
//! directories before files and then sorts by name; the recursive tree view
//! hides dot-prefixed entries and sorts with names folded to lower case. The
//! reads themselves happen outside the library; these functions order and
//! filter what was read.
use vstd::prelude::*;

use crate::textutil::lower_of;
use crate::textutil::to_lower;

verus! {

broadcast use vstd::seq_lib::group_to_multiset_ensures;

/// One entry of a directory listing.
#[derive(Debug)]
pub struct DirEntry {
    pub name: String,
    pub path: String,
    pub is_dir: bool,
}

/// Lexicographic order on texts, by code point.
pub open spec fn lex_le(a: Seq<char>, b: Seq<char>) -> bool
    decreases a.len(),
{
    if a.len() == 0 {
        true
    } else if b.len() == 0 {
        false
    } else if a[0] == b[0] {
        lex_le(a.drop_first(), b.drop_first())
    } else {
        (a[0] as u32) < (b[0] as u32)
    }
}

/// Any two texts compare, one way or the other.
pub proof fn lemma_lex_le_total(a: Seq<char>, b: Seq<char>)
    ensures
        lex_le(a, b) || lex_le(b, a),
    decreases a.len(),
{
    if a.len() == 0 {
    } else if b.len() == 0 {
    } else if a[0] == b[0] {
        lemma_lex_le_total(a.drop_first(), b.drop_first());
    } else {
        vstd::utf8::char_u32_cast(a[0], a[0] as u32);
        vstd::utf8::char_u32_cast(b[0], b[0] as u32);
        assert((a[0] as u32) != (b[0] as u32));
    }
}

/// The lexicographic order carries over a middle text.
pub proof fn lemma_lex_le_trans(a: Seq<char>, b: Seq<char>, c: Seq<char>)
    requires
        lex_le(a, b),
        lex_le(b, c),
    ensures
        lex_le(a, c),
    decreases a.len(),
{
    if a.len() == 0 {
    } else if b.len() == 0 {
    } else if c.len() == 0 {
    } else {
        if a[0] == b[0] && b[0] == c[0] {
            lemma_lex_le_trans(a.drop_first(), b.drop_first(), c.drop_first());
        }
    }
}

/// The flat listing order: directories before files, then the name as it
/// stands.
pub open spec fn listing_le(a: DirEntry, b: DirEntry) -> bool {
    if a.is_dir != b.is_dir {
        a.is_dir
    } else {
        lex_le(a.name@, b.name@)
    }
}

/// The tree order: directories before files, then the case-folded name.
pub open spec fn tree_le(a: DirEntry, b: DirEntry) -> bool {
    if a.is_dir != b.is_dir {
        a.is_dir
    } else {
        lex_le(lower_of(a.name@), lower_of(b.name@))
    }
}

/// The entries stand pairwise in the given order.
pub open spec fn sorted_by_listing(s: Seq<DirEntry>) -> bool {
    forall|p: int, q: int| 0 <= p < q < s.len() ==> listing_le(#[trigger] s[p], #[trigger] s[q])
}

/// The entries stand pairwise in the tree order.
pub open spec fn sorted_by_tree(s: Seq<DirEntry>) -> bool {
    forall|p: int, q: int| 0 <= p < q < s.len() ==> tree_le(#[trigger] s[p], #[trigger] s[q])
}

/// Compares two names in the lexicographic order.
fn lex_le_exec(a: &str, b: &str) -> (r: bool)
    ensures
        r == lex_le(a@, b@),
{
    let na = a.unicode_len();
    let nb = b.unicode_len();
    let mut i: usize = 0;
    proof {
        assert(a@.skip(0) =~= a@);
        assert(b@.skip(0) =~= b@);
    }
    while i < na && i < nb
        invariant
            na == a@.len(),
            nb == b@.len(),
            i <= na,
            i <= nb,
            lex_le(a@, b@) == lex_le(a@.skip(i as int), b@.skip(i as int)),
        decreases na - i,
    {
        let ca = a.get_char(i);
        let cb = b.get_char(i);
        proof {
            assert(a@.skip(i as int)[0] == a@[i as int]);
            assert(b@.skip(i as int)[0] == b@[i as int]);
            assert(a@.skip(i as int).drop_first() =~= a@.skip(i + 1 as int));
            assert(b@.skip(i as int).drop_first() =~= b@.skip(i + 1 as int));
        }
        if ca != cb {
            return (ca as u32) < (cb as u32);
        }
        i = i + 1;
    }
    proof {
        if i == na {
            assert(a@.skip(na as int) =~= Seq::<char>::empty());
        } else {
            assert(b@.skip(nb as int) =~= Seq::<char>::empty());
            assert(a@.skip(i as int).len() > 0);
        }
    }
    i == na
}

fn listing_le_exec(a: &DirEntry, b: &DirEntry) -> (r: bool)
    ensures
        r == listing_le(*a, *b),
{
    if a.is_dir != b.is_dir {
        a.is_dir
    } else {
        lex_le_exec(a.name.as_str(), b.name.as_str())
    }
}

fn tree_le_exec(a: &DirEntry, b: &DirEntry) -> (r: bool)
    ensures
        r == tree_le(*a, *b),
{
    if a.is_dir != b.is_dir {
        a.is_dir
    } else {
        let la = to_lower(a.name.as_str());
        let lb = to_lower(b.name.as_str());
        lex_le_exec(la.as_str(), lb.as_str())
    }
}

proof fn lemma_listing_le_total(a: DirEntry, b: DirEntry)
    ensures
        listing_le(a, b) || listing_le(b, a),
{
    if a.is_dir == b.is_dir {
        lemma_lex_le_total(a.name@, b.name@);
    }
}

proof fn lemma_listing_le_trans(a: DirEntry, b: DirEntry, c: DirEntry)
    requires
        listing_le(a, b),
        listing_le(b, c),
    ensures
        listing_le(a, c),
{
    if a.is_dir == b.is_dir && b.is_dir == c.is_dir {
        lemma_lex_le_trans(a.name@, b.name@, c.name@);
    }
}

proof fn lemma_tree_le_total(a: DirEntry, b: DirEntry)
    ensures
        tree_le(a, b) || tree_le(b, a),
{
    if a.is_dir == b.is_dir {
        lemma_lex_le_total(lower_of(a.name@), lower_of(b.name@));
    }
}

proof fn lemma_tree_le_trans(a: DirEntry, b: DirEntry, c: DirEntry)
    requires
        tree_le(a, b),
        tree_le(b, c),
    ensures
        tree_le(a, c),
{
    if a.is_dir == b.is_dir && b.is_dir == c.is_dir {
        lemma_lex_le_trans(lower_of(a.name@), lower_of(b.name@), lower_of(c.name@));
    }
}

fn clone_entry(e: &DirEntry) -> (r: DirEntry)
    ensures
        r == *e,
{
    DirEntry { name: e.name.clone(), path: e.path.clone(), is_dir: e.is_dir }
}

fn insert_sorted_listing(out: &mut Vec<DirEntry>, e: DirEntry)
    requires
        sorted_by_listing(old(out)@),
    ensures
        sorted_by_listing(final(out)@),
        final(out)@.to_multiset() == old(out)@.to_multiset().insert(e),
{
    let m = out.len();
    let mut pos: usize = 0;
    while pos < m && listing_le_exec(&out[pos], &e)
        invariant
            *out == *old(out),
            m == out@.len(),
            pos <= m,
            forall|k: int| 0 <= k < pos ==> listing_le(#[trigger] out@[k], e),
        decreases m - pos,
    {
        pos = pos + 1;
    }
    let ghost before = out@;
    out.insert(pos, e);
    proof {
        assert(out@.remove(pos as int) =~= before);
        assert(out@.to_multiset().contains(out@[pos as int]));
        assert(out@.to_multiset() =~= before.to_multiset().insert(e));
        if (pos as int) < before.len() {
            lemma_listing_le_total(before[pos as int], e);
        }
        assert forall|p: int, q: int|
            0 <= p < q < out@.len() implies listing_le(#[trigger] out@[p], #[trigger] out@[q]) by {
            if q < pos {
            } else if p < pos && q == pos {
            } else if p < pos && q > pos {
                assert(listing_le(before[p], before[q - 1]));
            } else if p == pos && q > pos {
                assert(listing_le(e, before[pos as int]));
                if pos as int != q - 1 {
                    assert(listing_le(before[pos as int], before[q - 1]));
                    lemma_listing_le_trans(e, before[pos as int], before[q - 1]);
                }
            } else {
                assert(listing_le(before[p - 1], before[q - 1]));
            }
        }
    }
}

fn insert_sorted_tree(out: &mut Vec<DirEntry>, e: DirEntry)
    requires
        sorted_by_tree(old(out)@),
    ensures
        sorted_by_tree(final(out)@),
        final(out)@.to_multiset() == old(out)@.to_multiset().insert(e),
{
    let m = out.len();
    let mut pos: usize = 0;
    while pos < m && tree_le_exec(&out[pos], &e)
        invariant
            *out == *old(out),
            m == out@.len(),
            pos <= m,
            forall|k: int| 0 <= k < pos ==> tree_le(#[trigger] out@[k], e),
        decreases m - pos,
    {
        pos = pos + 1;
    }
    let ghost before = out@;
    out.insert(pos, e);
    proof {
        assert(out@.remove(pos as int) =~= before);
        assert(out@.to_multiset().contains(out@[pos as int]));
        assert(out@.to_multiset() =~= before.to_multiset().insert(e));
        if (pos as int) < before.len() {
            lemma_tree_le_total(before[pos as int], e);
        }
        assert forall|p: int, q: int|
            0 <= p < q < out@.len() implies tree_le(#[trigger] out@[p], #[trigger] out@[q]) by {
            if q < pos {
            } else if p < pos && q == pos {
            } else if p < pos && q > pos {
                assert(tree_le(before[p], before[q - 1]));
            } else if p == pos && q > pos {
                assert(tree_le(e, before[pos as int]));
                if pos as int != q - 1 {
                    assert(tree_le(before[pos as int], before[q - 1]));
                    lemma_tree_le_trans(e, before[pos as int], before[q - 1]);
                }
            } else {
                assert(tree_le(before[p - 1], before[q - 1]));
            }
        }
    }
}

/// Orders a flat directory listing: directories first, then by name.
pub fn sort_listing(v: &mut Vec<DirEntry>)
    ensures
        sorted_by_listing(final(v)@),
        final(v)@.to_multiset() == old(v)@.to_multiset(),
{
    let n = v.len();
    let mut out: Vec<DirEntry> = Vec::new();
    let mut i: usize = 0;
    proof {
        assert(v@.take(0) =~= Seq::<DirEntry>::empty());
        assert(out@.to_multiset() =~= v@.take(0).to_multiset());
    }
    while i < n
        invariant
            *v == *old(v),
            n == v@.len(),
            i <= n,
            sorted_by_listing(out@),
            out@.to_multiset() == v@.take(i as int).to_multiset(),
        decreases n - i,
    {
        proof {
            assert(v@.take(i + 1 as int).drop_last() =~= v@.take(i as int));
            assert(v@.take(i + 1 as int) =~= v@.take(i as int).push(v@[i as int]));
        }
        let e = clone_entry(&v[i]);
        insert_sorted_listing(&mut out, e);
        i = i + 1;
    }
    proof {
        assert(v@.take(n as int) =~= v@);
    }
    *v = out;
}

/// Orders a tree level: directories first, then by case-folded name.
pub fn sort_tree_level(v: &mut Vec<DirEntry>)
    ensures
        sorted_by_tree(final(v)@),
        final(v)@.to_multiset() == old(v)@.to_multiset(),
{
    let n = v.len();
    let mut out: Vec<DirEntry> = Vec::new();
    let mut i: usize = 0;
    proof {
        assert(v@.take(0) =~= Seq::<DirEntry>::empty());
        assert(out@.to_multiset() =~= v@.take(0).to_multiset());
    }
    while i < n
        invariant
            *v == *old(v),
            n == v@.len(),
            i <= n,
            sorted_by_tree(out@),
            out@.to_multiset() == v@.take(i as int).to_multiset(),
        decreases n - i,
    {
        proof {
            assert(v@.take(i + 1 as int).drop_last() =~= v@.take(i as int));
            assert(v@.take(i + 1 as int) =~= v@.take(i as int).push(v@[i as int]));
        }
        let e = clone_entry(&v[i]);
        insert_sorted_tree(&mut out, e);
        i = i + 1;
    }
    proof {
        assert(v@.take(n as int) =~= v@);
    }
    *v = out;
}

/// A dot-prefixed entry, which the tree view hides.
pub open spec fn is_hidden(e: DirEntry) -> bool {
    e.name@.len() > 0 && e.name@[0] == '.'
}

/// Drops the dot-prefixed entries of a tree level, keeping the order of the
/// rest.
pub fn drop_hidden(v: &mut Vec<DirEntry>)
    ensures
        final(v)@ == old(v)@.filter(|e: DirEntry| !is_hidden(e)),
{
    let n = v.len();
    let mut out: Vec<DirEntry> = Vec::new();
    let mut i: usize = 0;
    proof {
        reveal(Seq::filter);
        assert(v@.take(0) =~= Seq::<DirEntry>::empty());
        assert(out@ =~= v@.take(0).filter(|e: DirEntry| !is_hidden(e)));
    }
    while i < n
        invariant
            *v == *old(v),
            n == v@.len(),
            i <= n,
            out@ == v@.take(i as int).filter(|e: DirEntry| !is_hidden(e)),
        decreases n - i,
    {
        proof {
            reveal(Seq::filter);
            assert(v@.take(i + 1 as int).drop_last() =~= v@.take(i as int));
            assert(v@.take(i + 1 as int).last() == v@[i as int]);
        }
        let hidden = v[i].name.unicode_len() > 0 && v[i].name.as_str().get_char(0) == '.';
        if !hidden {
            out.push(clone_entry(&v[i]));
        }
        i = i + 1;
    }
    proof {
        assert(v@.take(n as int) =~= v@);
    }
    *v = out;
}

} // verus!
