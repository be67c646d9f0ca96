use vstd::prelude::*;
use vstd::string::*;

use core::cmp::Ordering;

use crate::classify::Disposition;
use crate::pattern::{views, PatternSet};
use crate::render::tree_block;
use crate::sort::{
    in_order_at, is_permutation, keeps_ties_in_place,
    lemma_natural_order_unique, lemma_sorted_pairwise, natural_cmp, natural_compare,
    natural_order, naturally_sorted, path_string_for_sort, sort_key,
};

verus! {

/// One entry that a walk of the scan root yielded: its path relative to
/// the root (slash-separated, empty for the root itself), the name to show
/// for it, and whether it is a directory.
pub struct WalkedEntry {
    pub rel: String,
    pub name: String,
    pub is_dir: bool,
}

/// Whether `a` is the path of a directory that holds `rel`: the root (the
/// empty path) for any non-empty path, or a prefix of `rel` that stops
/// before one of its `/`.
pub open spec fn is_ancestor(a: Seq<char>, rel: Seq<char>) -> bool {
    exists|i: int|
        0 <= i < rel.len() && (i == 0 || rel[i] == '/') && a == #[trigger] rel.subrange(0, i)
}

/// Whether some directory that holds `rel` matches the exclude set.
pub open spec fn under_excluded(exclude: &PatternSet, rel: Seq<char>) -> bool {
    exists|a: Seq<char>| is_ancestor(a, rel) && exclude.matches(a)
}

/// Whether a walked entry survives exclude-pruning (and, for a files-only
/// pass, is a file).
pub open spec fn survives(exclude: &PatternSet, e: WalkedEntry, files_only: bool) -> bool {
    !under_excluded(exclude, e.rel@) && !exclude.matches(e.rel@) && (!files_only || !e.is_dir)
}

/// The entries of `walked` that survive, in the order they came.
pub open spec fn surviving(exclude: &PatternSet, walked: Seq<WalkedEntry>, files_only: bool) -> Seq<
    WalkedEntry,
>
    decreases walked.len(),
{
    if walked.len() == 0 {
        seq![]
    } else if survives(exclude, walked.last(), files_only) {
        surviving(exclude, walked.drop_last(), files_only).push(walked.last())
    } else {
        surviving(exclude, walked.drop_last(), files_only)
    }
}

/// Whether some directory that holds `rel` matches the exclude set.
pub fn is_under_excluded(exclude: &PatternSet, rel: &str) -> (r: bool)
    ensures
        r == under_excluded(exclude, rel@),
{
    let n = rel.unicode_len();
    let mut i: usize = 0;
    while i < n
        invariant
            n == rel@.len(),
            i <= n,
            forall|k: int|
                0 <= k < i && (k == 0 || rel@[k] == '/') ==> !exclude.matches(
                    #[trigger] rel@.subrange(0, k),
                ),
        decreases n - i,
    {
        if i == 0 || rel.get_char(i) == '/' {
            let prefix = rel.substring_char(0, i);
            if exclude.is_match(prefix) {
                assert(is_ancestor(prefix@, rel@));
                return true;
            }
        }
        i = i + 1;
    }
    assert forall|a: Seq<char>| is_ancestor(a, rel@) implies !exclude.matches(a) by {
        let k = choose|k: int|
            0 <= k < rel@.len() && (k == 0 || rel@[k] == '/') && a == #[trigger] rel@.subrange(0, k);
    }
    false
}

/// Whether a walked entry survives exclude-pruning (see `survives`).
pub fn entry_survives(exclude: &PatternSet, e: &WalkedEntry, files_only: bool) -> (r: bool)
    ensures
        r == survives(exclude, *e, files_only),
{
    if files_only && e.is_dir {
        return false;
    }
    !exclude.is_match(e.rel.as_str()) && !is_under_excluded(exclude, e.rel.as_str())
}

/// Prunes a walk by the exclude set: an entry is kept iff neither it nor a
/// directory that holds it matches, and, for a files-only pass, it is a
/// file. Order is kept.
pub fn collect_entries(walked: Vec<WalkedEntry>, exclude: &PatternSet, files_only: bool) -> (r: Vec<
    WalkedEntry,
>)
    ensures
        r@ == surviving(exclude, walked@, files_only),
{
    let ghost w = walked@;
    assert(w.subrange(0, w.len() as int) =~= w);
    assert(w.subrange(0, 0) =~= seq![]);
    let total = walked.len();
    let mut r: Vec<WalkedEntry> = Vec::new();
    let mut rest = walked;
    let mut i: usize = 0;
    while rest.len() > 0
        invariant
            rest@.len() + i == w.len(),
            w.len() == total,
            rest@ == w.subrange(i as int, w.len() as int),
            r@ == surviving(exclude, w.subrange(0, i as int), files_only),
        decreases rest.len(),
    {
        let e = rest.remove(0);
        let ghost idx = i as int;
        assert(e == w[idx]);
        assert(w.subrange(0, idx + 1).drop_last() =~= w.subrange(0, idx));
        assert(rest@ =~= w.subrange(idx + 1, w.len() as int));
        if entry_survives(exclude, &e, files_only) {
            r.push(e);
        }
        i = i + 1;
    }
    assert(w.subrange(0, w.len() as int) =~= w);
    r
}

/// Nothing beneath an excluded directory survives a walk: every entry that
/// `collect_entries` keeps lies under no directory that the exclude set
/// matches, and matches it not itself.
pub proof fn lemma_excluded_subtree_pruned(
    exclude: &PatternSet,
    walked: Seq<WalkedEntry>,
    files_only: bool,
    k: int,
    dir: Seq<char>,
)
    requires
        0 <= k < surviving(exclude, walked, files_only).len(),
        exclude.matches(dir),
    ensures
        !is_ancestor(dir, surviving(exclude, walked, files_only)[k].rel@),
        surviving(exclude, walked, files_only)[k].rel@ != dir,
    decreases walked.len(),
{
    let s = surviving(exclude, walked, files_only);
    if walked.len() > 0 {
        let prev = surviving(exclude, walked.drop_last(), files_only);
        if k < prev.len() {
            lemma_excluded_subtree_pruned(exclude, walked.drop_last(), files_only, k, dir);
            assert(s[k] == prev[k]);
        }
    }
}

} // verus!

verus! {

/// The sort key of a walked entry.
pub open spec fn entry_key(e: WalkedEntry) -> Seq<char> {
    sort_key(e.rel@, e.is_dir)
}

/// Whether two walked entries hold the same path, name and kind.
pub open spec fn same_entry(a: WalkedEntry, b: WalkedEntry) -> bool {
    a.rel@ == b.rel@ && a.name@ == b.name@ && a.is_dir == b.is_dir
}

/// A copy of a walked entry.
pub fn copy_entry(e: &WalkedEntry) -> (r: WalkedEntry)
    ensures
        same_entry(r, *e),
{
    WalkedEntry { rel: e.rel.clone(), name: e.name.clone(), is_dir: e.is_dir }
}

/// The sort keys of a list of entries.
pub open spec fn keys_of(entries: Seq<WalkedEntry>) -> Seq<Seq<char>> {
    entries.map_values(|e: WalkedEntry| entry_key(e))
}

/// Whether `r` lists `entries` in the positions that `order` gives, and
/// `order` is the natural order of their keys, ties kept in walk order.
pub open spec fn arranged_by(entries: Seq<WalkedEntry>, r: Seq<WalkedEntry>, order: Seq<usize>) -> bool {
    &&& r.len() == entries.len()
    &&& is_permutation(order, entries.len())
    &&& naturally_sorted(keys_of(entries), order)
    &&& keeps_ties_in_place(keys_of(entries), order)
    &&& forall|k: int| 0 <= k < order.len() ==> same_entry(#[trigger] r[k], entries[order[k] as int])
}

/// Whether `r` is `entries` in natural order of their sort keys, ties kept
/// in walk order.
pub open spec fn natural_arrangement(entries: Seq<WalkedEntry>, r: Seq<WalkedEntry>) -> bool {
    exists|order: Seq<usize>| arranged_by(entries, r, order)
}

/// The entries in natural order of their sort keys (the relative path,
/// with `/` appended for a directory); entries whose keys compare equal
/// keep their order.
pub fn sort_entries(entries: &Vec<WalkedEntry>) -> (r: Vec<WalkedEntry>)
    ensures
        natural_arrangement(entries@, r@),
{
    let mut keys: Vec<String> = Vec::new();
    let mut i: usize = 0;
    while i < entries.len()
        invariant
            i <= entries@.len(),
            keys@.len() == i,
            forall|k: int| 0 <= k < i ==> (#[trigger] keys@[k])@ == entry_key(entries@[k]),
        decreases entries.len() - i,
    {
        keys.push(path_string_for_sort(entries[i].rel.as_str(), entries[i].is_dir));
        i = i + 1;
    }
    assert(views(keys@) =~= keys_of(entries@));
    let order = natural_order(&keys);
    proof {
        reveal(is_permutation);
    }
    let mut r: Vec<WalkedEntry> = Vec::new();
    let mut k: usize = 0;
    while k < order.len()
        invariant
            is_permutation(order@, entries@.len()),
            k <= order@.len(),
            r@.len() == k,
            forall|j: int| 0 <= j < k ==> same_entry(#[trigger] r@[j], entries@[order@[j] as int]),
        decreases order.len() - k,
    {
        proof {
            reveal(is_permutation);
            assert(order@[k as int] < entries@.len());
        }
        r.push(copy_entry(&entries[order[k]]));
        k = k + 1;
    }
    proof {
        reveal(is_permutation);
        assert(arranged_by(entries@, r@, order@));
    }
    r
}

} // verus!

verus! {

/// Sorting a walk is deterministic: any two natural arrangements of the
/// same entries agree entry by entry, and so render the same tree.
pub proof fn lemma_sort_is_deterministic(
    entries: Seq<WalkedEntry>,
    r1: Seq<WalkedEntry>,
    r2: Seq<WalkedEntry>,
    paths: Seq<Seq<char>>,
    ds: Seq<Disposition>,
)
    requires
        natural_arrangement(entries, r1),
        natural_arrangement(entries, r2),
    ensures
        r1.len() == r2.len(),
        forall|k: int| 0 <= k < r1.len() ==> same_entry(#[trigger] r1[k], r2[k]),
        tree_block(r1, paths, ds) == tree_block(r2, paths, ds),
{
    let o1 = choose|o: Seq<usize>| arranged_by(entries, r1, o);
    let o2 = choose|o: Seq<usize>| arranged_by(entries, r2, o);
    lemma_natural_order_unique(keys_of(entries), o1, o2);
    reveal(is_permutation);
    assert forall|k: int| 0 <= k < r1.len() implies same_entry(#[trigger] r1[k], r2[k]) by {
        assert(same_entry(r1[k], entries[o1[k] as int]));
        assert(same_entry(r2[k], entries[o2[k] as int]));
    }
    let t1 = tree_block(r1, paths, ds);
    let t2 = tree_block(r2, paths, ds);
    assert forall|k: int| 0 <= k < t1.len() implies t1[k] == t2[k] by {
        if 1 <= k <= r1.len() {
            assert(same_entry(r1[k - 1], r2[k - 1]));
        }
    }
    assert(t1 =~= t2);
}

} // verus!

verus! {

/// Compares two walked entries in natural order of their sort keys.
pub fn compare_dir_entry(a: &WalkedEntry, b: &WalkedEntry) -> (r: Ordering)
    ensures
        r == natural_cmp(entry_key(*a), entry_key(*b)),
{
    let sa = path_string_for_sort(a.rel.as_str(), a.is_dir);
    let sb = path_string_for_sort(b.rel.as_str(), b.is_dir);
    natural_compare(sa.as_str(), sb.as_str())
}

} // verus!

verus! {

/// Whether `b` holds the entries of `a` in another order: `b[k]` is
/// `a[perm[k]]`.
pub open spec fn rearranged(a: Seq<WalkedEntry>, b: Seq<WalkedEntry>, perm: Seq<usize>) -> bool {
    &&& b.len() == a.len()
    &&& is_permutation(perm, a.len())
    &&& forall|k: int| 0 <= k < b.len() ==> same_entry(#[trigger] b[k], a[perm[k] as int])
}

/// Whether no two entries have sort keys that compare equal.
pub open spec fn keys_never_tie(entries: Seq<WalkedEntry>) -> bool {
    forall|i: int, j: int|
        0 <= i < entries.len() && 0 <= j < entries.len() && i != j ==> natural_cmp(
            #[trigger] entry_key(entries[i]),
            #[trigger] entry_key(entries[j]),
        ) != Ordering::Equal
}

/// The order in which a walk yields its entries does not matter: where no
/// two sort keys compare equal, sorting any rearrangement of the same
/// entries gives the same list.
pub proof fn lemma_sort_ignores_walk_order(
    a: Seq<WalkedEntry>,
    b: Seq<WalkedEntry>,
    perm: Seq<usize>,
    ra: Seq<WalkedEntry>,
    rb: Seq<WalkedEntry>,
)
    requires
        a.len() <= usize::MAX,
        rearranged(a, b, perm),
        keys_never_tie(a),
        natural_arrangement(a, ra),
        natural_arrangement(b, rb),
    ensures
        ra.len() == rb.len(),
        forall|k: int| 0 <= k < ra.len() ==> same_entry(#[trigger] ra[k], rb[k]),
{
    let n = a.len();
    let oa = choose|o: Seq<usize>| arranged_by(a, ra, o);
    let ob = choose|o: Seq<usize>| arranged_by(b, rb, o);
    let ka = keys_of(a);
    let kb = keys_of(b);
    reveal(is_permutation);
    let c = Seq::new(n, |k: int| perm[ob[k] as int]);
    assert forall|k: int| 0 <= k < n implies #[trigger] kb[ob[k] as int] == ka[c[k] as int] by {
        assert(same_entry(b[ob[k] as int], a[perm[ob[k] as int] as int]));
    }
    assert forall|i: int| 0 <= i < c.len() implies #[trigger] c[i] < n by {
        assert(ob[i] < n);
    }
    assert forall|i: int, j: int| 0 <= i < c.len() && 0 <= j < c.len() && i != j implies c[i]
        != c[j] by {
        assert(ob[i] != ob[j]);
    }
    assert forall|v: usize| v < n implies #[trigger] c.contains(v) by {
        assert(perm.contains(v));
        let m = choose|m: int| 0 <= m < perm.len() && perm[m] == v;
        assert(ob.contains(m as usize));
        let k = choose|k: int| 0 <= k < ob.len() && ob[k] == m as usize;
        assert(ob[k] as int == m);
        assert(c[k] == perm[m]);
    }
    assert(is_permutation(c, n));
    reveal(naturally_sorted);
    assert forall|i: int| 0 <= i < c.len() - 1 implies #[trigger] in_order_at(ka, c, i) by {
        assert(in_order_at(kb, ob, i));
        assert(kb[ob[i] as int] == ka[c[i] as int]);
        assert(kb[ob[i + 1] as int] == ka[c[i + 1] as int]);
    }
    assert(naturally_sorted(ka, c));
    reveal(keeps_ties_in_place);
    assert forall|i: int, j: int| 0 <= i < j < c.len() && c[i] > c[j] implies natural_cmp(
        ka[c[i] as int],
        ka[c[j] as int],
    ) == Ordering::Less by {
        lemma_sorted_pairwise(ka, c, i, j);
        assert(entry_key(a[c[i] as int]) == ka[c[i] as int]);
        assert(entry_key(a[c[j] as int]) == ka[c[j] as int]);
    }
    assert(keeps_ties_in_place(ka, c));
    lemma_natural_order_unique(ka, oa, c);
    assert forall|k: int| 0 <= k < ra.len() implies same_entry(#[trigger] ra[k], rb[k]) by {
        assert(same_entry(ra[k], a[oa[k] as int]));
        assert(same_entry(rb[k], b[ob[k] as int]));
        assert(same_entry(b[ob[k] as int], a[perm[ob[k] as int] as int]));
    }
}

} // verus!
