//! Selecting the files of a listing by extension and putting them in natural
//! order.

use vstd::prelude::*;
use crate::order::{lowercase, natural_compare, natural_order, to_lowercase};
use crate::paths::{extension, file_extension};
use crate::text::{strip_leading_dots, without_leading_dots};

verus! {

/// The contents of a list of strings.
pub open spec fn texts(v: Seq<String>) -> Seq<Seq<char>> {
    Seq::new(v.len(), |i: int| v[i]@)
}

/// Whether `path` has the extension `ext`. Letter case is ignored, and so are
/// the dots that `ext` starts with.
pub open spec fn has_extension(path: Seq<char>, ext: Seq<char>) -> bool {
    match extension(path) {
        Some(e) => lowercase(e) == lowercase(without_leading_dots(ext)),
        None => false,
    }
}

/// The paths of `found` that have the extension `ext`, in the order in which
/// they stand in `found`.
pub open spec fn matching(found: Seq<Seq<char>>, ext: Seq<char>) -> Seq<Seq<char>>
    decreases found.len(),
{
    if found.len() == 0 {
        Seq::empty()
    } else if has_extension(found.last(), ext) {
        matching(found.drop_last(), ext).push(found.last())
    } else {
        matching(found.drop_last(), ext)
    }
}

/// Where a new item goes in a sorted list, given its verdicts against the
/// items of the list in turn (negative: the new item sorts strictly before
/// that one): behind the last item that it does not sort strictly before,
/// looking from the end.
pub open spec fn position_for(verdicts: Seq<int>) -> nat
    decreases verdicts.len(),
{
    if verdicts.len() > 0 && verdicts.last() < 0 {
        position_for(verdicts.drop_last())
    } else {
        verdicts.len()
    }
}

/// The verdicts of `x` against each item of `s`.
pub open spec fn verdicts_against(s: Seq<Seq<char>>, x: Seq<char>) -> Seq<int> {
    Seq::new(s.len(), |k: int| natural_order(x, s[k]))
}

/// Where `x` goes in `s`.
pub open spec fn insert_position(s: Seq<Seq<char>>, x: Seq<char>) -> nat {
    position_for(verdicts_against(s, x))
}

/// Verdicts as numbers.
pub open spec fn numbers(verdicts: Seq<i8>) -> Seq<int> {
    Seq::new(verdicts.len(), |k: int| verdicts[k] as int)
}

/// `s` in natural order. Items between which the comparison does not decide
/// keep the order they had in `s`.
pub open spec fn natural_sort(s: Seq<Seq<char>>) -> Seq<Seq<char>>
    decreases s.len(),
{
    if s.len() == 0 {
        Seq::empty()
    } else {
        let head = natural_sort(s.drop_last());
        head.insert(insert_position(head, s.last()) as int, s.last())
    }
}

/// `a` may stand directly before `b`: `a` sorts before `b`, or at least `b`
/// does not sort before `a`.
pub open spec fn in_order(a: Seq<char>, b: Seq<char>) -> bool {
    natural_order(a, b) < 0 || natural_order(b, a) >= 0
}

/// Every item stands in order with the one that follows it.
pub open spec fn neighbours_in_order(s: Seq<Seq<char>>) -> bool {
    forall|i: int| 0 <= i && i + 1 < s.len() ==> in_order(#[trigger] s[i], s[i + 1])
}

/// The comparison orders `items` as a list should be ordered: of two items
/// the second is at most the first unless the first sorts before it, and
/// "at most" carries over from pair to pair.
pub open spec fn is_ordered_by_comparison(items: Seq<Seq<char>>) -> bool {
    &&& forall|a: Seq<char>, b: Seq<char>|
        items.contains(a) && items.contains(b) && #[trigger] natural_order(a, b) >= 0
            ==> natural_order(b, a) <= 0
    &&& forall|a: Seq<char>, b: Seq<char>, c: Seq<char>|
        items.contains(a) && items.contains(b) && items.contains(c) && #[trigger] natural_order(
            a,
            b,
        ) <= 0 && #[trigger] natural_order(b, c) <= 0 ==> natural_order(a, c) <= 0
}

/// No item sorts after one that stands behind it.
pub open spec fn sorted(s: Seq<Seq<char>>) -> bool {
    forall|i: int, j: int| 0 <= i < j < s.len() ==> natural_order(s[i], s[j]) <= 0
}

/// What the files of a listing are once selected by `ext` and ordered.
pub open spec fn files_in_order(found: Seq<Seq<char>>, ext: Seq<char>) -> Seq<Seq<char>> {
    natural_sort(matching(found, ext))
}

/// The position lies within the list; every verdict from there on is
/// negative, and the one just ahead of it is not.
pub proof fn lemma_position_for(verdicts: Seq<int>)
    ensures
        position_for(verdicts) <= verdicts.len(),
        forall|k: int| position_for(verdicts) <= k < verdicts.len() ==> verdicts[k] < 0,
        position_for(verdicts) > 0 ==> verdicts[position_for(verdicts) - 1] >= 0,
    decreases verdicts.len(),
{
    if verdicts.len() > 0 && verdicts.last() < 0 {
        let t = verdicts.drop_last();
        lemma_position_for(t);
        let p = position_for(t);
        assert forall|k: int| p <= k < verdicts.len() implies verdicts[k] < 0 by {
            if k < t.len() {
                assert(verdicts[k] == t[k]);
            }
        }
        if p > 0 {
            assert(verdicts[p - 1] == t[p - 1]);
        }
    }
}

/// The position is the only one of which both of these hold.
pub proof fn lemma_position_for_is(verdicts: Seq<int>, j: nat)
    requires
        j <= verdicts.len(),
        forall|k: int| j <= k < verdicts.len() ==> verdicts[k] < 0,
        j > 0 ==> verdicts[j - 1] >= 0,
    ensures
        position_for(verdicts) == j,
    decreases verdicts.len(),
{
    if j < verdicts.len() {
        let t = verdicts.drop_last();
        assert(verdicts[verdicts.len() - 1] < 0);
        assert forall|k: int| j <= k < t.len() implies t[k] < 0 by {
            assert(t[k] == verdicts[k]);
        }
        if j > 0 {
            assert(t[j - 1] == verdicts[j - 1]);
        }
        lemma_position_for_is(t, j);
    }
}

/// The insert position lies within the list; `x` sorts before everything
/// from there on, and not before the item just ahead of it.
pub proof fn lemma_insert_position(s: Seq<Seq<char>>, x: Seq<char>)
    ensures
        insert_position(s, x) <= s.len(),
        forall|k: int| insert_position(s, x) <= k < s.len() ==> natural_order(x, s[k]) < 0,
        insert_position(s, x) > 0 ==> natural_order(x, s[insert_position(s, x) - 1]) >= 0,
{
    let verdicts = verdicts_against(s, x);
    lemma_position_for(verdicts);
    assert forall|k: int| insert_position(s, x) <= k < s.len() implies natural_order(x, s[k])
        < 0 by {
        assert(verdicts[k] == natural_order(x, s[k]));
    }
}

/// Selection keeps exactly the paths that have the extension: a path is
/// among the selected ones if and only if it was found and has it.
pub proof fn lemma_matching_keeps_exactly(found: Seq<Seq<char>>, ext: Seq<char>, p: Seq<char>)
    ensures
        matching(found, ext).contains(p) <==> found.contains(p) && has_extension(p, ext),
    decreases found.len(),
{
    if found.len() > 0 {
        let rest = found.drop_last();
        let m = matching(rest, ext);
        lemma_matching_keeps_exactly(rest, ext, p);
        if found.contains(p) {
            let i = choose|i: int| 0 <= i < found.len() && found[i] == p;
            if i < rest.len() {
                assert(rest[i] == p);
            }
        }
        if rest.contains(p) {
            let i = choose|i: int| 0 <= i < rest.len() && rest[i] == p;
            assert(found[i] == p);
        }
        if has_extension(found.last(), ext) {
            let r = m.push(found.last());
            if m.contains(p) {
                let i = choose|i: int| 0 <= i < m.len() && m[i] == p;
                assert(r[i] == p);
            }
            if found.last() == p {
                assert(r[r.len() - 1] == p);
                assert(found[found.len() - 1] == p);
            }
            if r.contains(p) {
                let i = choose|i: int| 0 <= i < r.len() && r[i] == p;
                if i < m.len() {
                    assert(m[i] == p);
                }
            }
        } else {
            if found.last() == p {
                assert(!has_extension(p, ext));
            }
        }
    }
}

/// Selection never makes a listing longer.
pub proof fn lemma_matching_len(found: Seq<Seq<char>>, ext: Seq<char>)
    ensures
        matching(found, ext).len() <= found.len(),
    decreases found.len(),
{
    if found.len() > 0 {
        lemma_matching_len(found.drop_last(), ext);
    }
}

/// Sorting rearranges: the result holds the same items, each as often as the
/// input, and so has its length.
pub proof fn lemma_natural_sort_permutes(s: Seq<Seq<char>>)
    ensures
        natural_sort(s).to_multiset() == s.to_multiset(),
        natural_sort(s).len() == s.len(),
    decreases s.len(),
{
    broadcast use vstd::seq_lib::to_multiset_build, vstd::seq_lib::to_multiset_insert;

    if s.len() > 0 {
        let t = s.drop_last();
        let head = natural_sort(t);
        lemma_natural_sort_permutes(t);
        lemma_insert_position(head, s.last());
        assert(s =~= t.push(s.last()));
        assert(t.push(s.last()).to_multiset() =~= t.to_multiset().insert(s.last()));
        assert(natural_sort(s).to_multiset() =~= s.to_multiset());
    } else {
        assert(natural_sort(s) =~= s);
    }
}

/// In a sorted list every item stands in order with the one that follows it.
pub proof fn lemma_natural_sort_ordered(s: Seq<Seq<char>>)
    ensures
        neighbours_in_order(natural_sort(s)),
    decreases s.len(),
{
    if s.len() > 0 {
        let head = natural_sort(s.drop_last());
        let x = s.last();
        let p = insert_position(head, x) as int;
        lemma_natural_sort_ordered(s.drop_last());
        lemma_insert_position(head, x);
        let r = natural_sort(s);
        assert forall|i: int| 0 <= i && i + 1 < r.len() implies in_order(
            #[trigger] r[i],
            r[i + 1],
        ) by {
            if i + 1 < p {
                assert(in_order(head[i], head[i + 1]));
            } else if i + 1 == p {
                assert(r[i] == head[p - 1]);
                assert(r[i + 1] == x);
            } else if i == p {
                assert(r[i] == x);
                assert(r[i + 1] == head[p]);
            } else {
                assert(in_order(head[i - 1], head[i]));
            }
        }
    }
}

/// Sorting neither adds an item nor loses one.
pub proof fn lemma_natural_sort_same_items(s: Seq<Seq<char>>)
    ensures
        forall|v: Seq<char>| natural_sort(s).contains(v) <==> s.contains(v),
{
    broadcast use vstd::seq_lib::to_multiset_contains;

    lemma_natural_sort_permutes(s);
    assert forall|v: Seq<char>| natural_sort(s).contains(v) <==> s.contains(v) by {
        assert(natural_sort(s).to_multiset().count(v) == s.to_multiset().count(v));
    }
}

/// Where the comparison orders the items as a list should be ordered, the
/// sorted list is in order throughout: no item sorts after any that stands
/// behind it.
pub proof fn lemma_natural_sort_sorted(s: Seq<Seq<char>>)
    ensures
        is_ordered_by_comparison(s) ==> sorted(natural_sort(s)),
    decreases s.len(),
{
    if is_ordered_by_comparison(s) && s.len() > 0 {
        let t = s.drop_last();
        let x = s.last();
        let head = natural_sort(t);
        let p = insert_position(head, x) as int;
        let r = natural_sort(s);
        assert forall|v: Seq<char>| t.contains(v) implies s.contains(v) by {
            let i = choose|i: int| 0 <= i < t.len() && t[i] == v;
            assert(s[i] == v);
        }
        assert(s[s.len() - 1] == x);
        assert(is_ordered_by_comparison(t));
        lemma_natural_sort_sorted(t);
        lemma_natural_sort_same_items(t);
        lemma_insert_position(head, x);
        assert forall|i: int, j: int| 0 <= i < j < r.len() implies natural_order(r[i], r[j])
            <= 0 by {
            if j < p {
                assert(r[i] == head[i] && r[j] == head[j]);
            } else if j == p {
                let before = head[p - 1];
                assert(r[j] == x);
                assert(r[i] == head[i]);
                assert(head.contains(before));
                assert(head.contains(head[i]));
                assert(natural_order(x, before) >= 0);
                assert(natural_order(before, x) <= 0);
                if i < p - 1 {
                    assert(natural_order(head[i], before) <= 0);
                }
            } else {
                assert(r[j] == head[j - 1]);
                if i < p {
                    assert(r[i] == head[i]);
                } else if i == p {
                    assert(r[i] == x);
                } else {
                    assert(r[i] == head[i - 1]);
                }
            }
        }
    }
}

/// Whether a file is wanted whose extension, in lower case, is `lowered`
/// (`None`: it has none), where `wanted` is the extension asked for, in lower
/// case too.
pub fn extension_is(lowered: &Option<String>, wanted: &str) -> (r: bool)
    ensures
        r == match *lowered {
            Some(e) => e@ == wanted@,
            None => false,
        },
{
    match lowered {
        Some(e) => {
            let same = *e == String::from_str(wanted);
            same
        },
        None => false,
    }
}

/// Whether `path` has an extension whose lower-case form is `wanted`.
fn has_lowercase_extension(path: &str, wanted: &str) -> (r: bool)
    ensures
        r == match extension(path@) {
            Some(e) => lowercase(e) == wanted@,
            None => false,
        },
{
    let lowered = match file_extension(path) {
        Some(e) => Some(to_lowercase(e.as_str())),
        None => None,
    };
    extension_is(&lowered, wanted)
}

/// Where a new item goes in a sorted list, given its verdicts against the
/// items of the list in turn.
pub fn insert_position_for(verdicts: &[i8]) -> (j: usize)
    ensures
        j == position_for(numbers(verdicts@)),
{
    let mut j: usize = verdicts.len();
    while j > 0 && verdicts[j - 1] < 0
        invariant
            j <= verdicts@.len(),
            forall|k: int| j <= k < verdicts@.len() ==> verdicts@[k] < 0,
        decreases j,
    {
        j -= 1;
    }
    proof {
        lemma_position_for_is(numbers(verdicts@), j as nat);
    }
    j
}

/// Puts `item` into a sorted list at its insert position.
fn insert_in_natural_order(list: &mut Vec<String>, item: String)
    ensures
        texts(final(list)@) == texts(old(list)@).insert(
            insert_position(texts(old(list)@), item@) as int,
            item@,
        ),
{
    let mut verdicts: Vec<i8> = Vec::new();
    let mut k: usize = 0;
    while k < list.len()
        invariant
            k <= list@.len(),
            *list == *old(list),
            verdicts@.len() == k,
            forall|i: int| 0 <= i < k ==> verdicts@[i] == natural_order(item@, list@[i]@),
        decreases list@.len() - k,
    {
        verdicts.push(natural_compare(item.as_str(), list[k].as_str()));
        k += 1;
    }
    let j = insert_position_for(verdicts.as_slice());
    proof {
        assert(numbers(verdicts@) =~= verdicts_against(texts(list@), item@));
        lemma_position_for(numbers(verdicts@));
    }
    list.insert(j, item);
    assert(texts(list@) =~= texts(old(list)@).insert(j as int, item@));
}

/// Selects from the paths found in a directory those that have the extension
/// `ext`, and puts them in natural order by their full path.
pub fn list_files_in_directory(found: &[String], ext: &str) -> (files: Vec<String>)
    ensures
        texts(files@) == files_in_order(texts(found@), ext@),
{
    let stripped = strip_leading_dots(ext);
    let wanted = to_lowercase(stripped.as_str());
    let mut files: Vec<String> = Vec::new();
    let mut i: usize = 0;
    assert(texts(files@) =~= files_in_order(texts(found@).take(0), ext@));
    while i < found.len()
        invariant
            i <= found@.len(),
            wanted@ == lowercase(without_leading_dots(ext@)),
            texts(files@) == files_in_order(texts(found@).take(i as int), ext@),
        decreases found@.len() - i,
    {
        proof {
            let prev = texts(found@).take(i as int);
            let next = texts(found@).take(i + 1);
            let kept = matching(prev, ext@);
            assert(next.drop_last() =~= prev);
            assert(next.last() == found@[i as int]@);
            assert(kept.push(next.last()).drop_last() =~= kept);
        }
        if has_lowercase_extension(found[i].as_str(), wanted.as_str()) {
            let item = found[i].clone();
            insert_in_natural_order(&mut files, item);
        }
        i += 1;
    }
    assert(texts(found@).take(found@.len() as int) =~= texts(found@));
    files
}

} // verus!
