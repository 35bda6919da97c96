//! `phylum init`: which dependency files the user picked, from the files
//! found and the paths typed in.

use vstd::prelude::*;

use crate::markdown::views;
use crate::text::{chars_of, split_chars, split_on, string_of};

verus! {

/// What a multi-selection keeps of `items[from..]`: walking the items in
/// order with the selected indices in order, an item stays when the next
/// selected index is at most its position, and that index is then used up.
pub open spec fn kept_from(items: Seq<Seq<char>>, indices: Seq<usize>, from: int, k: int) -> Seq<Seq<char>>
    decreases items.len() - from,
{
    if from >= items.len() || from < 0 {
        Seq::<Seq<char>>::empty()
    } else if 0 <= k < indices.len() && indices[k] <= from {
        seq![items[from]] + kept_from(items, indices, from + 1, k + 1)
    } else {
        kept_from(items, indices, from + 1, k)
    }
}

/// The items a multi-selection keeps.
pub open spec fn kept(items: Seq<Seq<char>>, indices: Seq<usize>) -> Seq<Seq<char>> {
    kept_from(items, indices, 0, 0)
}

/// The items at `indices`, in order.
pub open spec fn picked(items: Seq<Seq<char>>, indices: Seq<usize>) -> Seq<Seq<char>> {
    indices.map_values(|i: usize| items[i as int])
}

/// Whether indices are strictly increasing and below `n`, as a
/// multi-selection reports them.
pub open spec fn ascending_below(indices: Seq<usize>, n: int) -> bool {
    &&& forall|a: int, b: int| 0 <= a < b < indices.len() ==> indices[a] < indices[b]
    &&& forall|a: int| 0 <= a < indices.len() ==> indices[a] < n
}

proof fn lemma_kept_picks(items: Seq<Seq<char>>, indices: Seq<usize>, from: int, k: int)
    requires
        ascending_below(indices, items.len() as int),
        0 <= from <= items.len(),
        0 <= k <= indices.len(),
        k < indices.len() ==> indices[k] >= from,
    ensures
        kept_from(items, indices, from, k) == picked(items, indices.subrange(k, indices.len() as int)),
    decreases items.len() - from,
{
    let rest = indices.subrange(k, indices.len() as int);
    if from == items.len() {
        if k < indices.len() {
            assert(indices[k] < items.len());
        }
        assert(rest.len() == 0);
        assert(picked(items, rest) =~= Seq::<Seq<char>>::empty());
    } else if k < indices.len() && indices[k] <= from {
        lemma_kept_picks(items, indices, from + 1, k + 1);
        let more = indices.subrange(k + 1, indices.len() as int);
        assert(picked(items, rest) =~= seq![items[from]] + picked(items, more));
    } else {
        lemma_kept_picks(items, indices, from + 1, k);
    }
}

/// A multi-selection that reports strictly increasing indices within the
/// list keeps exactly the items at those indices, in order.
pub proof fn law_kept_are_picked(items: Seq<Seq<char>>, indices: Seq<usize>)
    requires
        ascending_below(indices, items.len() as int),
    ensures
        kept(items, indices) == picked(items, indices),
{
    lemma_kept_picks(items, indices, 0, 0);
    assert(indices.subrange(0, indices.len() as int) =~= indices);
}

/// The selection among found dependency files, with a last choice `others`
/// added: the files kept, and whether more are to be typed in (nothing kept,
/// or `others` kept last, which is then dropped).
pub open spec fn depfile_selection(found: Seq<Seq<char>>, indices: Seq<usize>) -> (Seq<Seq<char>>, bool) {
    let sel = kept(found.push("others"@), indices);
    if sel.len() == 0 {
        (sel, true)
    } else if sel.last() == "others"@ {
        (sel.drop_last(), true)
    } else {
        (sel, false)
    }
}

/// Keeps the selected dependency files among those found, after which the
/// choice `others` was offered; says whether more files are to be typed in.
pub fn select_depfiles(found: &Vec<String>, indices: &Vec<usize>) -> (r: (Vec<String>, bool))
    ensures
        (views(r.0@), r.1) == depfile_selection(views(found@), indices@),
{
    let mut items = found.clone();
    assert(items@ =~= found@);
    items.push(String::from_str("others"));
    let ghost iv = views(found@).push("others"@);
    proof {
        assert(views(items@) =~= iv);
    }
    let mut sel: Vec<String> = Vec::new();
    let mut k: usize = 0;
    let mut from: usize = 0;
    while from < items.len()
        invariant
            iv == views(items@),
            from <= items@.len(),
            k <= from,
            views(sel@) + kept_from(iv, indices@, from as int, k as int) == kept(iv, indices@),
        decreases items@.len() - from,
    {
        let ghost before = views(sel@);
        if k < indices.len() && indices[k] <= from {
            sel.push(String::from_str(items[from].as_str()));
            proof {
                assert(views(sel@) =~= before.push(iv[from as int]));
                assert(kept_from(iv, indices@, from as int, k as int) == seq![iv[from as int]] + kept_from(
                    iv,
                    indices@,
                    from + 1,
                    k + 1,
                ));
                assert(views(sel@) + kept_from(iv, indices@, from + 1, k + 1) =~= before + kept_from(
                    iv,
                    indices@,
                    from as int,
                    k as int,
                ));
            }
            k = k + 1;
        }
        from = from + 1;
    }
    proof {
        assert(kept_from(iv, indices@, from as int, k as int) =~= Seq::<Seq<char>>::empty());
        assert(views(sel@) =~= kept(iv, indices@));
    }
    let n = sel.len();
    if n == 0 {
        return (sel, true);
    }
    let last_is_others = crate::text::eq_lit(&chars_of(sel[n - 1].as_str()), "others");
    if last_is_others {
        let ghost before = sel@;
        sel.pop();
        proof {
            assert(views(sel@) =~= views(before).drop_last());
        }
        (sel, true)
    } else {
        (sel, false)
    }
}

/// Whether `c` is white space (Unicode `White_Space`), as `str::trim` reads
/// it.
pub open spec fn is_white(c: char) -> bool {
    ('\u{9}' <= c <= '\u{d}') || c == ' ' || c == '\u{85}' || c == '\u{a0}' || c == '\u{1680}' || (
    '\u{2000}' <= c <= '\u{200a}') || c == '\u{2028}' || c == '\u{2029}' || c == '\u{202f}' || c
        == '\u{205f}' || c == '\u{3000}'
}

/// `s` without the white space at either end.
pub open spec fn trimmed(s: Seq<char>) -> Seq<char>
    decreases s.len(),
{
    if s.len() == 0 {
        s
    } else if is_white(s[0]) {
        trimmed(s.drop_first())
    } else if is_white(s.last()) {
        trimmed(s.drop_last())
    } else {
        s
    }
}

/// Whether a character is white space.
fn white(c: char) -> (r: bool)
    ensures
        r == is_white(c),
{
    ('\u{9}' <= c && c <= '\u{d}') || c == ' ' || c == '\u{85}' || c == '\u{a0}' || c == '\u{1680}' || (
    '\u{2000}' <= c && c <= '\u{200a}') || c == '\u{2028}' || c == '\u{2029}' || c == '\u{202f}'
        || c == '\u{205f}' || c == '\u{3000}'
}

/// Removes the white space at either end.
fn trim_chars(v: &Vec<char>) -> (r: Vec<char>)
    ensures
        r@ == trimmed(v@),
{
    let mut lo: usize = 0;
    let mut hi: usize = v.len();
    assert(v@.subrange(0, v@.len() as int) =~= v@);
    while lo < hi && (white(v[lo]) || white(v[hi - 1]))
        invariant
            lo <= hi <= v@.len(),
            trimmed(v@) == trimmed(v@.subrange(lo as int, hi as int)),
        decreases hi - lo,
    {
        let ghost cur = v@.subrange(lo as int, hi as int);
        if white(v[lo]) {
            proof {
                assert(cur.drop_first() =~= v@.subrange(lo + 1, hi as int));
            }
            lo = lo + 1;
        } else {
            proof {
                assert(cur.drop_last() =~= v@.subrange(lo as int, hi - 1));
            }
            hi = hi - 1;
        }
    }
    let mut out: Vec<char> = Vec::new();
    let mut i: usize = lo;
    while i < hi
        invariant
            lo <= i <= hi <= v@.len(),
            out@ == v@.subrange(lo as int, i as int),
        decreases hi - i,
    {
        out.push(v[i]);
        proof {
            assert(out@ =~= v@.subrange(lo as int, i + 1));
        }
        i = i + 1;
    }
    proof {
        let s = v@.subrange(lo as int, hi as int);
        if s.len() > 0 {
            assert(s[0] == v@[lo as int]);
            assert(s.last() == v@[hi - 1]);
        }
    }
    out
}

/// The paths of a comma separated list, without white space around them
/// and without empty ones, in order.
pub open spec fn listed_paths(pieces: Seq<Seq<char>>) -> Seq<Seq<char>>
    decreases pieces.len(),
{
    if pieces.len() == 0 {
        Seq::<Seq<char>>::empty()
    } else {
        let rest = listed_paths(pieces.drop_last());
        let t = trimmed(pieces.last());
        if t.len() == 0 {
            rest
        } else {
            rest.push(t)
        }
    }
}

/// Adds the dependency files typed in as a comma separated list: each
/// path trimmed, empty ones left out.
pub fn add_typed_depfiles(depfiles: Vec<String>, input: &str) -> (r: Vec<String>)
    ensures
        views(r@) == views(depfiles@) + listed_paths(split_on(input@, ',')),
{
    let pieces = split_chars(&chars_of(input), ',');
    let ghost pv = pieces@.map_values(|p: Vec<char>| p@);
    let mut out = depfiles;
    let ghost start = views(out@);
    let mut i: usize = 0;
    while i < pieces.len()
        invariant
            pv == pieces@.map_values(|p: Vec<char>| p@),
            pv == split_on(input@, ','),
            i <= pieces@.len(),
            views(out@) == start + listed_paths(pv.take(i as int)),
        decreases pieces@.len() - i,
    {
        let t = trim_chars(&pieces[i]);
        proof {
            assert(pv.take(i + 1).drop_last() =~= pv.take(i as int));
            assert(pv.take(i + 1).last() == pieces@[i as int]@);
        }
        if t.len() > 0 {
            let ghost before = views(out@);
            out.push(string_of(&t));
            proof {
                assert(views(out@) =~= before.push(t@));
            }
        }
        i = i + 1;
    }
    proof {
        assert(pv.take(pieces@.len() as int) =~= pv);
    }
    out
}

} // verus!
