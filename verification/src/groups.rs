//! `phylum group list`: the groups in a stable order, by organization
//! (legacy groups without one first), then by name.

use vstd::prelude::*;

use crate::report::ListGroupsEntry;
use crate::text::opt_view;

verus! {

broadcast use vstd::seq_lib::group_to_multiset_ensures;

/// Whether `a` comes before `b` in the order of `str`: character by
/// character, a proper prefix first.
pub open spec fn text_lt(a: Seq<char>, b: Seq<char>) -> bool
    decreases a.len(),
{
    if a.len() == 0 {
        b.len() > 0
    } else if b.len() == 0 {
        false
    } else if a[0] != b[0] {
        a[0] < b[0]
    } else {
        text_lt(a.drop_first(), b.drop_first())
    }
}

proof fn lemma_text_lt_irreflexive(a: Seq<char>)
    ensures
        !text_lt(a, a),
    decreases a.len(),
{
    if a.len() > 0 {
        lemma_text_lt_irreflexive(a.drop_first());
    }
}

proof fn lemma_text_lt_transitive(a: Seq<char>, b: Seq<char>, c: Seq<char>)
    requires
        text_lt(a, b),
        text_lt(b, c),
    ensures
        text_lt(a, c),
    decreases a.len(),
{
    if a.len() > 0 && b.len() > 0 && c.len() > 0 && a[0] == b[0] && b[0] == c[0] {
        lemma_text_lt_transitive(a.drop_first(), b.drop_first(), c.drop_first());
    }
}

proof fn lemma_text_lt_total(a: Seq<char>, b: Seq<char>)
    ensures
        a == b || text_lt(a, b) || text_lt(b, a),
    decreases a.len(),
{
    if a.len() > 0 && b.len() > 0 {
        if a[0] == b[0] {
            lemma_text_lt_total(a.drop_first(), b.drop_first());
            if a.drop_first() == b.drop_first() {
                assert(a =~= seq![a[0]] + a.drop_first());
                assert(b =~= seq![b[0]] + b.drop_first());
            }
        }
    } else if a.len() == 0 && b.len() == 0 {
        assert(a =~= b);
    }
}

/// The sort key of a group: organization, then name.
pub open spec fn group_key(e: ListGroupsEntry) -> (Option<Seq<char>>, Seq<char>) {
    (opt_view(e.org), e.name@)
}

/// Whether key `a` comes before key `b`: no organization first, then
/// organizations in order, then names in order.
pub open spec fn key_lt(a: (Option<Seq<char>>, Seq<char>), b: (Option<Seq<char>>, Seq<char>)) -> bool {
    match (a.0, b.0) {
        (None, Some(_)) => true,
        (Some(_), None) => false,
        (Some(x), Some(y)) => text_lt(x, y) || (x == y && text_lt(a.1, b.1)),
        (None, None) => text_lt(a.1, b.1),
    }
}

proof fn lemma_key_order(
    a: (Option<Seq<char>>, Seq<char>),
    b: (Option<Seq<char>>, Seq<char>),
    c: (Option<Seq<char>>, Seq<char>),
)
    ensures
        !key_lt(a, a),
        key_lt(a, b) && key_lt(b, c) ==> key_lt(a, c),
        a == b || key_lt(a, b) || key_lt(b, a),
{
    lemma_text_lt_irreflexive(a.1);
    if let Some(x) = a.0 {
        lemma_text_lt_irreflexive(x);
    }
    if key_lt(a, b) && key_lt(b, c) {
        match (a.0, b.0, c.0) {
            (Some(x), Some(y), Some(z)) => {
                if text_lt(x, y) && text_lt(y, z) {
                    lemma_text_lt_transitive(x, y, z);
                }
                if text_lt(a.1, b.1) && text_lt(b.1, c.1) {
                    lemma_text_lt_transitive(a.1, b.1, c.1);
                }
            },
            (None, None, None) => {
                lemma_text_lt_transitive(a.1, b.1, c.1);
            },
            _ => {},
        }
    }
    lemma_text_lt_total(a.1, b.1);
    match (a.0, b.0) {
        (Some(x), Some(y)) => {
            lemma_text_lt_total(x, y);
        },
        _ => {},
    }
}

/// The keys of a list of groups.
pub open spec fn group_keys(v: Seq<ListGroupsEntry>) -> Seq<(Option<Seq<char>>, Seq<char>)> {
    v.map_values(|e: ListGroupsEntry| group_key(e))
}

/// Whether keys are in order: no later one comes before an earlier one.
pub open spec fn keys_sorted(k: Seq<(Option<Seq<char>>, Seq<char>)>) -> bool {
    forall|i: int, j: int| 0 <= i < j < k.len() ==> !key_lt(#[trigger] k[j], #[trigger] k[i])
}

/// Whether `a` comes before `b` in the order of `str`.
fn text_less(a: &str, b: &str) -> (r: bool)
    ensures
        r == text_lt(a@, b@),
{
    let n = a.unicode_len();
    let m = b.unicode_len();
    let mut i: usize = 0;
    assert(a@.skip(0) =~= a@);
    assert(b@.skip(0) =~= b@);
    while i < n && i < m
        invariant
            n == a@.len(),
            m == b@.len(),
            i <= n,
            i <= m,
            text_lt(a@, b@) == text_lt(a@.skip(i as int), b@.skip(i as int)),
        decreases n - i,
    {
        let x = a.get_char(i);
        let y = b.get_char(i);
        proof {
            assert(a@.skip(i as int)[0] == x);
            assert(b@.skip(i as int)[0] == y);
            assert(a@.skip(i as int).drop_first() =~= a@.skip(i + 1));
            assert(b@.skip(i as int).drop_first() =~= b@.skip(i + 1));
        }
        if x != y {
            return x < y;
        }
        i = i + 1;
    }
    proof {
        assert(a@.skip(i as int).len() == n - i);
        assert(b@.skip(i as int).len() == m - i);
    }
    i == n && i < m
}

/// Whether group `a` comes before group `b`.
fn group_less(a: &ListGroupsEntry, b: &ListGroupsEntry) -> (r: bool)
    ensures
        r == key_lt(group_key(*a), group_key(*b)),
{
    match (&a.org, &b.org) {
        (None, Some(_)) => true,
        (Some(_), None) => false,
        (Some(x), Some(y)) => {
            if text_less(x.as_str(), y.as_str()) {
                true
            } else if text_less(y.as_str(), x.as_str()) {
                false
            } else {
                proof {
                    lemma_text_lt_total(x@, y@);
                }
                text_less(a.name.as_str(), b.name.as_str())
            }
        },
        (None, None) => text_less(a.name.as_str(), b.name.as_str()),
    }
}

/// Copies a group entry.
fn copy_group(e: &ListGroupsEntry) -> (r: ListGroupsEntry)
    ensures
        group_key(r) == group_key(*e),
{
    let org = match &e.org {
        Some(o) => Some(String::from_str(o.as_str())),
        None => None,
    };
    ListGroupsEntry { org, name: String::from_str(e.name.as_str()) }
}

/// The groups in order: by organization (legacy groups, which have none,
/// first), then by name. The result holds the same groups.
pub fn sort_groups(groups: &Vec<ListGroupsEntry>) -> (r: Vec<ListGroupsEntry>)
    ensures
        keys_sorted(group_keys(r@)),
        group_keys(r@).to_multiset() == group_keys(groups@).to_multiset(),
{
    let mut out: Vec<ListGroupsEntry> = Vec::new();
    let mut i: usize = 0;
    while i < groups.len()
        invariant
            i <= groups@.len(),
            keys_sorted(group_keys(out@)),
            group_keys(out@).to_multiset() == group_keys(groups@.take(i as int)).to_multiset(),
        decreases groups@.len() - i,
    {
        let x = &groups[i];
        let ghost kx = group_key(*x);
        let ghost ko = group_keys(out@);
        let mut p: usize = 0;
        while p < out.len() && !group_less(x, &out[p])
            invariant
                p <= out@.len(),
                ko == group_keys(out@),
                kx == group_key(*x),
                forall|q: int| 0 <= q < p ==> !key_lt(kx, #[trigger] ko[q]),
            decreases out@.len() - p,
        {
            p = p + 1;
        }
        proof {
            if p < out@.len() {
                assert(key_lt(kx, ko[p as int]));
            }
        }
        out.insert(p, copy_group(x));
        proof {
            let kn = group_keys(out@);
            assert(kn =~= ko.insert(p as int, kx));
            assert forall|a: int, b: int| 0 <= a < b < kn.len() implies !key_lt(
                #[trigger] kn[b],
                #[trigger] kn[a],
            ) by {
                if a < p && b == p {
                    lemma_key_order(kx, ko[a], kx);
                } else if a == p && b > p {
                    // ko[p] <= ko[b - 1], and kx < ko[p].
                    lemma_key_order(kx, ko[p as int], ko[b - 1]);
                    lemma_key_order(ko[b - 1], kx, ko[p as int]);
                    lemma_key_order(ko[p as int], ko[b - 1], ko[p as int]);
                    if b - 1 > p {
                        assert(!key_lt(ko[b - 1], ko[p as int]));
                    }
                    lemma_key_order(ko[b - 1], kx, kx);
                    if key_lt(ko[b - 1], kx) {
                        lemma_key_order(ko[b - 1], kx, ko[p as int]);
                        lemma_key_order(ko[p as int], ko[b - 1], ko[p as int]);
                    }
                } else if a < p && b > p {
                    assert(!key_lt(ko[b - 1], ko[a]));
                } else if a > p {
                    assert(!key_lt(ko[b - 1], ko[a - 1]));
                } else {
                    assert(!key_lt(ko[b], ko[a]));
                }
            }
            assert(groups@.take(i + 1) =~= groups@.take(i as int).push(groups@[i as int]));
            assert(group_keys(groups@.take(i + 1)) =~= group_keys(groups@.take(i as int)).push(kx));
        }
        i = i + 1;
    }
    proof {
        assert(groups@.take(groups@.len() as int) =~= groups@);
    }
    out
}

} // verus!
