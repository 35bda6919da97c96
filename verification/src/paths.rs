//! Unix paths held as strings: joining, components, prefixes and relative
//! paths, with the meaning `std::path` gives them.

use vstd::prelude::*;

use crate::text::{chars_of, eq_lit, push_all, split_chars, split_on, string_of};

verus! {

/// `base.join(rel)`: an absolute `rel` replaces `base`; otherwise a separator
/// is added unless `base` is empty or already ends in one.
pub open spec fn path_join(base: Seq<char>, rel: Seq<char>) -> Seq<char> {
    if rel.len() > 0 && rel[0] == '/' {
        rel
    } else if base.len() == 0 || base.last() == '/' {
        base + rel
    } else {
        base + seq!['/'] + rel
    }
}

/// Joins a relative or absolute path onto `base`.
pub fn join(base: &Vec<char>, rel: &Vec<char>) -> (r: Vec<char>)
    ensures
        r@ == path_join(base@, rel@),
{
    if rel.len() > 0 && rel[0] == '/' {
        return rel.clone();
    }
    let mut out = base.clone();
    if !(base.len() == 0 || base[base.len() - 1] == '/') {
        out.push('/');
    }
    push_all(&mut out, rel);
    out
}

/// Joins two string paths.
pub fn join_str(base: &str, rel: &str) -> (r: String)
    ensures
        r@ == path_join(base@, rel@),
{
    let b = chars_of(base);
    let r = chars_of(rel);
    let j = join(&b, &r);
    string_of(&j)
}

/// The normal components among the pieces between separators: empty pieces
/// (repeated or trailing separators) and `.` are dropped.
pub open spec fn normal_parts(pieces: Seq<Seq<char>>) -> Seq<Seq<char>>
    decreases pieces.len(),
{
    if pieces.len() == 0 {
        Seq::<Seq<char>>::empty()
    } else {
        let rest = normal_parts(pieces.drop_last());
        if pieces.last().len() == 0 || pieces.last() == "."@ {
            rest
        } else {
            rest.push(pieces.last())
        }
    }
}

/// The component a path starts with besides its normal ones: the root
/// (written `/`) or the current directory `.`.
pub open spec fn lead_component(p: Seq<char>) -> Seq<Seq<char>> {
    if p.len() > 0 && p[0] == '/' {
        seq!["/"@]
    } else if p == "."@ || (p.len() >= 2 && p[0] == '.' && p[1] == '/') {
        seq!["."@]
    } else {
        Seq::<Seq<char>>::empty()
    }
}

/// `Path::components`: the root (written `/`) for absolute paths, a leading
/// `.` for paths starting with the current directory, then the other parts.
pub open spec fn components(p: Seq<char>) -> Seq<Seq<char>> {
    lead_component(p) + normal_parts(split_on(p, '/'))
}

/// The components of a path.
pub fn components_of(p: &Vec<char>) -> (r: Vec<Vec<char>>)
    ensures
        r@.map_values(|c: Vec<char>| c@) == components(p@),
{
    let pieces = split_chars(p, '/');
    let ghost pv = pieces@.map_values(|c: Vec<char>| c@);
    let mut out: Vec<Vec<char>> = Vec::new();
    if p.len() > 0 && p[0] == '/' {
        let mut root: Vec<char> = Vec::new();
        root.push('/');
        proof {
            reveal_strlit("/");
            assert(root@ =~= "/"@);
        }
        out.push(root);
    } else if eq_lit(p, ".") || (p.len() >= 2 && p[0] == '.' && p[1] == '/') {
        let mut cur: Vec<char> = Vec::new();
        cur.push('.');
        proof {
            reveal_strlit(".");
            assert(cur@ =~= "."@);
        }
        out.push(cur);
    }
    let ghost lead = out@.map_values(|c: Vec<char>| c@);
    assert(lead =~= lead_component(p@));
    let mut i: usize = 0;
    proof {
        assert(pv.take(0) =~= Seq::<Seq<char>>::empty());
        assert(out@.map_values(|c: Vec<char>| c@) =~= lead + normal_parts(pv.take(0)));
    }
    while i < pieces.len()
        invariant
            pv == pieces@.map_values(|c: Vec<char>| c@),
            i <= pieces@.len(),
            out@.map_values(|c: Vec<char>| c@) == lead + normal_parts(pv.take(i as int)),
        decreases pieces@.len() - i,
    {
        proof {
            assert(pv.take(i + 1).drop_last() =~= pv.take(i as int));
            assert(pv.take(i + 1).last() == pieces@[i as int]@);
        }
        let piece = &pieces[i];
        if !(piece.len() == 0 || eq_lit(piece, ".")) {
            let ghost before = out@.map_values(|c: Vec<char>| c@);
            out.push(piece.clone());
            proof {
                assert(out@.map_values(|c: Vec<char>| c@) =~= before.push(piece@));
            }
        }
        i = i + 1;
    }
    proof {
        assert(pv.take(pieces@.len() as int) =~= pv);
    }
    out
}

/// `Path::starts_with`: the components of `base` are a prefix of those of `p`.
pub open spec fn path_starts_with(p: Seq<char>, base: Seq<char>) -> bool {
    let pc = components(p);
    let bc = components(base);
    bc.len() <= pc.len() && pc.take(bc.len() as int) == bc
}

/// Whether the component list `pre` is a prefix of `cs`.
fn components_prefix(cs: &Vec<Vec<char>>, pre: &Vec<Vec<char>>) -> (b: bool)
    ensures
        b == {
            let c = cs@.map_values(|x: Vec<char>| x@);
            let p = pre@.map_values(|x: Vec<char>| x@);
            p.len() <= c.len() && c.take(p.len() as int) == p
        },
{
    let ghost c = cs@.map_values(|x: Vec<char>| x@);
    let ghost p = pre@.map_values(|x: Vec<char>| x@);
    if pre.len() > cs.len() {
        return false;
    }
    let mut i: usize = 0;
    while i < pre.len()
        invariant
            c == cs@.map_values(|x: Vec<char>| x@),
            p == pre@.map_values(|x: Vec<char>| x@),
            pre@.len() <= cs@.len(),
            i <= pre@.len(),
            forall|j: int| 0 <= j < i ==> c[j] == p[j],
        decreases pre@.len() - i,
    {
        if !chars_equal(&cs[i], &pre[i]) {
            assert(c.take(p.len() as int)[i as int] != p[i as int]);
            return false;
        }
        i = i + 1;
    }
    assert(c.take(p.len() as int) =~= p);
    true
}

/// Whether two character vectors are equal.
pub fn chars_equal(a: &Vec<char>, b: &Vec<char>) -> (r: bool)
    ensures
        r == (a@ == b@),
{
    if a.len() != b.len() {
        return false;
    }
    let mut i: usize = 0;
    while i < a.len()
        invariant
            a@.len() == b@.len(),
            i <= a@.len(),
            forall|j: int| 0 <= j < i ==> a@[j] == b@[j],
        decreases a@.len() - i,
    {
        if a[i] != b[i] {
            return false;
        }
        i = i + 1;
    }
    assert(a@ =~= b@);
    true
}

/// Whether path `p` starts with path `base`, component by component.
pub fn starts_with_path(p: &str, base: &str) -> (b: bool)
    ensures
        b == path_starts_with(p@, base@),
{
    let pc = components_of(&chars_of(p));
    let bc = components_of(&chars_of(base));
    components_prefix(&pc, &bc)
}

/// The path built by pushing each component in turn onto `base`.
pub open spec fn pushed_all(base: Seq<char>, comps: Seq<Seq<char>>) -> Seq<char>
    decreases comps.len(),
{
    if comps.len() == 0 {
        base
    } else {
        path_join(pushed_all(base, comps.drop_last()), comps.last())
    }
}

/// The number of leading components two lists share.
pub open spec fn common_prefix_len(a: Seq<Seq<char>>, b: Seq<Seq<char>>) -> nat
    decreases a.len(),
{
    if a.len() == 0 || b.len() == 0 || a[0] != b[0] {
        0
    } else {
        1 + common_prefix_len(a.skip(1), b.skip(1))
    }
}

/// `n` parent-directory components.
pub open spec fn parents(n: nat) -> Seq<Seq<char>> {
    Seq::new(n, |i: int| ".."@)
}

/// The path from `from` to `to`: one `..` for each component of `from` past
/// the shared prefix, then the remaining components of `to`.
pub open spec fn relative(from: Seq<char>, to: Seq<char>) -> Seq<char> {
    let f = components(from);
    let t = components(to);
    let k = common_prefix_len(f, t);
    pushed_all(Seq::<char>::empty(), parents((f.len() - k) as nat) + t.skip(k as int))
}

/// `common_prefix_len` counts equal leading components and stops at the first
/// difference or at the end of either list.
proof fn lemma_common_prefix(a: Seq<Seq<char>>, b: Seq<Seq<char>>, k: int)
    requires
        0 <= k <= a.len(),
        k <= b.len(),
        forall|j: int| 0 <= j < k ==> a[j] == b[j],
        k == a.len() || k == b.len() || a[k] != b[k],
    ensures
        common_prefix_len(a, b) == k,
    decreases k,
{
    if k > 0 {
        assert(a[0] == b[0]);
        lemma_common_prefix(a.skip(1), b.skip(1), k - 1);
    }
}

/// A path below `from` is reached from it without any `..`: the relative
/// path is made of the components of `to` past those of `from`.
pub proof fn law_relative_below(from: Seq<char>, to: Seq<char>)
    requires
        path_starts_with(to, from),
    ensures
        relative(from, to) == pushed_all(Seq::<char>::empty(), components(to).skip(components(from).len() as int)),
{
    let f = components(from);
    let t = components(to);
    assert forall|j: int| 0 <= j < f.len() implies f[j] == t[j] by {
        assert(t.take(f.len() as int)[j] == t[j]);
    }
    lemma_common_prefix(f, t, f.len() as int);
    assert(parents(0) + t.skip(f.len() as int) =~= t.skip(f.len() as int));
}

/// Computes the relative path from the `from` path to the `to` path.
///
/// Both paths are taken as they are (callers canonicalize them first). The
/// component lists must differ: for equal ones the comparison loop of this
/// algorithm never ends.
pub fn relative_path(from: &str, to: &str) -> (r: String)
    requires
        components(from@) != components(to@),
    ensures
        r@ == relative(from@, to@),
{
    let f = components_of(&chars_of(from));
    let t = components_of(&chars_of(to));
    let ghost fv = f@.map_values(|x: Vec<char>| x@);
    let ghost tv = t@.map_values(|x: Vec<char>| x@);
    let mut k: usize = 0;
    while k < f.len() && k < t.len() && chars_equal(&f[k], &t[k])
        invariant
            fv == f@.map_values(|x: Vec<char>| x@),
            tv == t@.map_values(|x: Vec<char>| x@),
            k <= f@.len(),
            k <= t@.len(),
            forall|j: int| 0 <= j < k ==> fv[j] == tv[j],
        decreases f@.len() - k,
    {
        k = k + 1;
    }
    proof {
        lemma_common_prefix(fv, tv, k as int);
    }
    let mut comps: Vec<Vec<char>> = Vec::new();
    let mut i: usize = k;
    while i < f.len()
        invariant
            k <= i <= f@.len(),
            comps@.map_values(|x: Vec<char>| x@) == parents((i - k) as nat),
        decreases f@.len() - i,
    {
        let ghost before = comps@.map_values(|x: Vec<char>| x@);
        let mut up: Vec<char> = Vec::new();
        up.push('.');
        up.push('.');
        proof {
            reveal_strlit("..");
            assert(up@ =~= ".."@);
        }
        comps.push(up);
        i = i + 1;
        proof {
            assert(comps@.map_values(|x: Vec<char>| x@) =~= before.push(".."@));
            assert(comps@.map_values(|x: Vec<char>| x@) =~= parents((i - k) as nat));
        }
    }
    let ghost ups = comps@.map_values(|x: Vec<char>| x@);
    let mut j: usize = k;
    while j < t.len()
        invariant
            tv == t@.map_values(|x: Vec<char>| x@),
            k <= j <= t@.len(),
            comps@.map_values(|x: Vec<char>| x@) == ups + tv.subrange(k as int, j as int),
        decreases t@.len() - j,
    {
        let ghost before = comps@.map_values(|x: Vec<char>| x@);
        let c = t[j].clone();
        assert(c@ =~= t@[j as int]@);
        comps.push(c);
        j = j + 1;
        proof {
            assert(comps@.map_values(|x: Vec<char>| x@) =~= before.push(tv[j - 1]));
            assert(comps@.map_values(|x: Vec<char>| x@) =~= ups + tv.subrange(k as int, j as int));
        }
    }
    let ghost all = comps@.map_values(|x: Vec<char>| x@);
    assert(all =~= parents((fv.len() - k) as nat) + tv.skip(k as int));
    let mut out: Vec<char> = Vec::new();
    let mut m: usize = 0;
    proof {
        assert(all.take(0) =~= Seq::<Seq<char>>::empty());
    }
    while m < comps.len()
        invariant
            all == comps@.map_values(|x: Vec<char>| x@),
            m <= comps@.len(),
            out@ == pushed_all(Seq::<char>::empty(), all.take(m as int)),
        decreases comps@.len() - m,
    {
        proof {
            assert(all.take(m + 1).drop_last() =~= all.take(m as int));
        }
        out = join(&out, &comps[m]);
        m = m + 1;
    }
    proof {
        assert(all.take(comps@.len() as int) =~= all);
    }
    string_of(&out)
}

} // verus!
