//! Extension permissions: what resources an extension may use, how
//! permissions narrow one another, and the sandbox exceptions they grant.

use vstd::prelude::*;

use crate::dirs::{expand_home_path, expanded_home_path, home_dir, DirsError};
use crate::paths::{components, join_str, path_join, path_starts_with, starts_with_path};
use crate::text::{chars_of, contains_char, has_char, opt_str, split_chars, split_on, string_of};

verus! {

/// Resource permissions.
#[derive(Debug, PartialEq, Eq)]
pub enum Permission {
    List(Vec<String>),
    Boolean(bool),
}

/// The views of a list of strings.
pub open spec fn strs(v: Seq<String>) -> Seq<Seq<char>> {
    v.map_values(|s: String| s@)
}

/// The resources a permission allows, as Deno reads it: `None` allows nothing,
/// an empty list allows everything. An empty `List` allows nothing.
pub open spec fn allowed(p: Permission) -> Option<Seq<Seq<char>>> {
    match p {
        Permission::List(l) => if l@.len() == 0 {
            None
        } else {
            Some(strs(l@))
        },
        Permission::Boolean(b) => if b {
            Some(Seq::<Seq<char>>::empty())
        } else {
            None
        },
    }
}

/// The sandbox paths a permission opens.
pub open spec fn sandbox_path_list(p: Permission) -> Seq<Seq<char>> {
    match p {
        Permission::List(l) => strs(l@),
        Permission::Boolean(b) => if b {
            seq!["/"@]
        } else {
            Seq::<Seq<char>>::empty()
        },
    }
}

/// A resource was used without permission.
#[derive(Debug)]
pub struct PermissionError {
    pub resource_type: String,
    pub resource: String,
}

/// Copies a list of strings.
fn clone_strings(v: &Vec<String>) -> (r: Vec<String>)
    ensures
        r@ == v@,
{
    let r = v.clone();
    assert(r@ =~= v@);
    r
}

/// Whether `list` holds a string equal to `s`.
fn contains_string(list: &Vec<String>, s: &String) -> (b: bool)
    ensures
        b == strs(list@).contains(s@),
{
    let mut i: usize = 0;
    while i < list.len()
        invariant
            i <= list@.len(),
            forall|j: int| 0 <= j < i ==> list@[j]@ != s@,
        decreases list@.len() - i,
    {
        if list[i] == *s {
            assert(strs(list@)[i as int] == s@);
            return true;
        }
        i = i + 1;
    }
    assert forall|j: int| 0 <= j < strs(list@).len() implies strs(list@)[j] != s@ by {
        assert(strs(list@)[j] == list@[j]@);
    }
    false
}

impl Clone for Permission {
    fn clone(&self) -> (r: Self)
        ensures
            perm_view(r) == perm_view(*self),
    {
        match self {
            Permission::List(l) => Permission::List(clone_strings(l)),
            Permission::Boolean(b) => Permission::Boolean(*b),
        }
    }
}

impl Default for Permission {
    fn default() -> (r: Self)
        ensures
            r == Permission::Boolean(false),
    {
        Permission::Boolean(false)
    }
}

impl Permission {
    /// The allowed resources. In Deno `Some(vec![])` means "allow all"; empty
    /// lists are turned into `None` so they allow nothing.
    pub fn get(&self) -> (r: Option<Vec<String>>)
        ensures
            match r {
                Some(l) => allowed(*self) == Some(strs(l@)),
                None => allowed(*self) is None,
            },
    {
        match self {
            Permission::List(list) => if list.len() == 0 {
                None
            } else {
                Some(clone_strings(list))
            },
            Permission::Boolean(b) => if *b {
                let empty: Vec<String> = Vec::new();
                assert(strs(empty@) =~= Seq::<Seq<char>>::empty());
                Some(empty)
            } else {
                None
            },
        }
    }

    /// Get sandbox exception resource paths.
    pub fn sandbox_paths(&self) -> (r: Vec<String>)
        ensures
            strs(r@) == sandbox_path_list(*self),
    {
        match self {
            Permission::List(paths) => clone_strings(paths),
            Permission::Boolean(b) => if *b {
                let r = vec![String::from_str("/")];
                assert(strs(r@) =~= seq!["/"@]);
                r
            } else {
                let r: Vec<String> = Vec::new();
                assert(strs(r@) =~= Seq::<Seq<char>>::empty());
                r
            },
        }
    }

    /// Check if access to resource is permitted.
    pub fn validate(&self, resource: &String, resource_type: &str) -> (r: Result<
        (),
        PermissionError,
    >)
        ensures
            r is Ok <==> (*self == Permission::Boolean(true) || (*self matches Permission::List(l)
                && strs(l@).contains(resource@))),
            r matches Err(e) ==> e.resource@ == resource@ && e.resource_type@ == resource_type@,
    {
        let ok = match self {
            Permission::Boolean(b) => *b,
            Permission::List(list) => contains_string(list, resource),
        };
        if ok {
            Ok(())
        } else {
            Err(PermissionError {
                resource_type: String::from_str(resource_type),
                resource: resource.clone(),
            })
        }
    }

    /// Narrows this permission to what `parent` allows.
    ///
    /// Booleans combine with `&&`; a list under `true` stays, under `false`
    /// it becomes `false`; `true` under a list becomes that list. A list under
    /// a list must be a paths-subset of it, else the paths outside it are
    /// returned.
    pub fn subset_of(&self, parent: &Permission) -> (r: Result<Permission, Vec<String>>)
        ensures
            match r {
                Ok(p) => subset_result(perm_view(*parent), perm_view(*self)) == Ok::<
                    PermissionView,
                    Seq<Seq<char>>,
                >(perm_view(p)),
                Err(out) => subset_result(perm_view(*parent), perm_view(*self)) == Err::<
                    PermissionView,
                    Seq<Seq<char>>,
                >(strs(out@)),
            },
    {
        match (parent, self) {
            (Permission::Boolean(p), Permission::Boolean(c)) => Ok(Permission::Boolean(*p && *c)),
            (Permission::List(p), Permission::Boolean(c)) => if *c {
                Ok(Permission::List(clone_strings(p)))
            } else {
                Ok(Permission::Boolean(false))
            },
            (Permission::Boolean(p), Permission::List(c)) => if *p {
                Ok(Permission::List(clone_strings(c)))
            } else {
                Ok(Permission::Boolean(false))
            },
            (Permission::List(p), Permission::List(c)) => match Permission::paths_subset(p, c) {
                Ok(()) => Ok(Permission::List(clone_strings(c))),
                Err(without) => Err(without),
            },
        }
    }

    /// Checks that every child path lies below some parent path; the child
    /// paths below no parent are the error.
    pub fn paths_subset(parent: &Vec<String>, child: &Vec<String>) -> (r: Result<(), Vec<String>>)
        ensures
            r is Ok <==> paths_within(strs(parent@), strs(child@)),
            r matches Err(out) ==> strs(out@) == outside_paths(strs(parent@), strs(child@)),
    {
        let mut without_parent: Vec<String> = Vec::new();
        let mut i: usize = 0;
        let ghost pv = strs(parent@);
        let ghost cv = strs(child@);
        proof {
            assert(cv.take(0) =~= Seq::<Seq<char>>::empty());
        }
        while i < child.len()
            invariant
                pv == strs(parent@),
                cv == strs(child@),
                i <= child@.len(),
                strs(without_parent@) == outside_paths(pv, cv.take(i as int)),
            decreases child@.len() - i,
        {
            let c = &child[i];
            let mut found = false;
            let mut j: usize = 0;
            while j < parent.len()
                invariant
                    pv == strs(parent@),
                    j <= parent@.len(),
                    found <==> exists|k: int| 0 <= k < j && path_starts_with(c@, pv[k]),
                decreases parent@.len() - j,
            {
                let b = starts_with_path(c.as_str(), parent[j].as_str());
                proof {
                    assert(pv[j as int] == parent@[j as int]@);
                    if b {
                        assert(path_starts_with(c@, pv[j as int]));
                    }
                    if exists|k: int| 0 <= k < j + 1 && path_starts_with(c@, pv[k]) {
                        let k = choose|k: int| 0 <= k < j + 1 && path_starts_with(c@, pv[k]);
                        if k < j {
                            assert(exists|k: int| 0 <= k < j && path_starts_with(c@, pv[k]));
                        }
                    }
                }
                if b {
                    found = true;
                }
                j = j + 1;
            }
            proof {
                assert(cv.take(i + 1).drop_last() =~= cv.take(i as int));
                assert(cv.take(i + 1).last() == c@);
            }
            if !found {
                let ghost before = strs(without_parent@);
                without_parent.push(c.clone());
                proof {
                    assert(strs(without_parent@) =~= before.push(c@));
                }
            }
            i = i + 1;
        }
        proof {
            assert(cv.take(cv.len() as int) =~= cv);
            lemma_outside_paths_empty(pv, cv);
        }
        if without_parent.len() > 0 {
            Err(without_parent)
        } else {
            Ok(())
        }
    }
}

/// Whether some path of `parents` is a prefix of `c`.
pub open spec fn has_parent(parents: Seq<Seq<char>>, c: Seq<char>) -> bool {
    exists|k: int| 0 <= k < parents.len() && path_starts_with(c, parents[k])
}

/// The children below no parent, in order.
pub open spec fn outside_paths(parents: Seq<Seq<char>>, children: Seq<Seq<char>>) -> Seq<
    Seq<char>,
>
    decreases children.len(),
{
    if children.len() == 0 {
        Seq::<Seq<char>>::empty()
    } else {
        let rest = outside_paths(parents, children.drop_last());
        if has_parent(parents, children.last()) {
            rest
        } else {
            rest.push(children.last())
        }
    }
}

/// `children` is a paths-subset of `parents`: each child lies below (or at)
/// some parent.
pub open spec fn paths_within(parents: Seq<Seq<char>>, children: Seq<Seq<char>>) -> bool {
    forall|i: int| 0 <= i < children.len() ==> has_parent(parents, #[trigger] children[i])
}

/// The outside list is empty exactly when every child has a parent.
proof fn lemma_outside_paths_empty(parents: Seq<Seq<char>>, children: Seq<Seq<char>>)
    ensures
        outside_paths(parents, children).len() == 0 <==> paths_within(parents, children),
    decreases children.len(),
{
    if children.len() > 0 {
        let init = children.drop_last();
        lemma_outside_paths_empty(parents, init);
        lemma_outside_paths_len(parents, init);
        if paths_within(parents, children) {
            assert forall|i: int| 0 <= i < init.len() implies has_parent(parents, #[trigger] init[i]) by {
                assert(init[i] == children[i]);
            }
            assert(has_parent(parents, children[children.len() - 1]));
        }
        if outside_paths(parents, children).len() == 0 {
            assert forall|i: int| 0 <= i < children.len() implies has_parent(
                parents,
                #[trigger] children[i],
            ) by {
                if i < init.len() {
                    assert(init[i] == children[i]);
                }
            }
        }
    }
}

/// The outside list is never longer than the children.
proof fn lemma_outside_paths_len(parents: Seq<Seq<char>>, children: Seq<Seq<char>>)
    ensures
        outside_paths(parents, children).len() <= children.len(),
    decreases children.len(),
{
    if children.len() > 0 {
        lemma_outside_paths_len(parents, children.drop_last());
    }
}

/// Every path lies below itself.
proof fn lemma_path_starts_with_self(p: Seq<char>)
    ensures
        path_starts_with(p, p),
{
    let c = components(p);
    assert(c.take(c.len() as int) =~= c);
}

/// Lying below is transitive.
proof fn lemma_path_starts_with_trans(a: Seq<char>, b: Seq<char>, c: Seq<char>)
    requires
        path_starts_with(a, b),
        path_starts_with(b, c),
    ensures
        path_starts_with(a, c),
{
    let ac = components(a);
    let bc = components(b);
    let cc = components(c);
    assert(ac.take(cc.len() as int) =~= bc.take(cc.len() as int));
}

/// A list of paths is a paths-subset of itself (`A << A`).
pub proof fn law_paths_within_reflexive(paths: Seq<Seq<char>>)
    ensures
        paths_within(paths, paths),
{
    assert forall|i: int| 0 <= i < paths.len() implies has_parent(paths, #[trigger] paths[i]) by {
        lemma_path_starts_with_self(paths[i]);
    }
}

/// No paths are a paths-subset of any list (`{} << A`).
pub proof fn law_paths_within_empty(parents: Seq<Seq<char>>)
    ensures
        paths_within(parents, Seq::<Seq<char>>::empty()),
{
}

/// Paths-subset is transitive: `A << B` and `B << C` give `A << C`.
pub proof fn law_paths_within_transitive(a: Seq<Seq<char>>, b: Seq<Seq<char>>, c: Seq<Seq<char>>)
    requires
        paths_within(b, a),
        paths_within(c, b),
    ensures
        paths_within(c, a),
{
    assert forall|i: int| 0 <= i < a.len() implies has_parent(c, #[trigger] a[i]) by {
        assert(has_parent(b, a[i]));
        let k = choose|k: int| 0 <= k < b.len() && path_starts_with(a[i], b[k]);
        assert(has_parent(c, b[k]));
        let m = choose|m: int| 0 <= m < c.len() && path_starts_with(b[k], c[m]);
        lemma_path_starts_with_trans(a[i], b[k], c[m]);
    }
}

/// Adding parent paths keeps children within them.
pub proof fn law_paths_within_more_parents(
    parents: Seq<Seq<char>>,
    more: Seq<Seq<char>>,
    children: Seq<Seq<char>>,
)
    requires
        paths_within(parents, children),
    ensures
        paths_within(parents + more, children),
{
    assert forall|i: int| 0 <= i < children.len() implies has_parent(parents + more, #[trigger] children[i]) by {
        assert(has_parent(parents, children[i]));
        let k = choose|k: int| 0 <= k < parents.len() && path_starts_with(children[i], parents[k]);
        assert((parents + more)[k] == parents[k]);
    }
}

/// A permission with its paths as character sequences.
pub enum PermissionView {
    List(Seq<Seq<char>>),
    Boolean(bool),
}

/// The view of a permission.
pub open spec fn perm_view(p: Permission) -> PermissionView {
    match p {
        Permission::List(l) => PermissionView::List(strs(l@)),
        Permission::Boolean(b) => PermissionView::Boolean(b),
    }
}

/// What narrowing `child` to `parent` gives: the narrowed permission, or the
/// child paths that lie below no parent path.
pub open spec fn subset_result(parent: PermissionView, child: PermissionView) -> Result<
    PermissionView,
    Seq<Seq<char>>,
> {
    match (parent, child) {
        (PermissionView::Boolean(p), PermissionView::Boolean(c)) => Ok(
            PermissionView::Boolean(p && c),
        ),
        (PermissionView::List(p), PermissionView::Boolean(c)) => if c {
            Ok(PermissionView::List(p))
        } else {
            Ok(PermissionView::Boolean(false))
        },
        (PermissionView::Boolean(p), PermissionView::List(c)) => if p {
            Ok(PermissionView::List(c))
        } else {
            Ok(PermissionView::Boolean(false))
        },
        (PermissionView::List(p), PermissionView::List(c)) => if paths_within(p, c) {
            Ok(PermissionView::List(c))
        } else {
            Err(outside_paths(p, c))
        },
    }
}

/// Narrowing a permission to itself leaves it as it is.
pub proof fn law_subset_of_self(p: PermissionView)
    ensures
        subset_result(p, p) == Ok::<PermissionView, Seq<Seq<char>>>(p),
{
    if let PermissionView::List(l) = p {
        law_paths_within_reflexive(l);
    }
}

/// Whatever narrowing gives allows no more than the parent: booleans never
/// grow, and a list comes out only under `true` or a list.
pub proof fn law_subset_within_parent(parent: PermissionView, child: PermissionView)
    ensures
        subset_result(parent, child) matches Ok(r) ==> match (parent, r) {
            (PermissionView::Boolean(p), PermissionView::Boolean(b)) => b ==> p,
            (PermissionView::Boolean(p), PermissionView::List(_)) => p,
            (PermissionView::List(pl), PermissionView::List(rl)) => paths_within(pl, rl),
            (PermissionView::List(_), PermissionView::Boolean(b)) => !b,
        },
{
    if let (PermissionView::List(pl), PermissionView::Boolean(true)) = (parent, child) {
        law_paths_within_reflexive(pl);
    }
}

/// The permissions an extension asks for.
#[derive(Debug)]
pub struct Permissions {
    pub read: Permission,
    pub write: Permission,
    pub env: Permission,
    pub run: Permission,
    pub net: Permission,
}

impl Default for Permissions {
    /// No permission at all.
    fn default() -> (r: Self)
        ensures
            r.read == Permission::Boolean(false),
            r.write == Permission::Boolean(false),
            r.env == Permission::Boolean(false),
            r.run == Permission::Boolean(false),
            r.net == Permission::Boolean(false),
    {
        Permissions {
            read: Permission::Boolean(false),
            write: Permission::Boolean(false),
            env: Permission::Boolean(false),
            run: Permission::Boolean(false),
            net: Permission::Boolean(false),
        }
    }
}

impl Clone for Permissions {
    fn clone(&self) -> (r: Self)
        ensures
            perm_view(r.read) == perm_view(self.read),
            perm_view(r.write) == perm_view(self.write),
            perm_view(r.env) == perm_view(self.env),
            perm_view(r.run) == perm_view(self.run),
            perm_view(r.net) == perm_view(self.net),
    {
        Permissions {
            read: self.read.clone(),
            write: self.write.clone(),
            env: self.env.clone(),
            run: self.run.clone(),
            net: self.net.clone(),
        }
    }
}

/// A permission as it is read: the leading `~` of each listed path resolved
/// against the home directory.
pub open spec fn home_expanded_view(p: PermissionView, home: Seq<char>) -> PermissionView {
    match p {
        PermissionView::List(l) => PermissionView::List(l.map_values(|s: Seq<char>| expanded_home_path(s, home))),
        PermissionView::Boolean(b) => PermissionView::Boolean(b),
    }
}

/// Whether a network permission names domains only: no listed entry holds
/// a `/`.
pub open spec fn net_domains_only(p: PermissionView) -> bool {
    match p {
        PermissionView::List(l) => forall|i: int| 0 <= i < l.len() ==> !has_char(#[trigger] l[i], '/'),
        PermissionView::Boolean(_) => true,
    }
}

impl Permission {
    /// The permission as it is read: the leading `~` of each listed path
    /// resolved against `home`.
    pub fn home_expanded(self, home: &str) -> (r: Permission)
        ensures
            perm_view(r) == home_expanded_view(perm_view(self), home@),
    {
        match self {
            Permission::List(l) => {
                let ghost lv = l@;
                let e = expand_home_paths(l, home);
                assert(strs(e@) =~= strs(lv).map_values(|s: Seq<char>| expanded_home_path(s, home@)));
                Permission::List(e)
            },
            Permission::Boolean(b) => Permission::Boolean(b),
        }
    }
}

impl Permissions {
    /// The permissions of a manifest as they are read: every listed path
    /// resolved against `home`, then the network permission checked to name
    /// domains only. The error names the first network entry holding a `/`.
    pub fn from_read(
        read: Permission,
        write: Permission,
        env: Permission,
        run: Permission,
        net: Permission,
        home: &str,
    ) -> (r: Result<Permissions, NetPermissionError>)
        ensures
            r is Ok <==> net_domains_only(home_expanded_view(perm_view(net), home@)),
            r matches Ok(p) ==> {
                &&& perm_view(p.read) == home_expanded_view(perm_view(read), home@)
                &&& perm_view(p.write) == home_expanded_view(perm_view(write), home@)
                &&& perm_view(p.env) == home_expanded_view(perm_view(env), home@)
                &&& perm_view(p.run) == home_expanded_view(perm_view(run), home@)
                &&& perm_view(p.net) == home_expanded_view(perm_view(net), home@)
            },
            r matches Err(e) ==> (home_expanded_view(perm_view(net), home@) matches PermissionView::List(l)
                && first_with_slash(l, e.url@)),
    {
        let ghost want = home_expanded_view(perm_view(net), home@);
        let expanded = net.home_expanded(home);
        match check_net_permission(expanded) {
            Ok(checked) => {
                proof {
                    if checked is List {
                        let l = strs(checked->List_0@);
                        assert forall|i: int| 0 <= i < l.len() implies !has_char(#[trigger] l[i], '/') by {
                            assert(l[i] == checked->List_0@[i]@);
                        }
                    }
                }
                Ok(
                    Permissions {
                        read: read.home_expanded(home),
                        write: write.home_expanded(home),
                        env: env.home_expanded(home),
                        run: run.home_expanded(home),
                        net: checked,
                    },
                )
            },
            Err(e) => {
                proof {
                    assert(expanded is List);
                    let l = strs(expanded->List_0@);
                    assert(want == PermissionView::List(l));
                    assert(first_with_slash(l, e.url@));
                    let i = choose|i: int| #[trigger] first_with_slash_at(l, e.url@, i);
                    assert(0 <= i < l.len() && has_char(l[i], '/'));
                    if net_domains_only(want) {
                        assert(!has_char(want->List_0[i], '/'));
                    }
                }
                Err(e)
            },
        }
    }

    /// Whether no resource at all is allowed.
    pub fn is_allow_none(&self) -> (b: bool)
        ensures
            b == (allowed(self.read) is None && allowed(self.write) is None && allowed(
                self.env,
            ) is None && allowed(self.run) is None && allowed(self.net) is None),
    {
        self.read.get().is_none() && self.write.get().is_none() && self.env.get().is_none()
            && self.run.get().is_none() && self.net.get().is_none()
    }

    /// The sandbox exceptions these permissions grant: reads, writes, runs
    /// (the run paths as written; callers resolve them against `$PATH`), and
    /// networking when any network access is allowed.
    pub fn sandbox_exceptions(&self) -> (r: Vec<Exception>)
        ensures
            is_exception_list(
                r@,
                sandbox_path_list(self.read),
                sandbox_path_list(self.write),
                sandbox_path_list(self.run),
                allowed(self.net) is Some,
            ),
    {
        let mut out: Vec<Exception> = Vec::new();
        let reads = self.read.sandbox_paths();
        push_exceptions(&mut out, &reads, ExceptionKind::Read);
        let ghost o1 = out@;
        let writes = self.write.sandbox_paths();
        push_exceptions(&mut out, &writes, ExceptionKind::Write);
        let ghost o2 = out@;
        let runs = self.run.sandbox_paths();
        push_exceptions(&mut out, &runs, ExceptionKind::ExecuteAndRead);
        let ghost o3 = out@;
        if self.net.get().is_some() {
            out.push(Exception::Networking);
        }
        proof {
            let a = reads@.len() as int;
            let b = a + writes@.len();
            let c = b + runs@.len();
            let o4 = out@;
            assert(o1.subrange(0, a) =~= o1);
            assert(o4.subrange(0, a) =~= o1.subrange(0, a)) by {
                assert(o2.subrange(0, a) =~= o1);
                assert(o3.subrange(0, b) =~= o2);
                assert(o4.subrange(0, c) =~= o3);
            }
            assert(o4.subrange(a, b) =~= o2.subrange(a, b)) by {
                assert(o3.subrange(0, b) =~= o2);
                assert(o4.subrange(0, c) =~= o3);
            }
            assert(o4.subrange(b, c) =~= o3.subrange(b, c)) by {
                assert(o4.subrange(0, c) =~= o3);
            }
        }
        out
    }
}

/// A sandbox exception: access granted to a path, or to the network.
pub enum Exception {
    Read(String),
    Write(String),
    WriteAndRead(String),
    ExecuteAndRead(String),
    Networking,
    /// Reading one environment variable.
    Environment(String),
    /// Reading every environment variable.
    FullEnvironment,
}

/// The kinds of path exceptions.
#[derive(Clone, Copy, PartialEq, Eq, Structural)]
pub enum ExceptionKind {
    Read,
    Write,
    WriteAndRead,
    ExecuteAndRead,
    /// Network access; it names no path.
    Networking,
    /// An environment variable, named in place of a path.
    Environment,
    /// All environment variables; it names no path.
    FullEnvironment,
}

/// An exception of `kind` for a path (networking has none).
pub open spec fn exception_is(e: Exception, kind: ExceptionKind, path: Seq<char>) -> bool {
    match kind {
        ExceptionKind::Read => e matches Exception::Read(p) && p@ == path,
        ExceptionKind::Write => e matches Exception::Write(p) && p@ == path,
        ExceptionKind::WriteAndRead => e matches Exception::WriteAndRead(p) && p@ == path,
        ExceptionKind::ExecuteAndRead => e matches Exception::ExecuteAndRead(p) && p@ == path,
        ExceptionKind::Networking => e matches Exception::Networking,
        ExceptionKind::Environment => e matches Exception::Environment(v) && v@ == path,
        ExceptionKind::FullEnvironment => e matches Exception::FullEnvironment,
    }
}

/// Whether `es` are exceptions of `kind`, one for each path, in order.
pub open spec fn exceptions_of(es: Seq<Exception>, kind: ExceptionKind, paths: Seq<Seq<char>>) -> bool {
    es.len() == paths.len() && forall|i: int| 0 <= i < es.len() ==> exception_is(#[trigger] es[i], kind, paths[i])
}

/// Whether `es` is the exception list for the given paths: reads, then
/// writes, then runs, then networking if allowed.
pub open spec fn is_exception_list(
    es: Seq<Exception>,
    reads: Seq<Seq<char>>,
    writes: Seq<Seq<char>>,
    runs: Seq<Seq<char>>,
    net: bool,
) -> bool {
    let a = reads.len() as int;
    let b = a + writes.len();
    let c = b + runs.len();
    &&& es.len() == c + (if net {
        1int
    } else {
        0int
    })
    &&& exceptions_of(es.subrange(0, a), ExceptionKind::Read, reads)
    &&& exceptions_of(es.subrange(a, b), ExceptionKind::Write, writes)
    &&& exceptions_of(es.subrange(b, c), ExceptionKind::ExecuteAndRead, runs)
    &&& net ==> es[c] matches Exception::Networking
}

/// Appends one exception of `kind` for each path.
fn push_exceptions(out: &mut Vec<Exception>, paths: &Vec<String>, kind: ExceptionKind)
    ensures
        final(out)@.len() == old(out)@.len() + paths@.len(),
        final(out)@.subrange(0, old(out)@.len() as int) == old(out)@,
        exceptions_of(
            final(out)@.subrange(old(out)@.len() as int, final(out)@.len() as int),
            kind,
            strs(paths@),
        ),
{
    let ghost start = out@;
    let mut i: usize = 0;
    while i < paths.len()
        invariant
            i <= paths@.len(),
            out@.len() == start.len() + i,
            out@.subrange(0, start.len() as int) == start,
            forall|j: int|
                0 <= j < i ==> exception_is(#[trigger] out@[start.len() + j], kind, paths@[j]@),
        decreases paths@.len() - i,
    {
        let p = paths[i].clone();
        let e = match kind {
            ExceptionKind::Read => Exception::Read(p),
            ExceptionKind::Write => Exception::Write(p),
            ExceptionKind::WriteAndRead => Exception::WriteAndRead(p),
            ExceptionKind::ExecuteAndRead => Exception::ExecuteAndRead(p),
            ExceptionKind::Networking => Exception::Networking,
            ExceptionKind::Environment => Exception::Environment(p),
            ExceptionKind::FullEnvironment => Exception::FullEnvironment,
        };
        out.push(e);
        proof {
            assert(out@.subrange(0, start.len() as int) =~= start);
        }
        i = i + 1;
    }
    proof {
        let tail = out@.subrange(start.len() as int, out@.len() as int);
        assert forall|j: int| 0 <= j < tail.len() implies exception_is(
            #[trigger] tail[j],
            kind,
            strs(paths@)[j],
        ) by {
            assert(tail[j] == out@[start.len() + j]);
        }
    }
}

/// Whether `es` holds, in order, one exception per (kind, path) pair.
pub open spec fn exceptions_match(es: Seq<Exception>, pairs: Seq<(ExceptionKind, Seq<char>)>) -> bool {
    es.len() == pairs.len() && forall|i: int|
        0 <= i < es.len() ==> exception_is(#[trigger] es[i], pairs[i].0, pairs[i].1)
}

/// Exceptions every sandbox gets: the system libraries and `env` may be
/// executed and read; DNS settings and certificates may be read.
pub open spec fn base_exceptions() -> Seq<(ExceptionKind, Seq<char>)> {
    seq![
        (ExceptionKind::ExecuteAndRead, "/usr/lib"@),
        (ExceptionKind::ExecuteAndRead, "/usr/lib32"@),
        (ExceptionKind::ExecuteAndRead, "/usr/libx32"@),
        (ExceptionKind::ExecuteAndRead, "/usr/lib64"@),
        (ExceptionKind::ExecuteAndRead, "/lib"@),
        (ExceptionKind::ExecuteAndRead, "/lib32"@),
        (ExceptionKind::ExecuteAndRead, "/libx32"@),
        (ExceptionKind::ExecuteAndRead, "/lib64"@),
        (ExceptionKind::ExecuteAndRead, "/opt/homebrew"@),
        (ExceptionKind::ExecuteAndRead, "/usr/local"@),
        (ExceptionKind::ExecuteAndRead, "/usr/bin/env"@),
        (ExceptionKind::Read, "/etc/resolv.conf"@),
        (ExceptionKind::Read, "/etc/ca-certificates"@),
        (ExceptionKind::Read, "/etc/ssl"@),
    ]
}

/// Execute-and-read exceptions for each entry of a `$PATH` value.
pub open spec fn path_var_exceptions(path_var: Option<Seq<char>>) -> Seq<(ExceptionKind, Seq<char>)> {
    match path_var {
        Some(p) => split_on(p, ':').map_values(|d: Seq<char>| (ExceptionKind::ExecuteAndRead, d)),
        None => Seq::<(ExceptionKind, Seq<char>)>::empty(),
    }
}

/// Appends one exception.
fn push_exception(out: &mut Vec<Exception>, kind: ExceptionKind, path: &str)
    ensures
        final(out)@.len() == old(out)@.len() + 1,
        final(out)@.subrange(0, old(out)@.len() as int) == old(out)@,
        exception_is(final(out)@[old(out)@.len() as int], kind, path@),
{
    let p = String::from_str(path);
    let e = match kind {
        ExceptionKind::Read => Exception::Read(p),
        ExceptionKind::Write => Exception::Write(p),
        ExceptionKind::WriteAndRead => Exception::WriteAndRead(p),
        ExceptionKind::ExecuteAndRead => Exception::ExecuteAndRead(p),
        ExceptionKind::Networking => Exception::Networking,
        ExceptionKind::Environment => Exception::Environment(p),
        ExceptionKind::FullEnvironment => Exception::FullEnvironment,
    };
    out.push(e);
    assert(out@.subrange(0, old(out)@.len() as int) =~= old(out)@);
}

/// The exceptions of the default sandbox: the base exceptions, then every
/// directory of `$PATH` (whose value, if set, is passed in) may be executed
/// and read.
pub fn default_exceptions(path_var: Option<&str>) -> (r: Vec<Exception>)
    ensures
        exceptions_match(
            r@,
            base_exceptions() + path_var_exceptions(
                match path_var {
                    Some(p) => Some(p@),
                    None => None,
                },
            ),
        ),
{
    let mut out: Vec<Exception> = Vec::new();
    let ghost base = base_exceptions();
    let ghost mut done: Seq<(ExceptionKind, Seq<char>)> = Seq::empty();
    let ghost o0 = out@;
    let list: [(ExceptionKind, &str); 14] = [
        (ExceptionKind::ExecuteAndRead, "/usr/lib"),
        (ExceptionKind::ExecuteAndRead, "/usr/lib32"),
        (ExceptionKind::ExecuteAndRead, "/usr/libx32"),
        (ExceptionKind::ExecuteAndRead, "/usr/lib64"),
        (ExceptionKind::ExecuteAndRead, "/lib"),
        (ExceptionKind::ExecuteAndRead, "/lib32"),
        (ExceptionKind::ExecuteAndRead, "/libx32"),
        (ExceptionKind::ExecuteAndRead, "/lib64"),
        (ExceptionKind::ExecuteAndRead, "/opt/homebrew"),
        (ExceptionKind::ExecuteAndRead, "/usr/local"),
        (ExceptionKind::ExecuteAndRead, "/usr/bin/env"),
        (ExceptionKind::Read, "/etc/resolv.conf"),
        (ExceptionKind::Read, "/etc/ca-certificates"),
        (ExceptionKind::Read, "/etc/ssl"),
    ];
    let ghost lv = list@.map_values(|p: (ExceptionKind, &str)| (p.0, p.1@));
    assert(lv =~= base);
    let mut i: usize = 0;
    while i < 14
        invariant
            list@.len() == 14,
            lv == list@.map_values(|p: (ExceptionKind, &str)| (p.0, p.1@)),
            i <= 14,
            exceptions_match(out@, lv.take(i as int)),
        decreases 14 - i,
    {
        let ghost before = out@;
        push_exception(&mut out, list[i].0, list[i].1);
        proof {
            assert forall|j: int| 0 <= j < out@.len() implies exception_is(
                #[trigger] out@[j],
                lv.take(i + 1)[j].0,
                lv.take(i + 1)[j].1,
            ) by {
                if j < before.len() {
                    assert(out@[j] == before.subrange(0, before.len() as int)[j]);
                    assert(out@.subrange(0, before.len() as int)[j] == out@[j]);
                }
            }
        }
        i = i + 1;
    }
    assert(lv.take(14) =~= base);
    let ghost pre = out@;
    let ghost pv: Seq<(ExceptionKind, Seq<char>)> = Seq::empty();
    if let Some(p) = path_var {
        let dirs = split_chars(&chars_of(p), ':');
        let ghost dv = dirs@.map_values(|d: Vec<char>| d@);
        let ghost want = path_var_exceptions(Some(p@));
        assert(want.len() == dirs@.len());
        let mut k: usize = 0;
        while k < dirs.len()
            invariant
                dv == dirs@.map_values(|d: Vec<char>| d@),
                dv == split_on(p@, ':'),
                want == path_var_exceptions(Some(p@)),
                want.len() == dv.len(),
                k <= dirs@.len(),
                exceptions_match(out@, base + want.take(k as int)),
            decreases dirs@.len() - k,
        {
            let d = string_of(&dirs[k]);
            let ghost before = out@;
            push_exception(&mut out, ExceptionKind::ExecuteAndRead, d.as_str());
            proof {
                let goal = base + want.take(k + 1);
                assert forall|j: int| 0 <= j < out@.len() implies exception_is(
                    #[trigger] out@[j],
                    goal[j].0,
                    goal[j].1,
                ) by {
                    if j < before.len() {
                        assert(out@.subrange(0, before.len() as int)[j] == out@[j]);
                        assert((base + want.take(k as int))[j] == goal[j]);
                    } else {
                        assert(goal[j] == want[k as int]);
                    }
                }
            }
            k = k + 1;
        }
        assert(want.take(dirs@.len() as int) =~= want);
    } else {
        assert(base + path_var_exceptions(None) =~= base);
    }
    out
}

/// `u` is entry `i` of `l`, the first one that holds a `/`.
pub open spec fn first_with_slash_at(l: Seq<Seq<char>>, u: Seq<char>, i: int) -> bool {
    &&& 0 <= i < l.len()
    &&& l[i] == u
    &&& has_char(u, '/')
    &&& forall|j: int| 0 <= j < i ==> !has_char(#[trigger] l[j], '/')
}

/// `u` is the first entry of `l` that holds a `/`.
pub open spec fn first_with_slash(l: Seq<Seq<char>>, u: Seq<char>) -> bool {
    exists|i: int| #[trigger] first_with_slash_at(l, u, i)
}

/// The first net permission entry holding a `/`: only domains and subdomains
/// may be given.
#[derive(Debug)]
pub struct NetPermissionError {
    pub url: String,
}

/// Checks network permissions: entries may not hold a scheme or path (no `/`).
/// Boolean permissions are accepted as they are.
pub fn check_net_permission(permission: Permission) -> (r: Result<Permission, NetPermissionError>)
    ensures
        match permission {
            Permission::List(l) => match r {
                Ok(p) => p == permission && forall|i: int|
                    0 <= i < l@.len() ==> !has_char(#[trigger] l@[i]@, '/'),
                Err(e) => first_with_slash(strs(l@), e.url@),
            },
            Permission::Boolean(_) => r == Ok::<Permission, NetPermissionError>(permission),
        },
{
    match &permission {
        Permission::List(net) => {
            let mut i: usize = 0;
            while i < net.len()
                invariant
                    permission == Permission::List(*net),
                    i <= net@.len(),
                    forall|j: int| 0 <= j < i ==> !has_char(#[trigger] net@[j]@, '/'),
                decreases net@.len() - i,
            {
                if contains_char(&chars_of(net[i].as_str()), '/') {
                    let url = net[i].clone();
                    assert(url@ == net@[i as int]@);
                    proof {
                        let v = strs(net@);
                        assert(v[i as int] == url@);
                        assert forall|j: int| 0 <= j < i implies !has_char(v[j], '/') by {
                            assert(v[j] == net@[j]@);
                        }
                        assert(first_with_slash_at(v, url@, i as int));
                    }
                    return Err(NetPermissionError { url });
                }
                i = i + 1;
            }
        },
        Permission::Boolean(_) => {},
    }
    Ok(permission)
}

/// The permission options handed to the JavaScript runtime.
#[derive(Debug)]
pub struct PermissionsOptions {
    pub allow_read: Option<Vec<String>>,
    pub allow_write: Option<Vec<String>>,
    pub allow_net: Option<Vec<String>>,
    pub allow_run: Option<Vec<String>>,
    pub allow_env: Option<Vec<String>>,
    pub allow_sys: Option<Vec<String>>,
    pub allow_ffi: Option<Vec<String>>,
    pub allow_hrtime: bool,
    pub prompt: bool,
}

/// The view of an optional list of strings.
pub open spec fn opt_strs(o: Option<Vec<String>>) -> Option<Seq<Seq<char>>> {
    match o {
        Some(l) => Some(strs(l@)),
        None => None,
    }
}

impl PermissionsOptions {
    /// The runtime options for the given permissions: each allow list is what
    /// the permission allows; system, FFI and hrtime access and prompting are
    /// off.
    pub fn from_permissions(value: &Permissions) -> (r: PermissionsOptions)
        ensures
            opt_strs(r.allow_read) == allowed(value.read),
            opt_strs(r.allow_write) == allowed(value.write),
            opt_strs(r.allow_env) == allowed(value.env),
            opt_strs(r.allow_net) == allowed(value.net),
            opt_strs(r.allow_run) == allowed(value.run),
            r.allow_sys is None,
            r.allow_ffi is None,
            !r.allow_hrtime,
            !r.prompt,
    {
        PermissionsOptions {
            allow_read: value.read.get(),
            allow_write: value.write.get(),
            allow_net: value.net.get(),
            allow_run: value.run.get(),
            allow_env: value.env.get(),
            allow_sys: None,
            allow_ffi: None,
            allow_hrtime: false,
            prompt: false,
        }
    }
}

/// The places `$PATH` offers for a program: each directory of `path` (split
/// at `:`) joined with `bin`, in order.
pub open spec fn bin_candidates(path: Seq<char>, bin: Seq<char>) -> Seq<Seq<char>> {
    split_on(path, ':').map_values(|d: Seq<char>| path_join(d, bin))
}

/// The first candidate whose flag is set, else `bin`.
pub open spec fn first_existing_spec(cands: Seq<Seq<char>>, flags: Seq<bool>, bin: Seq<char>) -> Seq<
    char,
>
    decreases cands.len(),
{
    if cands.len() == 0 || flags.len() == 0 {
        bin
    } else if flags[0] {
        cands[0]
    } else {
        first_existing_spec(cands.drop_first(), flags.drop_first(), bin)
    }
}

/// Skipping a candidate whose flag is clear leaves the answer as it is.
proof fn lemma_first_existing_skip(cands: Seq<Seq<char>>, flags: Seq<bool>, bin: Seq<char>, i: int)
    requires
        0 <= i < cands.len(),
        cands.len() == flags.len(),
        forall|k: int| 0 <= k <= i ==> !flags[k],
    ensures
        first_existing_spec(cands, flags, bin) == first_existing_spec(
            cands.subrange(i + 1, cands.len() as int),
            flags.subrange(i + 1, flags.len() as int),
            bin,
        ),
    decreases i,
{
    if i > 0 {
        lemma_first_existing_skip(cands.drop_first(), flags.drop_first(), bin, i - 1);
        assert(cands.drop_first().subrange(i, cands.len() - 1) =~= cands.subrange(
            i + 1,
            cands.len() as int,
        ));
        assert(flags.drop_first().subrange(i, flags.len() - 1) =~= flags.subrange(
            i + 1,
            flags.len() as int,
        ));
    } else {
        assert(cands.drop_first() =~= cands.subrange(1, cands.len() as int));
        assert(flags.drop_first() =~= flags.subrange(1, flags.len() as int));
    }
}

/// The first of `candidates` whose entry in `exists` is `true`, or `bin`
/// when there is none.
pub fn first_existing(candidates: &Vec<String>, exists: &Vec<bool>, bin: &str) -> (r: String)
    requires
        candidates@.len() == exists@.len(),
    ensures
        r@ == first_existing_spec(strs(candidates@), exists@, bin@),
{
    let ghost cs = strs(candidates@);
    let mut i: usize = 0;
    while i < candidates.len()
        invariant
            cs == strs(candidates@),
            candidates@.len() == exists@.len(),
            i <= candidates@.len(),
            forall|k: int| 0 <= k < i ==> !exists@[k],
        decreases candidates@.len() - i,
    {
        if exists[i] {
            proof {
                if i > 0 {
                    lemma_first_existing_skip(cs, exists@, bin@, i - 1);
                    let rc = cs.subrange(i as int, cs.len() as int);
                    let rf = exists@.subrange(i as int, exists@.len() as int);
                    assert(rc[0] == cs[i as int]);
                    assert(rf[0] == exists@[i as int]);
                }
            }
            return candidates[i].clone();
        }
        i = i + 1;
    }
    proof {
        if i > 0 {
            lemma_first_existing_skip(cs, exists@, bin@, i - 1);
            assert(cs.subrange(i as int, cs.len() as int).len() == 0);
        }
    }
    String::from_str(bin)
}

/// Whether a file exists at `path` (`std::path::Path::exists`). It depends
/// on the file system, so nothing is claimed.
#[verifier::external_body]
fn path_exists(path: &str) -> bool {
    std::path::Path::new(path).exists()
}

/// Whether `r` is what resolving `bin` against `$PATH` may give: an absolute
/// `bin`, or any `bin` without `$PATH`, as it is; otherwise the first
/// candidate of `$PATH` that exists, else `bin`, for some answers of the file
/// system on which candidates exist.
pub open spec fn bin_resolution(bin: Seq<char>, path_var: Option<Seq<char>>, r: Seq<char>) -> bool {
    if bin.len() > 0 && bin[0] == '/' {
        r == bin
    } else {
        match path_var {
            None => r == bin,
            Some(p) => path_resolution(p, bin, r),
        }
    }
}

/// Whether `r` is the first candidate of `path` for `bin` that exists, else
/// `bin`, for some answers of the file system on which candidates exist.
pub open spec fn path_resolution(path: Seq<char>, bin: Seq<char>, r: Seq<char>) -> bool {
    exists|flags: Seq<bool>|
        flags.len() == bin_candidates(path, bin).len() && r == first_existing_spec(
            bin_candidates(path, bin),
            flags,
            bin,
        )
}

/// Resolve a non-absolute program path from `$PATH` (whose value, if set, is
/// passed in): the first directory of `$PATH` holding it, else the path as
/// it is. Absolute paths are kept.
pub fn resolve_bin_path(bin: &str, path_var: Option<&str>) -> (r: String)
    ensures
        (bin@.len() > 0 && bin@[0] == '/') ==> r@ == bin@,
        path_var is None ==> r@ == bin@,
        bin_resolution(bin@, opt_str(path_var), r@),
{
    let b = chars_of(bin);
    if b.len() > 0 && b[0] == '/' {
        return String::from_str(bin);
    }
    let path = match path_var {
        Some(p) => p,
        None => return String::from_str(bin),
    };
    let dirs = split_chars(&chars_of(path), ':');
    let ghost dv = dirs@.map_values(|d: Vec<char>| d@);
    let ghost want = bin_candidates(path@, bin@);
    let mut candidates: Vec<String> = Vec::new();
    let mut flags: Vec<bool> = Vec::new();
    let mut i: usize = 0;
    while i < dirs.len()
        invariant
            dv == dirs@.map_values(|d: Vec<char>| d@),
            dv == split_on(path@, ':'),
            want == bin_candidates(path@, bin@),
            i <= dirs@.len(),
            candidates@.len() == i,
            flags@.len() == i,
            forall|k: int| 0 <= k < i ==> (#[trigger] candidates@[k])@ == want[k],
        decreases dirs@.len() - i,
    {
        let dir = string_of(&dirs[i]);
        let combined = join_str(dir.as_str(), bin);
        proof {
            assert(dv[i as int] == dir@);
        }
        let found = path_exists(combined.as_str());
        candidates.push(combined);
        flags.push(found);
        i = i + 1;
    }
    let r = first_existing(&candidates, &flags, bin);
    proof {
        assert(strs(candidates@) =~= want);
        assert(opt_str(path_var) == Some(path@));
        assert(flags@.len() == bin_candidates(path@, bin@).len() && r@ == first_existing_spec(
            bin_candidates(path@, bin@),
            flags@,
            bin@,
        ));
        assert(path_resolution(path@, bin@, r@));
    }
    r
}

/// The programs that lockfile generation may run, for every ecosystem.
pub open spec fn ecosystem_bin_names() -> Seq<Seq<char>> {
    seq![
        "cargo"@,
        "bundle"@,
        "mvn"@,
        "gradle"@,
        "npm"@,
        "pnpm"@,
        "yarn"@,
        "python3"@,
        "pipenv"@,
        "poetry"@,
        "go"@,
        "dotnet"@,
    ]
}

/// The programs that lockfile generation may run.
pub fn ecosystem_bins() -> (r: Vec<String>)
    ensures
        strs(r@) == ecosystem_bin_names(),
{
    let r = vec![
        String::from_str("cargo"),
        String::from_str("bundle"),
        String::from_str("mvn"),
        String::from_str("gradle"),
        String::from_str("npm"),
        String::from_str("pnpm"),
        String::from_str("yarn"),
        String::from_str("python3"),
        String::from_str("pipenv"),
        String::from_str("poetry"),
        String::from_str("go"),
        String::from_str("dotnet"),
    ];
    assert(strs(r@) =~= ecosystem_bin_names());
    r
}

/// Resolves each of `bins` against `$PATH` (whose value, if set, is passed
/// in), in order.
pub fn resolve_bins(bins: &Vec<String>, path_var: Option<&str>) -> (r: Vec<String>)
    ensures
        r@.len() == bins@.len(),
        forall|i: int| 0 <= i < bins@.len() ==> bin_resolution(bins@[i]@, opt_str(path_var), (#[trigger] r@[i])@),
{
    let mut out: Vec<String> = Vec::new();
    let mut i: usize = 0;
    while i < bins.len()
        invariant
            i <= bins@.len(),
            out@.len() == i,
            forall|k: int| 0 <= k < i ==> bin_resolution(bins@[k]@, opt_str(path_var), (#[trigger] out@[k])@),
        decreases bins@.len() - i,
    {
        out.push(resolve_bin_path(bins[i].as_str(), path_var));
        i = i + 1;
    }
    out
}

/// The views of (kind, path) pairs.
pub open spec fn pair_views(v: Seq<(ExceptionKind, String)>) -> Seq<(ExceptionKind, Seq<char>)> {
    v.map_values(|p: (ExceptionKind, String)| (p.0, p.1@))
}

/// Appends one exception for each (kind, path) pair.
fn push_pairs(
    out: &mut Vec<Exception>,
    pairs: &Vec<(ExceptionKind, String)>,
    Ghost(done): Ghost<Seq<(ExceptionKind, Seq<char>)>>,
)
    requires
        exceptions_match(old(out)@, done),
    ensures
        exceptions_match(final(out)@, done + pair_views(pairs@)),
{
    let ghost want = pair_views(pairs@);
    let mut i: usize = 0;
    while i < pairs.len()
        invariant
            i <= pairs@.len(),
            want == pair_views(pairs@),
            exceptions_match(out@, done + want.take(i as int)),
        decreases pairs@.len() - i,
    {
        let ghost before = out@;
        push_exception(out, pairs[i].0, pairs[i].1.as_str());
        proof {
            let goal = done + want.take(i + 1);
            assert forall|j: int| 0 <= j < out@.len() implies exception_is(
                #[trigger] out@[j],
                goal[j].0,
                goal[j].1,
            ) by {
                if j < before.len() {
                    assert(out@.subrange(0, before.len() as int)[j] == out@[j]);
                    assert((done + want.take(i as int))[j] == goal[j]);
                } else {
                    assert(goal[j] == want[i as int]);
                }
            }
        }
        i = i + 1;
    }
    assert(want.take(pairs@.len() as int) =~= want);
}

/// The exceptions for parsing dependency files, past the default ones:
/// networking; running the client itself; writing the manifest's directory;
/// running the resolved ecosystem programs and anything in the common
/// program directories; and what Cargo, Bundler, Maven, Gradle, pnpm and
/// Yarn read or write.
pub open spec fn depfile_extra_exceptions(
    current_exe: Seq<char>,
    manifest_parent: Seq<char>,
    home: Seq<char>,
    resolved_bins: Seq<Seq<char>>,
) -> Seq<(ExceptionKind, Seq<char>)> {
    seq![
        (ExceptionKind::Networking, Seq::<char>::empty()),
        (ExceptionKind::ExecuteAndRead, current_exe),
        (ExceptionKind::WriteAndRead, manifest_parent),
    ] + resolved_bins.map_values(|b: Seq<char>| (ExceptionKind::ExecuteAndRead, b)) + seq![
        (ExceptionKind::ExecuteAndRead, "/usr/bin"@),
        (ExceptionKind::ExecuteAndRead, "/bin"@),
        (ExceptionKind::ExecuteAndRead, path_join(home, ".rustup"@)),
        (ExceptionKind::ExecuteAndRead, path_join(home, ".cargo"@)),
        (ExceptionKind::Read, "/etc/passwd"@),
        (ExceptionKind::Read, "/dev/urandom"@),
        (ExceptionKind::WriteAndRead, path_join(home, ".m2"@)),
        (ExceptionKind::WriteAndRead, "/var/folders"@),
        (ExceptionKind::Read, "/opt/maven"@),
        (ExceptionKind::Read, "/etc/java-openjdk"@),
        (ExceptionKind::Read, "/usr/local/Cellar/maven"@),
        (ExceptionKind::Read, "/usr/local/Cellar/openjdk"@),
        (ExceptionKind::Read, "/opt/homebrew/Cellar/maven"@),
        (ExceptionKind::Read, "/opt/homebrew/Cellar/openjdk"@),
        (ExceptionKind::WriteAndRead, path_join(home, ".gradle"@)),
        (ExceptionKind::Read, "/opt/gradle"@),
        (ExceptionKind::Read, "/usr/share/java/gradle/lib"@),
        (ExceptionKind::Read, "/usr/local/Cellar/gradle"@),
        (ExceptionKind::Read, "/opt/homebrew/Cellar/gradle"@),
        (ExceptionKind::Read, "/tmp"@),
        (ExceptionKind::Read, path_join(home, "./yarn"@)),
    ]
}

/// The exceptions of the sandbox for parsing dependency files and
/// generating lockfiles: the default ones for `$PATH` (whose value, if set,
/// is passed in), then `depfile_extra_exceptions`.
pub open spec fn depfile_exception_list(
    path_var: Option<Seq<char>>,
    current_exe: Seq<char>,
    manifest_parent: Seq<char>,
    home: Seq<char>,
    resolved_bins: Seq<Seq<char>>,
) -> Seq<(ExceptionKind, Seq<char>)> {
    base_exceptions() + path_var_exceptions(path_var) + depfile_extra_exceptions(
        current_exe,
        manifest_parent,
        home,
        resolved_bins,
    )
}

/// The exceptions of the sandbox for parsing dependency files, given the
/// client's own executable, the manifest's directory, the home directory and
/// the ecosystem programs as resolved.
pub fn depfile_sandbox_exceptions(
    path_var: Option<&str>,
    current_exe: &str,
    manifest_parent: &str,
    home: &str,
    resolved_bins: &Vec<String>,
) -> (r: Vec<Exception>)
    ensures
        exceptions_match(
            r@,
            depfile_exception_list(opt_str(path_var), current_exe@, manifest_parent@, home@, strs(resolved_bins@)),
        ),
{
    let mut out = default_exceptions(path_var);
    let ghost done = base_exceptions() + path_var_exceptions(opt_str(path_var));
    let mut pairs: Vec<(ExceptionKind, String)> = Vec::new();
    pairs.push((ExceptionKind::Networking, String::new()));
    pairs.push((ExceptionKind::ExecuteAndRead, String::from_str(current_exe)));
    pairs.push((ExceptionKind::WriteAndRead, String::from_str(manifest_parent)));
    let ghost head = pair_views(pairs@);
    let mut i: usize = 0;
    while i < resolved_bins.len()
        invariant
            i <= resolved_bins@.len(),
            head.len() == 3,
            pair_views(pairs@) == head + strs(resolved_bins@).take(i as int).map_values(
                |b: Seq<char>| (ExceptionKind::ExecuteAndRead, b),
            ),
        decreases resolved_bins@.len() - i,
    {
        let ghost pv0 = pair_views(pairs@);
        pairs.push((ExceptionKind::ExecuteAndRead, resolved_bins[i].clone()));
        proof {
            let sb = strs(resolved_bins@);
            assert(pair_views(pairs@) =~= pv0.push((ExceptionKind::ExecuteAndRead, sb[i as int])));
            assert(sb.take(i + 1) =~= sb.take(i as int).push(sb[i as int]));
            assert(sb.take(i + 1).map_values(|b: Seq<char>| (ExceptionKind::ExecuteAndRead, b)) =~= sb.take(
                i as int,
            ).map_values(|b: Seq<char>| (ExceptionKind::ExecuteAndRead, b)).push(
                (ExceptionKind::ExecuteAndRead, sb[i as int]),
            ));
            assert(pair_views(pairs@) =~= head + strs(resolved_bins@).take(i + 1).map_values(
                |b: Seq<char>| (ExceptionKind::ExecuteAndRead, b),
            ));
        }
        i = i + 1;
    }
    let ghost mid = pair_views(pairs@);
    let tail: Vec<(ExceptionKind, String)> = vec![
        (ExceptionKind::ExecuteAndRead, String::from_str("/usr/bin")),
        (ExceptionKind::ExecuteAndRead, String::from_str("/bin")),
        (ExceptionKind::ExecuteAndRead, join_str(home, ".rustup")),
        (ExceptionKind::ExecuteAndRead, join_str(home, ".cargo")),
        (ExceptionKind::Read, String::from_str("/etc/passwd")),
        (ExceptionKind::Read, String::from_str("/dev/urandom")),
        (ExceptionKind::WriteAndRead, join_str(home, ".m2")),
        (ExceptionKind::WriteAndRead, String::from_str("/var/folders")),
        (ExceptionKind::Read, String::from_str("/opt/maven")),
        (ExceptionKind::Read, String::from_str("/etc/java-openjdk")),
        (ExceptionKind::Read, String::from_str("/usr/local/Cellar/maven")),
        (ExceptionKind::Read, String::from_str("/usr/local/Cellar/openjdk")),
        (ExceptionKind::Read, String::from_str("/opt/homebrew/Cellar/maven")),
        (ExceptionKind::Read, String::from_str("/opt/homebrew/Cellar/openjdk")),
        (ExceptionKind::WriteAndRead, join_str(home, ".gradle")),
        (ExceptionKind::Read, String::from_str("/opt/gradle")),
        (ExceptionKind::Read, String::from_str("/usr/share/java/gradle/lib")),
        (ExceptionKind::Read, String::from_str("/usr/local/Cellar/gradle")),
        (ExceptionKind::Read, String::from_str("/opt/homebrew/Cellar/gradle")),
        (ExceptionKind::Read, String::from_str("/tmp")),
        (ExceptionKind::Read, join_str(home, "./yarn")),
    ];
    push_pairs(&mut out, &pairs, Ghost(done));
    push_pairs(&mut out, &tail, Ghost(done + mid));
    proof {
        assert(strs(resolved_bins@).take(resolved_bins@.len() as int) =~= strs(resolved_bins@));
        let extra = depfile_extra_exceptions(current_exe@, manifest_parent@, home@, strs(resolved_bins@));
        assert(mid + pair_views(tail@) =~= extra);
        assert(done + mid + pair_views(tail@) =~= depfile_exception_list(
            opt_str(path_var),
            current_exe@,
            manifest_parent@,
            home@,
            strs(resolved_bins@),
        ));
    }
    out
}

/// The sandbox for parsing dependency files: the ecosystem programs are
/// resolved against `$PATH` (whose value, if set, is passed in), and the
/// exceptions are those of `depfile_sandbox_exceptions` for them.
pub fn depfile_sandbox(path_var: Option<&str>, current_exe: &str, manifest_parent: &str, home: &str) -> (r: Vec<
    Exception,
>)
    ensures
        exists|resolved: Seq<Seq<char>>|
            {
                &&& resolved.len() == ecosystem_bin_names().len()
                &&& forall|i: int|
                    0 <= i < resolved.len() ==> bin_resolution(
                        ecosystem_bin_names()[i],
                        opt_str(path_var),
                        #[trigger] resolved[i],
                    )
                &&& exceptions_match(
                    r@,
                    depfile_exception_list(opt_str(path_var), current_exe@, manifest_parent@, home@, resolved),
                )
            },
{
    let bins = ecosystem_bins();
    let resolved = resolve_bins(&bins, path_var);
    let r = depfile_sandbox_exceptions(path_var, current_exe, manifest_parent, home, &resolved);
    proof {
        let rv = strs(resolved@);
        assert forall|i: int| 0 <= i < rv.len() implies bin_resolution(
            ecosystem_bin_names()[i],
            opt_str(path_var),
            #[trigger] rv[i],
        ) by {
            assert(bins@[i]@ == ecosystem_bin_names()[i]);
        }
    }
    r
}

/// The (kind, path) pairs of one kind for each path.
pub open spec fn kind_pairs(kind: ExceptionKind, paths: Seq<Seq<char>>) -> Seq<(ExceptionKind, Seq<char>)> {
    paths.map_values(|p: Seq<char>| (kind, p))
}

/// The exception for an environment variable: all of them for `*`.
pub open spec fn env_pair(var: Seq<char>) -> (ExceptionKind, Seq<char>) {
    if var == "*"@ {
        (ExceptionKind::FullEnvironment, Seq::<char>::empty())
    } else {
        (ExceptionKind::Environment, var)
    }
}

/// The exceptions of `phylum sandbox`: the default ones (none when
/// strict), reading, writing and running the paths given (programs as
/// resolved), networking where allowed, and the environment variables given.
pub open spec fn sandbox_command_exception_list(
    strict: bool,
    path_var: Option<Seq<char>>,
    reads: Seq<Seq<char>>,
    writes: Seq<Seq<char>>,
    resolved_runs: Seq<Seq<char>>,
    net: bool,
    envs: Seq<Seq<char>>,
) -> Seq<(ExceptionKind, Seq<char>)> {
    (if strict {
        Seq::<(ExceptionKind, Seq<char>)>::empty()
    } else {
        base_exceptions() + path_var_exceptions(path_var)
    }) + kind_pairs(ExceptionKind::Read, reads) + kind_pairs(ExceptionKind::WriteAndRead, writes) + kind_pairs(
        ExceptionKind::ExecuteAndRead,
        resolved_runs,
    ) + (if net {
        seq![(ExceptionKind::Networking, Seq::<char>::empty())]
    } else {
        Seq::<(ExceptionKind, Seq<char>)>::empty()
    }) + envs.map_values(|v: Seq<char>| env_pair(v))
}

/// Appends (kind, path) pairs of one kind for each path.
fn push_kind_pairs(pairs: &mut Vec<(ExceptionKind, String)>, kind: ExceptionKind, paths: &Vec<String>)
    ensures
        pair_views(final(pairs)@) == pair_views(old(pairs)@) + kind_pairs(kind, strs(paths@)),
{
    let ghost start = pair_views(pairs@);
    let ghost want = kind_pairs(kind, strs(paths@));
    let mut i: usize = 0;
    while i < paths.len()
        invariant
            i <= paths@.len(),
            want == kind_pairs(kind, strs(paths@)),
            pair_views(pairs@) == start + want.take(i as int),
        decreases paths@.len() - i,
    {
        let ghost before = pair_views(pairs@);
        pairs.push((kind, String::from_str(paths[i].as_str())));
        proof {
            assert(pair_views(pairs@) =~= before.push((kind, paths@[i as int]@)));
            assert(want[i as int] == (kind, paths@[i as int]@));
            assert(start + want.take(i + 1) =~= (start + want.take(i as int)).push(want[i as int]));
        }
        i = i + 1;
    }
    proof {
        assert(want.take(paths@.len() as int) =~= want);
    }
}

/// The exceptions of `phylum sandbox` for the paths, programs and
/// environment variables given: the programs are resolved against `$PATH`
/// (whose value, if set, is passed in).
pub fn sandbox_command_exceptions(
    strict: bool,
    path_var: Option<&str>,
    reads: &Vec<String>,
    writes: &Vec<String>,
    runs: &Vec<String>,
    net: bool,
    envs: &Vec<String>,
) -> (r: Vec<Exception>)
    ensures
        exists|resolved: Seq<Seq<char>>|
            {
                &&& resolved.len() == runs@.len()
                &&& forall|i: int|
                    0 <= i < resolved.len() ==> bin_resolution(runs@[i]@, opt_str(path_var), #[trigger] resolved[i])
                &&& exceptions_match(
                    r@,
                    sandbox_command_exception_list(
                        strict,
                        opt_str(path_var),
                        strs(reads@),
                        strs(writes@),
                        resolved,
                        net,
                        strs(envs@),
                    ),
                )
            },
{
    let mut out: Vec<Exception> = if strict {
        Vec::new()
    } else {
        default_exceptions(path_var)
    };
    let ghost done = if strict {
        Seq::<(ExceptionKind, Seq<char>)>::empty()
    } else {
        base_exceptions() + path_var_exceptions(opt_str(path_var))
    };
    let resolved = resolve_bins(runs, path_var);
    let mut pairs: Vec<(ExceptionKind, String)> = Vec::new();
    push_kind_pairs(&mut pairs, ExceptionKind::Read, reads);
    push_kind_pairs(&mut pairs, ExceptionKind::WriteAndRead, writes);
    push_kind_pairs(&mut pairs, ExceptionKind::ExecuteAndRead, &resolved);
    if net {
        let ghost before = pair_views(pairs@);
        pairs.push((ExceptionKind::Networking, String::new()));
        proof {
            assert(pair_views(pairs@) =~= before + seq![(ExceptionKind::Networking, Seq::<char>::empty())]);
        }
    }
    let ghost mid = pair_views(pairs@);
    let ghost ev = strs(envs@).map_values(|v: Seq<char>| env_pair(v));
    let mut i: usize = 0;
    while i < envs.len()
        invariant
            i <= envs@.len(),
            ev == strs(envs@).map_values(|v: Seq<char>| env_pair(v)),
            pair_views(pairs@) == mid + ev.take(i as int),
        decreases envs@.len() - i,
    {
        let var = &envs[i];
        let ghost before = pair_views(pairs@);
        let all = crate::text::eq_lit(&chars_of(var.as_str()), "*");
        if all {
            pairs.push((ExceptionKind::FullEnvironment, String::new()));
        } else {
            pairs.push((ExceptionKind::Environment, String::from_str(var.as_str())));
        }
        proof {
            assert(ev[i as int] == env_pair(envs@[i as int]@));
            assert(pair_views(pairs@) =~= before.push(ev[i as int]));
            assert(mid + ev.take(i + 1) =~= (mid + ev.take(i as int)).push(ev[i as int]));
        }
        i = i + 1;
    }
    proof {
        assert(ev.take(envs@.len() as int) =~= ev);
    }
    push_pairs(&mut out, &pairs, Ghost(done));
    proof {
        let rv = strs(resolved@);
        assert forall|k: int| 0 <= k < rv.len() implies bin_resolution(
            runs@[k]@,
            opt_str(path_var),
            #[trigger] rv[k],
        ) by {
            assert(rv[k] == resolved@[k]@);
        }
        assert(done + pair_views(pairs@) =~= sandbox_command_exception_list(
            strict,
            opt_str(path_var),
            strs(reads@),
            strs(writes@),
            rv,
            net,
            strs(envs@),
        ));
    }
    out
}

/// Resolves the leading `~/` of permission paths against the home directory.
pub fn expand_home_paths(paths: Vec<String>, home: &str) -> (r: Vec<String>)
    ensures
        r@.len() == paths@.len(),
        forall|i: int| 0 <= i < paths@.len() ==> (#[trigger] r@[i])@ == expanded_home_path(paths@[i]@, home@),
{
    let mut out: Vec<String> = Vec::new();
    let mut i: usize = 0;
    while i < paths.len()
        invariant
            i <= paths@.len(),
            out@.len() == i,
            forall|k: int| 0 <= k < i ==> (#[trigger] out@[k])@ == expanded_home_path(paths@[k]@, home@),
        decreases paths@.len() - i,
    {
        out.push(expand_home_path(paths[i].as_str(), home));
        i = i + 1;
    }
    out
}

/// A flag before each path, the path resolved against the home directory.
pub open spec fn path_args(flag: Seq<char>, paths: Seq<Seq<char>>, home: Seq<char>) -> Seq<Seq<char>>
    decreases paths.len(),
{
    if paths.len() == 0 {
        Seq::<Seq<char>>::empty()
    } else {
        path_args(flag, paths.drop_last(), home) + seq![flag, expanded_home_path(paths.last(), home)]
    }
}

/// The environment arguments: each allowed variable but `*`, or all of them.
pub open spec fn env_args(env: Permission) -> Seq<Seq<char>> {
    match env {
        Permission::List(keys) => key_args(strs(keys@)),
        Permission::Boolean(b) => if b {
            seq!["--allow-env"@]
        } else {
            Seq::<Seq<char>>::empty()
        },
    }
}

/// `--allow-env` before each key but `*`.
pub open spec fn key_args(keys: Seq<Seq<char>>) -> Seq<Seq<char>>
    decreases keys.len(),
{
    if keys.len() == 0 {
        Seq::<Seq<char>>::empty()
    } else {
        key_args(keys.drop_last()) + if keys.last() == "*"@ {
            Seq::<Seq<char>>::empty()
        } else {
            seq!["--allow-env"@, keys.last()]
        }
    }
}

/// The arguments of `phylum sandbox` that grant `p`: strictness, reads,
/// writes, runs (paths resolved against the home directory), networking
/// only when allowed outright, and environment variables.
pub open spec fn permission_args(p: Permissions, strict: bool, home: Seq<char>) -> Seq<Seq<char>> {
    (if strict {
        seq!["--strict"@]
    } else {
        Seq::<Seq<char>>::empty()
    }) + path_args("--allow-read"@, sandbox_path_list(p.read), home) + path_args(
        "--allow-write"@,
        sandbox_path_list(p.write),
        home,
    ) + path_args("--allow-run"@, sandbox_path_list(p.run), home) + (if p.net == Permission::Boolean(
        true,
    ) {
        seq!["--allow-net"@]
    } else {
        Seq::<Seq<char>>::empty()
    }) + env_args(p.env)
}

/// Appends a flag before each path, resolved against the home directory.
fn push_path_args(args: &mut Vec<String>, flag: &str, paths: &Vec<String>, home: &str)
    ensures
        strs(final(args)@) == strs(old(args)@) + path_args(flag@, strs(paths@), home@),
{
    let ghost start = strs(args@);
    let ghost pv = strs(paths@);
    let mut i: usize = 0;
    proof {
        assert(pv.take(0) =~= Seq::<Seq<char>>::empty());
    }
    while i < paths.len()
        invariant
            pv == strs(paths@),
            i <= paths@.len(),
            strs(args@) == start + path_args(flag@, pv.take(i as int), home@),
        decreases paths@.len() - i,
    {
        proof {
            assert(pv.take(i + 1).drop_last() =~= pv.take(i as int));
            assert(pv.take(i + 1).last() == paths@[i as int]@);
        }
        let ghost before = strs(args@);
        args.push(String::from_str(flag));
        args.push(expand_home_path(paths[i].as_str(), home));
        proof {
            assert(strs(args@) =~= before + seq![flag@, expanded_home_path(pv[i as int], home@)]);
        }
        i = i + 1;
    }
    proof {
        assert(pv.take(paths@.len() as int) =~= pv);
    }
}

/// Appends the `phylum sandbox` arguments that grant `permissions`, paths
/// resolved against the home directory `home`.
pub fn push_permission_args(args: &mut Vec<String>, permissions: &Permissions, strict: bool, home: &str)
    ensures
        strs(final(args)@) == strs(old(args)@) + permission_args(*permissions, strict, home@),
{
    let ghost start = strs(args@);
    if strict {
        args.push(String::from_str("--strict"));
    }
    let ghost a1 = strs(args@);
    proof {
        assert(a1 =~= start + if strict {
            seq!["--strict"@]
        } else {
            Seq::<Seq<char>>::empty()
        });
    }
    push_path_args(args, "--allow-read", &permissions.read.sandbox_paths(), home);
    push_path_args(args, "--allow-write", &permissions.write.sandbox_paths(), home);
    push_path_args(args, "--allow-run", &permissions.run.sandbox_paths(), home);
    let ghost a4 = strs(args@);
    let net_all = match &permissions.net {
        Permission::Boolean(b) => *b,
        Permission::List(_) => false,
    };
    if net_all {
        args.push(String::from_str("--allow-net"));
    }
    let ghost a5 = strs(args@);
    proof {
        assert(a5 =~= a4 + if permissions.net == Permission::Boolean(true) {
            seq!["--allow-net"@]
        } else {
            Seq::<Seq<char>>::empty()
        });
    }
    match &permissions.env {
        Permission::List(keys) => {
            let ghost kv = strs(keys@);
            let mut i: usize = 0;
            proof {
                assert(kv.take(0) =~= Seq::<Seq<char>>::empty());
            }
            while i < keys.len()
                invariant
                    kv == strs(keys@),
                    i <= keys@.len(),
                    strs(args@) == a5 + key_args(kv.take(i as int)),
                decreases keys@.len() - i,
            {
                proof {
                    assert(kv.take(i + 1).drop_last() =~= kv.take(i as int));
                    assert(kv.take(i + 1).last() == keys@[i as int]@);
                }
                let ghost before = strs(args@);
                if !eq_str(keys[i].as_str(), "*") {
                    args.push(String::from_str("--allow-env"));
                    args.push(keys[i].clone());
                    proof {
                        assert(strs(args@) =~= before + seq!["--allow-env"@, kv[i as int]]);
                    }
                } else {
                    proof {
                        assert(strs(args@) =~= before);
                    }
                }
                i = i + 1;
            }
            proof {
                assert(kv.take(keys@.len() as int) =~= kv);
            }
        },
        Permission::Boolean(b) => {
            if *b {
                args.push(String::from_str("--allow-env"));
            }
        },
    }
    proof {
        assert(strs(final(args)@) =~= start + permission_args(*permissions, strict, home@)) by {
            assert(strs(args@) =~= a5 + env_args(permissions.env));
        }
    }
}

/// Whether two strings are equal.
fn eq_str(a: &str, b: &str) -> (r: bool)
    ensures
        r == (a@ == b@),
{
    crate::text::eq_lit(&chars_of(a), b)
}

/// Creates the arguments of `phylum sandbox` that grant `permissions`, paths
/// below `~` resolved against the user's home directory.
pub fn add_permission_args(args: &mut Vec<String>, permissions: &Permissions, strict: bool) -> (r:
    Result<(), DirsError>)
    ensures
        r is Err ==> strs(final(args)@) == strs(old(args)@),
        r is Ok ==> exists|home: Seq<char>|
            strs(final(args)@) == strs(old(args)@) + permission_args(*permissions, strict, home),
{
    let home = match home_dir() {
        Ok(h) => h,
        Err(e) => return Err(e),
    };
    push_permission_args(args, permissions, strict, home.as_str());
    Ok(())
}

/// The arguments that run `cmd` with `cmd_args` under `phylum sandbox`
/// with the given permissions.
pub fn sandbox_command_args(
    cmd: &str,
    cmd_args: &Vec<String>,
    permissions: &Permissions,
    strict: bool,
    home: &str,
) -> (r: Vec<String>)
    ensures
        strs(r@) == seq!["sandbox"@] + permission_args(*permissions, strict, home@) + seq!["--"@, cmd@]
            + strs(cmd_args@),
{
    let mut args: Vec<String> = Vec::new();
    args.push(String::from_str("sandbox"));
    push_permission_args(&mut args, permissions, strict, home);
    let ghost mid = strs(args@);
    args.push(String::from_str("--"));
    args.push(String::from_str(cmd));
    let ghost after_cmd = strs(args@);
    let mut i: usize = 0;
    while i < cmd_args.len()
        invariant
            i <= cmd_args@.len(),
            strs(args@) == after_cmd + strs(cmd_args@).take(i as int),
        decreases cmd_args@.len() - i,
    {
        let ghost before = strs(args@);
        args.push(cmd_args[i].clone());
        proof {
            assert(strs(args@) =~= before.push(cmd_args@[i as int]@));
            assert(strs(cmd_args@).take(i + 1) =~= strs(cmd_args@).take(i as int).push(cmd_args@[i as int]@));
        }
        i = i + 1;
    }
    proof {
        assert(strs(cmd_args@).take(cmd_args@.len() as int) =~= strs(cmd_args@));
        assert(after_cmd =~= mid + seq!["--"@, cmd@]);
    }
    args
}

} // verus!
