//! `phylum auth status` and `phylum auth revoke-token`: how the user is
//! authenticated, and which tokens a selection revokes.

use vstd::prelude::*;

use crate::auth::is_locksmith_token;
use crate::exit_code::ExitCode;
use crate::init::ascending_below;
use crate::markdown::views;
use crate::text::is_prefix;

verus! {

/// How the user is authenticated.
#[derive(Debug, Clone, Copy, PartialEq, Eq, Structural)]
pub enum AuthMethod {
    /// An API key (a Locksmith token).
    ApiKey,
    /// An OpenID Connect refresh token.
    OpenIdConnect,
}

impl AuthMethod {
    /// The name the status message gives the method.
    pub fn name(&self) -> (r: &'static str)
        ensures
            r@ == match *self {
                AuthMethod::ApiKey => "API key"@,
                AuthMethod::OpenIdConnect => "OpenID Connect"@,
            },
    {
        match self {
            AuthMethod::ApiKey => "API key",
            AuthMethod::OpenIdConnect => "OpenID Connect",
        }
    }
}

/// How a stored token authenticates the user; `None` without one.
pub fn auth_method(token: Option<&str>) -> (r: Option<AuthMethod>)
    ensures
        r == match token {
            Some(t) => Some(
                if is_prefix("ph0_"@, t@) {
                    AuthMethod::ApiKey
                } else {
                    AuthMethod::OpenIdConnect
                },
            ),
            None => None::<AuthMethod>,
        },
{
    match token {
        Some(t) => if is_locksmith_token(t) {
            Some(AuthMethod::ApiKey)
        } else {
            Some(AuthMethod::OpenIdConnect)
        },
        None => None,
    }
}

/// The exit code of `phylum auth status`: not authenticated without a
/// token; else whether the token could be validated by looking the user up.
pub fn auth_status_exit(method: Option<AuthMethod>, user_found: bool) -> (r: ExitCode)
    ensures
        r == match method {
            None => ExitCode::NotAuthenticated,
            Some(_) => if user_found {
                ExitCode::Success
            } else {
                ExitCode::AuthenticationFailure
            },
        },
{
    match method {
        None => ExitCode::NotAuthenticated,
        Some(_) => if user_found {
            ExitCode::Success
        } else {
            ExitCode::AuthenticationFailure
        },
    }
}

/// The items at `indices`, last index first.
pub open spec fn picked_backwards(items: Seq<Seq<char>>, indices: Seq<usize>) -> Seq<Seq<char>>
    decreases indices.len(),
{
    if indices.len() == 0 {
        Seq::<Seq<char>>::empty()
    } else {
        seq![items[indices.last() as int]] + picked_backwards(items, indices.drop_last())
    }
}

/// The names of the tokens selected for revocation: taken out of the list
/// from the last selected index to the first, each by swapping the list's
/// last name into its place. As the selection reports strictly increasing
/// indices, this gives the selected names, last first.
pub fn revoked_token_names(names: Vec<String>, indices: &Vec<usize>) -> (r: Vec<String>)
    requires
        ascending_below(indices@, names@.len() as int),
    ensures
        views(r@) == picked_backwards(views(names@), indices@),
{
    let ghost orig = views(names@);
    let mut cur = names;
    let mut out: Vec<String> = Vec::new();
    let mut k: usize = indices.len();
    assert(indices@.take(k as int) =~= indices@);
    assert(views(out@) =~= Seq::<Seq<char>>::empty());
    assert(views(out@) + picked_backwards(orig, indices@) =~= picked_backwards(orig, indices@));
    while k > 0
        invariant
            k <= indices@.len(),
            ascending_below(indices@, orig.len() as int),
            orig.len() >= cur@.len(),
            k < indices@.len() ==> cur@.len() >= indices@[k as int],
            k == indices@.len() ==> cur@.len() == orig.len(),
            forall|j: int|
                0 <= j < (if k < indices@.len() {
                    indices@[k as int] as int
                } else {
                    orig.len() as int
                }) ==> j < cur@.len() && (#[trigger] cur@[j])@ == orig[j],
            views(out@) + picked_backwards(orig, indices@.take(k as int)) == picked_backwards(orig, indices@),
        decreases k,
    {
        let i = indices[k - 1];
        proof {
            if k < indices@.len() {
                assert(indices@[k - 1] < indices@[k as int]);
            }
        }
        let ghost before = cur@;
        let ghost outv = views(out@);
        let name = cur.swap_remove(i);
        proof {
            assert(name@ == orig[i as int]);
            assert(indices@.take(k as int).drop_last() =~= indices@.take(k - 1));
            assert(indices@.take(k as int).last() == i);
            assert forall|j: int| 0 <= j < i implies j < cur@.len() && (#[trigger] cur@[j])@ == orig[j] by {
                assert(cur@[j] == before[j]);
            }
        }
        out.push(name);
        proof {
            assert(views(out@) =~= outv.push(orig[i as int]));
            assert(views(out@) + picked_backwards(orig, indices@.take(k - 1)) =~= outv + picked_backwards(
                orig,
                indices@.take(k as int),
            ));
        }
        k = k - 1;
    }
    proof {
        assert(indices@.take(0) =~= Seq::<usize>::empty());
        assert(views(out@) + Seq::<Seq<char>>::empty() =~= views(out@));
    }
    out
}

} // verus!
