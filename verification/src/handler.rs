//! Dispatch: deciding what a request's path is asking for.
//!
//! The endpoint registry maps a path to one of three producers: the
//! static-asset tree (every path under a fixed prefix), a named
//! remote-procedure handler (an exact path match), or the page renderer for
//! everything else.

use vstd::prelude::*;

use crate::headers::bytes_eq;
use crate::request::copy_range;

verus! {

/// What a request path resolves to.
pub enum RouteDecision {
    /// Serve a static asset: the path below the static prefix.
    StaticAsset(Vec<u8>),
    /// Invoke the registered remote-procedure handler with this index.
    ServerFn(usize),
    /// Hand the route to the page renderer.
    Render,
}

/// Whether `s` begins with `prefix`.
pub open spec fn starts_with(s: Seq<u8>, prefix: Seq<u8>) -> bool {
    prefix.len() <= s.len() && s.subrange(0, prefix.len() as int) == prefix
}

/// Check whether `s` begins with `prefix`.
pub fn check_starts_with(s: &[u8], prefix: &[u8]) -> (r: bool)
    ensures
        r == starts_with(s@, prefix@),
{
    if prefix.len() > s.len() {
        return false;
    }
    let mut i: usize = 0;
    while i < prefix.len()
        invariant
            i <= prefix@.len() <= s@.len(),
            forall|j: int| 0 <= j < i ==> s@[j] == prefix@[j],
        decreases prefix@.len() - i,
    {
        if s[i] != prefix[i] {
            return false;
        }
        i += 1;
    }
    proof {
        assert(s@.subrange(0, prefix@.len() as int) =~= prefix@);
    }
    true
}

/// Decide what a path asks for: a path under the static prefix is a
/// static-asset lookup (the suffix below the prefix rides along); otherwise
/// the first registered remote-procedure path that matches exactly wins;
/// any other path goes to the page renderer.
pub fn route(path: &[u8], static_prefix: &[u8], server_fn_paths: &Vec<Vec<u8>>) -> (r:
    RouteDecision)
    ensures
        starts_with(path@, static_prefix@) ==> (r matches RouteDecision::StaticAsset(suffix)
            && static_prefix@ + suffix@ == path@),
        !starts_with(path@, static_prefix@) ==> {
            &&& (exists|i: int|
                0 <= i < server_fn_paths@.len() && #[trigger] server_fn_paths@[i]@ == path@)
                ==> (r matches RouteDecision::ServerFn(i) && {
                &&& 0 <= i < server_fn_paths@.len()
                &&& server_fn_paths@[i as int]@ == path@
                &&& forall|j: int| 0 <= j < i ==> #[trigger] server_fn_paths@[j]@ != path@
            })
            &&& (forall|i: int|
                0 <= i < server_fn_paths@.len() ==> #[trigger] server_fn_paths@[i]@ != path@)
                ==> r is Render
        },
{
    if check_starts_with(path, static_prefix) {
        let suffix = copy_range(path, static_prefix.len(), path.len());
        proof {
            assert(static_prefix@ + suffix@ =~= path@);
        }
        return RouteDecision::StaticAsset(suffix);
    }
    let mut i: usize = 0;
    while i < server_fn_paths.len()
        invariant
            i <= server_fn_paths@.len(),
            !starts_with(path@, static_prefix@),
            forall|j: int| 0 <= j < i ==> #[trigger] server_fn_paths@[j]@ != path@,
        decreases server_fn_paths@.len() - i,
    {
        if bytes_eq(server_fn_paths[i].as_slice(), path) {
            return RouteDecision::ServerFn(i);
        }
        i += 1;
    }
    RouteDecision::Render
}

} // verus!
