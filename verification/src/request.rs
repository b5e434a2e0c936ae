//! The inbound side of the translator: from the host's native request to
//! the internal representation the rendering pipeline consumes.
//!
//! Method, path, query and headers are extracted eagerly (they are cheap
//! and of fixed size); the body is carried as-is, without eager
//! materialization — a consumer that wants the whole payload asks the body
//! for it explicitly.

use vstd::prelude::*;

use crate::body::Body;
use crate::headers::HeaderMap;

verus! {

/// An HTTP request method.
pub enum Method {
    Get,
    Head,
    Post,
    Put,
    Delete,
    Connect,
    Options,
    Trace,
    Patch,
    /// An extension method, carried by name.
    Other(Vec<u8>),
}

/// The internal request representation, immutable once built from the
/// host's native request.
pub struct Request {
    pub method: Method,
    pub path: Vec<u8>,
    pub query: Vec<u8>,
    pub headers: HeaderMap,
    pub body: Body,
}

/// The byte `?`, which separates a request target's path from its query.
pub open spec fn question_mark() -> u8 {
    63
}

/// Split a request target at its first `?`: everything before it is the
/// path, everything after it the query. A target without `?` is all path,
/// with an empty query.
pub fn split_path_query(target: &[u8]) -> (r: (Vec<u8>, Vec<u8>))
    ensures
        (forall|j: int| 0 <= j < target@.len() ==> target@[j] != question_mark()) ==> {
            &&& r.0@ == target@
            &&& r.1@ == Seq::<u8>::empty()
        },
        (exists|k: int| 0 <= k < target@.len() && target@[k] == question_mark()) ==> exists|k: int|
            {
                &&& 0 <= k < target@.len()
                &&& target@[k] == question_mark()
                &&& (forall|j: int| 0 <= j < k ==> target@[j] != question_mark())
                &&& r.0@ == target@.subrange(0, k)
                &&& r.1@ == target@.subrange(k + 1, target@.len() as int)
            },
{
    let mut i: usize = 0;
    while i < target.len()
        invariant
            i <= target@.len(),
            forall|j: int| 0 <= j < i ==> target@[j] != question_mark(),
        decreases target@.len() - i,
    {
        if target[i] == 63 {
            let path = copy_range(target, 0, i);
            let query = copy_range(target, i + 1, target.len());
            proof {
                assert(target@[i as int] == question_mark());
            }
            return (path, query);
        }
        i += 1;
    }
    let path = copy_range(target, 0, target.len());
    proof {
        assert(path@ =~= target@);
    }
    (path, Vec::new())
}

/// Copy `src[from..to]` into a fresh buffer.
pub fn copy_range(src: &[u8], from: usize, to: usize) -> (r: Vec<u8>)
    requires
        from <= to <= src@.len(),
    ensures
        r@ == src@.subrange(from as int, to as int),
{
    let mut r: Vec<u8> = Vec::new();
    let mut i: usize = from;
    while i < to
        invariant
            from <= i <= to <= src@.len(),
            r@ == src@.subrange(from as int, i as int),
        decreases to - i,
    {
        r.push(src[i]);
        assert(r@ =~= src@.subrange(from as int, i + 1));
        i += 1;
    }
    r
}

impl Request {
    /// Build the internal request from what the host handed over: method
    /// and headers as given, the target split into path and query, and the
    /// body wrapped unread.
    pub fn build(method: Method, target: &[u8], headers: HeaderMap, body: Body) -> (r: Request)
        ensures
            r.method == method,
            r.headers == headers,
            r.body == body,
            (forall|j: int| 0 <= j < target@.len() ==> target@[j] != question_mark()) ==> {
                &&& r.path@ == target@
                &&& r.query@ == Seq::<u8>::empty()
            },
            (exists|k: int| 0 <= k < target@.len() && target@[k] == question_mark())
                ==> exists|k: int|
                {
                    &&& 0 <= k < target@.len()
                    &&& target@[k] == question_mark()
                    &&& (forall|j: int| 0 <= j < k ==> target@[j] != question_mark())
                    &&& r.path@ == target@.subrange(0, k)
                    &&& r.query@ == target@.subrange(k + 1, target@.len() as int)
                },
    {
        let (path, query) = split_path_query(target);
        Request { method, path, query, headers, body }
    }
}

} // verus!
