//! The internal response representation and its translation toward the host.
//!
//! A response is a status code, an ordered header multimap, and a body. The
//! host consumes headers as a flat, validated field list; translating the
//! header map fails — as a request-level error, never a partial application —
//! exactly when some entry is not representable by the host header encoding.
//! Response overrides (status and extra headers settable from deep inside
//! the render tree) live in a request-scoped [`ResponseOptions`] cell.

use vstd::prelude::*;

use crate::body::{Body, ChunkStream};
use crate::headers::{
    copy_bytes, has_name, without_name, without_names, HeaderEntry, HeaderMap,
};

verus! {

/// Whether a byte may stand in a header field name handed to the host:
/// a token byte — an ASCII letter or digit, or one of
/// `! # $ % & ' * + - . ^ _ \` | ~`.
pub open spec fn valid_name_byte(b: u8) -> bool {
    ||| (97 <= b && b <= 122)  // a-z
    ||| (65 <= b && b <= 90)  // A-Z
    ||| (48 <= b && b <= 57)  // 0-9
    ||| b == 33  // !
    ||| (35 <= b && b <= 39)  // # $ % & '
    ||| b == 42  // *
    ||| b == 43  // +
    ||| b == 45  // -
    ||| b == 46  // .
    ||| b == 94  // ^
    ||| b == 95  // _
    ||| b == 96  // `
    ||| b == 124  // |
    ||| b == 126  // ~
}

/// Whether a byte may stand in a header field value handed to the host:
/// horizontal tab or a printable ASCII byte. Control bytes and non-ASCII
/// bytes are not representable without escaping.
pub open spec fn valid_value_byte(b: u8) -> bool {
    b == 9 || (32 <= b && b <= 126)
}

/// A header field name the host encoding can represent: nonempty, token
/// bytes only.
pub open spec fn valid_header_name(n: Seq<u8>) -> bool {
    n.len() > 0 && forall|i: int| 0 <= i < n.len() ==> valid_name_byte(#[trigger] n[i])
}

/// A header field value the host encoding can represent.
pub open spec fn valid_header_value(v: Seq<u8>) -> bool {
    forall|i: int| 0 <= i < v.len() ==> valid_value_byte(#[trigger] v[i])
}

/// A header entry the host encoding can represent.
pub open spec fn valid_entry(e: (Seq<u8>, Seq<u8>)) -> bool {
    valid_header_name(e.0) && valid_header_value(e.1)
}

/// Every entry of the list is representable by the host encoding.
pub open spec fn all_valid(s: Seq<(Seq<u8>, Seq<u8>)>) -> bool {
    forall|i: int| 0 <= i < s.len() ==> valid_entry(#[trigger] s[i])
}

/// Check a header field name.
pub fn check_header_name(n: &[u8]) -> (r: bool)
    ensures
        r == valid_header_name(n@),
{
    if n.len() == 0 {
        return false;
    }
    let mut i: usize = 0;
    while i < n.len()
        invariant
            i <= n@.len(),
            forall|j: int| 0 <= j < i ==> valid_name_byte(#[trigger] n@[j]),
        decreases n@.len() - i,
    {
        let b = n[i];
        let ok = (97 <= b && b <= 122) || (65 <= b && b <= 90) || (48 <= b && b <= 57) || b == 33
            || (35 <= b && b <= 39) || b == 42 || b == 43 || b == 45 || b == 46 || b == 94 || b
            == 95 || b == 96 || b == 124 || b == 126;
        if !ok {
            return false;
        }
        i += 1;
    }
    true
}

/// Check a header field value.
pub fn check_header_value(v: &[u8]) -> (r: bool)
    ensures
        r == valid_header_value(v@),
{
    let mut i: usize = 0;
    while i < v.len()
        invariant
            i <= v@.len(),
            forall|j: int| 0 <= j < i ==> valid_value_byte(#[trigger] v@[j]),
        decreases v@.len() - i,
    {
        let b = v[i];
        if !(b == 9 || (32 <= b && b <= 126)) {
            return false;
        }
        i += 1;
    }
    true
}

/// The host-facing header list: the entries of a header map, in order, all
/// of them representable by the host encoding.
#[derive(Debug)]
pub struct Headers {
    pub fields: Vec<HeaderEntry>,
}

impl View for Headers {
    type V = Seq<(Seq<u8>, Seq<u8>)>;

    open spec fn view(&self) -> Seq<(Seq<u8>, Seq<u8>)> {
        self.fields@.map_values(|e: HeaderEntry| e@)
    }
}

/// Why a response could not be translated for the host.
#[non_exhaustive]
#[derive(Debug)]
pub enum ResponseError {
    /// A header entry is not representable by the host header encoding; the
    /// offending entry rides along.
    WasiHeaders(HeaderEntry),
}

/// The internal response representation: a status code, an ordered header
/// multimap, and a body. It is scoped to exactly one request-handling
/// invocation.
pub struct Response {
    pub status: u16,
    pub headers: HeaderMap,
    pub body: Body,
}

impl Response {
    /// A fresh response around a body: status 200, no headers.
    pub fn new(body: Body) -> (r: Response)
        ensures
            r.status == 200,
            r.headers@ == Seq::<(Seq<u8>, Seq<u8>)>::empty(),
            r.body == body,
    {
        Response { status: 200, headers: HeaderMap::new(), body }
    }

    /// A streaming response around a lazy chunk sequence: status 200, no
    /// headers, asynchronous body.
    pub fn from_stream(stream: ChunkStream) -> (r: Response)
        ensures
            r.status == 200,
            r.headers@ == Seq::<(Seq<u8>, Seq<u8>)>::empty(),
            r.body == Body::Async(stream),
    {
        Response { status: 200, headers: HeaderMap::new(), body: Body::Async(stream) }
    }

    /// Translate the header map into the host-facing field list. Fails — on
    /// the first offender, with nothing partially applied — exactly when
    /// some entry is not representable by the host encoding.
    pub fn headers(&self) -> (r: Result<Headers, ResponseError>)
        ensures
            r is Ok <==> all_valid(self.headers@),
            r matches Ok(h) ==> h@ == self.headers@,
            r matches Err(e) ==> (e matches ResponseError::WasiHeaders(en) && exists|k: int|
                {
                    &&& 0 <= k < self.headers@.len()
                    &&& !valid_entry(#[trigger] self.headers@[k])
                    &&& en@ == self.headers@[k]
                    &&& forall|j: int| 0 <= j < k ==> valid_entry(#[trigger] self.headers@[j])
                }),
    {
        let mut fields: Vec<HeaderEntry> = Vec::new();
        let mut i: usize = 0;
        while i < self.headers.entries.len()
            invariant
                i <= self.headers@.len(),
                forall|j: int| 0 <= j < i ==> valid_entry(#[trigger] self.headers@[j]),
                fields@.map_values(|e: HeaderEntry| e@) == self.headers@.subrange(0, i as int),
            decreases self.headers@.len() - i,
        {
            let entry = &self.headers.entries[i];
            if !(check_header_name(entry.name.as_slice()) && check_header_value(
                entry.value.as_slice(),
            )) {
                let offender = HeaderEntry {
                    name: copy_bytes(&entry.name),
                    value: copy_bytes(&entry.value),
                };
                proof {
                    assert(!valid_entry(self.headers@[i as int]));
                }
                return Err(ResponseError::WasiHeaders(offender));
            }
            let ghost prev = fields@.map_values(|e: HeaderEntry| e@);
            let kept = HeaderEntry {
                name: copy_bytes(&entry.name),
                value: copy_bytes(&entry.value),
            };
            proof {
                assert(kept@ == self.headers@[i as int]);
            }
            fields.push(kept);
            proof {
                assert(fields@.map_values(|e: HeaderEntry| e@) =~= prev.push(
                    self.headers@[i as int],
                ));
                assert(prev.push(self.headers@[i as int]) =~= self.headers@.subrange(0, i + 1));
            }
            i += 1;
        }
        let r = Headers { fields };
        proof {
            assert(r@ =~= self.headers@);
        }
        Ok(r)
    }

    /// Apply request-scoped overrides: a status override replaces the
    /// status; the override headers are merged in (names they carry lose
    /// their old values) and drained from the cell. The body is untouched.
    pub fn extend_response(&mut self, opt: &mut ResponseOptions)
        ensures
            old(opt).parts.status matches Some(s) ==> final(self).status == s,
            old(opt).parts.status is None ==> final(self).status == old(self).status,
            final(self).headers@ == without_names(old(self).headers@, old(opt).parts.headers@)
                + old(opt).parts.headers@,
            final(self).body == old(self).body,
            final(opt).parts.headers@ == Seq::<(Seq<u8>, Seq<u8>)>::empty(),
            final(opt).parts.status == old(opt).parts.status,
    {
        if let Some(status) = opt.parts.status {
            self.status = status;
        }
        self.headers.extend_take(&mut opt.parts.headers);
    }

    /// If no content-type header is present, set one; an existing entry is
    /// left untouched.
    pub fn set_default_content_type(&mut self, content_type: Vec<u8>)
        requires
            valid_header_value(content_type@),
        ensures
            has_name(old(self).headers@, content_type_name()) ==> *final(self) == *old(self),
            !has_name(old(self).headers@, content_type_name()) ==> {
                &&& final(self).headers@ == old(self).headers@.push(
                    (content_type_name(), content_type@),
                )
                &&& final(self).status == old(self).status
                &&& final(self).body == old(self).body
            },
    {
        let name = content_type_bytes();
        if !self.headers.contains_name(name.as_slice()) {
            proof {
                lemma_without_absent(self.headers@, content_type_name());
            }
            self.headers.insert(name, content_type);
        }
    }
}

/// The byte string `content-type`.
pub open spec fn content_type_name() -> Seq<u8> {
    seq![99u8, 111u8, 110u8, 116u8, 101u8, 110u8, 116u8, 45u8, 116u8, 121u8, 112u8, 101u8]
}

/// Build the byte string `content-type`.
pub fn content_type_bytes() -> (r: Vec<u8>)
    ensures
        r@ == content_type_name(),
{
    let mut r: Vec<u8> = Vec::new();
    r.push(99);
    r.push(111);
    r.push(110);
    r.push(116);
    r.push(101);
    r.push(110);
    r.push(116);
    r.push(45);
    r.push(116);
    r.push(121);
    r.push(112);
    r.push(101);
    proof {
        assert(r@ =~= content_type_name());
    }
    r
}

/// Removing a name that no entry carries changes nothing.
pub proof fn lemma_without_absent(s: Seq<(Seq<u8>, Seq<u8>)>, name: Seq<u8>)
    requires
        !has_name(s, name),
    ensures
        without_name(s, name) == s,
    decreases s.len(),
{
    if s.len() > 0 {
        assert(!has_name(s.drop_last(), name)) by {
            assert(forall|i: int|
                0 <= i < s.drop_last().len() ==> s.drop_last()[i] == #[trigger] s[i]);
        }
        lemma_without_absent(s.drop_last(), name);
        assert(without_name(s, name) =~= s);
    } else {
        assert(without_name(s, name) =~= s);
    }
}

/// Header and status overrides settable from an element or a server
/// function while a response is being produced.
pub struct ResponseParts {
    pub headers: HeaderMap,
    pub status: Option<u16>,
}

/// A request-scoped cell of response overrides: lets deep render code
/// override the status code and add headers or cookies. It lives exactly as
/// long as one request.
pub struct ResponseOptions {
    pub parts: ResponseParts,
}

impl Default for ResponseOptions {
    /// No overrides: no status, no headers.
    fn default() -> (r: Self)
        ensures
            r.parts.status is None,
            r.parts.headers@ == Seq::<(Seq<u8>, Seq<u8>)>::empty(),
    {
        ResponseOptions { parts: ResponseParts { headers: HeaderMap::new(), status: None } }
    }
}

impl ResponseOptions {
    /// A simpler way to overwrite the contents with a new `ResponseParts`.
    pub fn overwrite(&mut self, parts: ResponseParts)
        ensures
            final(self).parts == parts,
    {
        self.parts = parts;
    }

    /// Set the status of the returned response.
    pub fn set_status(&mut self, status: u16)
        ensures
            final(self).parts.status == Some(status),
            final(self).parts.headers@ == old(self).parts.headers@,
    {
        self.parts.status = Some(status);
    }

    /// Insert a header, overwriting any previous value with the same key.
    pub fn insert_header(&mut self, key: Vec<u8>, value: Vec<u8>)
        ensures
            final(self).parts.headers@ == without_name(old(self).parts.headers@, key@).push(
                (key@, value@),
            ),
            final(self).parts.status == old(self).parts.status,
    {
        self.parts.headers.insert(key, value);
    }

    /// Append a header, leaving any header with the same key intact.
    pub fn append_header(&mut self, key: Vec<u8>, value: Vec<u8>)
        ensures
            final(self).parts.headers@ == old(self).parts.headers@.push((key@, value@)),
            final(self).parts.status == old(self).parts.status,
    {
        self.parts.headers.append(key, value);
    }
}

} // verus!
