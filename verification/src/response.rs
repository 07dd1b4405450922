//! A plain model of an HTTP response: status code, ordered header pairs and
//! raw body bytes. The idempotency store caches such a value verbatim and
//! replays it byte for byte on a duplicate request, so equality of views is
//! exactly "byte-identical response".

use vstd::prelude::*;

verus! {

/// One response header: a name and a raw byte value.
pub struct HeaderPairRecord {
    pub name: String,
    pub value: Vec<u8>,
}

/// Mathematical image of a header pair.
pub ghost struct HeaderPairV {
    pub name: Seq<char>,
    pub value: Seq<u8>,
}

impl View for HeaderPairRecord {
    type V = HeaderPairV;

    open spec fn view(&self) -> HeaderPairV {
        HeaderPairV { name: self.name@, value: self.value@ }
    }
}

/// A response as the core stores and replays it.
pub struct HttpLikeResponse {
    pub status_code: u16,
    pub headers: Vec<HeaderPairRecord>,
    pub body: Vec<u8>,
}

/// Mathematical image of a response.
#[verifier::ext_equal]
pub ghost struct ResponseV {
    pub status_code: u16,
    pub headers: Seq<HeaderPairV>,
    pub body: Seq<u8>,
}

impl View for HttpLikeResponse {
    type V = ResponseV;

    open spec fn view(&self) -> ResponseV {
        ResponseV {
            status_code: self.status_code,
            headers: self.headers@.map_values(|h: HeaderPairRecord| h@),
            body: self.body@,
        }
    }
}

/// Copies a byte vector element by element.
pub fn copy_bytes(v: &Vec<u8>) -> (r: Vec<u8>)
    ensures
        r@ == v@,
{
    let mut out: Vec<u8> = Vec::new();
    let n = v.len();
    let mut i: usize = 0;
    while i < n
        invariant
            i <= n,
            n == v@.len(),
            out@ == v@.subrange(0, i as int),
        decreases n - i,
    {
        out.push(v[i]);
        proof {
            assert(out@ =~= v@.subrange(0, i + 1 as int));
        }
        i = i + 1;
    }
    proof {
        assert(v@.subrange(0, n as int) =~= v@);
    }
    out
}

impl HeaderPairRecord {
    /// Copies a header pair.
    pub fn duplicate(&self) -> (r: HeaderPairRecord)
        ensures
            r@ == self@,
    {
        HeaderPairRecord { name: self.name.clone(), value: copy_bytes(&self.value) }
    }
}

impl HttpLikeResponse {
    /// Copies a response; the copy is byte-identical to the original.
    pub fn duplicate(&self) -> (r: HttpLikeResponse)
        ensures
            r@ == self@,
    {
        let mut headers: Vec<HeaderPairRecord> = Vec::new();
        let n = self.headers.len();
        let mut i: usize = 0;
        while i < n
            invariant
                i <= n,
                n == self.headers@.len(),
                headers@.len() == i,
                forall|j: int| 0 <= j < i ==> headers@[j]@ == self.headers@[j]@,
            decreases n - i,
        {
            headers.push(self.headers[i].duplicate());
            i = i + 1;
        }
        let r = HttpLikeResponse {
            status_code: self.status_code,
            headers,
            body: copy_bytes(&self.body),
        };
        proof {
            assert(r@.headers =~= self@.headers);
            assert(r@ =~= self@);
        }
        r
    }

    /// Decides whether two responses are byte-identical.
    pub fn same_as(&self, other: &HttpLikeResponse) -> (r: bool)
        ensures
            r == (self@ == other@),
    {
        if self.status_code != other.status_code {
            return false;
        }
        if !bytes_equal(&self.body, &other.body) {
            return false;
        }
        let n = self.headers.len();
        if n != other.headers.len() {
            proof {
                assert(self@.headers.len() != other@.headers.len());
            }
            return false;
        }
        let mut i: usize = 0;
        while i < n
            invariant
                i <= n,
                n == self.headers@.len(),
                n == other.headers@.len(),
                self.status_code == other.status_code,
                self.body@ == other.body@,
                forall|j: int| 0 <= j < i ==> self.headers@[j]@ == other.headers@[j]@,
            decreases n - i,
        {
            let a = &self.headers[i];
            let b = &other.headers[i];
            if !a.name.eq(&b.name) || !bytes_equal(&a.value, &b.value) {
                proof {
                    assert(self@.headers[i as int] != other@.headers[i as int]);
                }
                return false;
            }
            i = i + 1;
        }
        proof {
            assert(self@.headers =~= other@.headers);
            assert(self@ =~= other@);
        }
        true
    }
}

/// Decides equality of two byte vectors.
pub fn bytes_equal(a: &Vec<u8>, b: &Vec<u8>) -> (r: bool)
    ensures
        r == (a@ == b@),
{
    let n = a.len();
    if n != b.len() {
        return false;
    }
    let mut i: usize = 0;
    while i < n
        invariant
            i <= n,
            n == a@.len(),
            n == b@.len(),
            forall|j: int| 0 <= j < i ==> a@[j] == b@[j],
        decreases n - i,
    {
        if a[i] != b[i] {
            return false;
        }
        i = i + 1;
    }
    proof {
        assert(a@ =~= b@);
    }
    true
}

/// The `Location` header name, as the redirect helper writes it.
pub open spec fn spec_location_header_name() -> Seq<char> {
    "location"@
}

/// The response the publish flow caches and replays: `303 See Other` with a
/// single `location` header pointing at `location`, and an empty body.
pub open spec fn spec_see_other(location: Seq<char>) -> ResponseV {
    ResponseV {
        status_code: 303,
        headers: seq![
            HeaderPairV {
                name: spec_location_header_name(),
                value: location.map_values(|c: char| c as u8),
            },
        ],
        body: Seq::empty(),
    }
}

/// Builds a `303 See Other` redirect to `location`, the response that a
/// successful publish stores and returns.
pub fn see_other(location: &str) -> (r: HttpLikeResponse)
    requires
        location.is_ascii(),
    ensures
        r@ == spec_see_other(location@),
{
    let value = str_to_bytes(location);
    let header = HeaderPairRecord { name: location_header_name(), value };
    let mut headers: Vec<HeaderPairRecord> = Vec::new();
    headers.push(header);
    let r = HttpLikeResponse { status_code: 303, headers, body: Vec::new() };
    proof {
        assert(r@.headers =~= spec_see_other(location@).headers);
        assert(r@ =~= spec_see_other(location@));
    }
    r
}

/// The `location` header name as an owned string.
fn location_header_name() -> (r: String)
    ensures
        r@ == spec_location_header_name(),
{
    String::from_str("location")
}

/// Encodes an ASCII string's characters as bytes, one byte per character.
pub(crate) fn str_to_bytes(s: &str) -> (r: Vec<u8>)
    requires
        s.is_ascii(),
    ensures
        r@ == s@.map_values(|c: char| c as u8),
{
    let n = s.unicode_len();
    let mut out: Vec<u8> = Vec::new();
    let mut i: usize = 0;
    while i < n
        invariant
            i <= n,
            n == s@.len(),
            s.is_ascii(),
            out@ == s@.subrange(0, i as int).map_values(|c: char| c as u8),
        decreases n - i,
    {
        let b = s.get_ascii(i);
        out.push(b);
        proof {
            assert(out@ =~= s@.subrange(0, i + 1 as int).map_values(|c: char| c as u8));
        }
        i = i + 1;
    }
    proof {
        assert(s@.subrange(0, n as int) =~= s@);
    }
    out
}

} // verus!
