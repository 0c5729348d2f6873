//! The remote feed's interface: the metadata document format and the request
//! URLs.
//!
//! The metadata document is a JSON object whose `"images"` member is an array
//! of objects; the identifier of the current picture is the string value of
//! the `"url"` member of the first array element. Only that one field is
//! consumed; members in front of it are skipped as long as their values are
//! strings or scalars (the feed places `"images"` first, so members after it,
//! nested or not, are never inspected). A document that does not yield an
//! identifier this way — no object, no `"images"` array, an empty array, an
//! escaped or unterminated string — is a metadata failure, absorbed by the
//! attempt that fetched it.

use vstd::prelude::*;
use vstd::string::StringSliceAdditionalSpecFns;

verus! {

pub const QUOTE: u8 = 34;

pub const COMMA: u8 = 44;

pub const COLON: u8 = 58;

pub const BACKSLASH: u8 = 92;

pub const LBRACKET: u8 = 91;

pub const RBRACKET: u8 = 93;

pub const LBRACE: u8 = 123;

pub const RBRACE: u8 = 125;

pub open spec fn is_ws(b: u8) -> bool {
    b == 32 || b == 9 || b == 10 || b == 13
}

/// Bytes that may form an unquoted scalar value (a number, `true`, `false`,
/// `null`): anything up to the next structural byte or whitespace.
pub open spec fn is_scalar_byte(b: u8) -> bool {
    &&& !is_ws(b)
    &&& b != QUOTE
    &&& b != COMMA
    &&& b != COLON
    &&& b != BACKSLASH
    &&& b != LBRACKET
    &&& b != RBRACKET
    &&& b != LBRACE
    &&& b != RBRACE
}

/// The first position at or after `p` that holds no whitespace.
pub open spec fn skip_ws(s: Seq<u8>, p: int) -> int
    decreases s.len() - p,
{
    if 0 <= p < s.len() && is_ws(s[p]) {
        skip_ws(s, p + 1)
    } else {
        p
    }
}

/// The position just past the closing quote of a string body starting at `p`
/// (`p` is the first byte after the opening quote), honouring backslash
/// escapes; `None` if the string never closes.
pub open spec fn string_end(s: Seq<u8>, p: int) -> Option<int>
    decreases s.len() - p,
{
    if p < 0 || p >= s.len() {
        None
    } else if s[p] == QUOTE {
        Some(p + 1)
    } else if s[p] == BACKSLASH {
        if p + 1 < s.len() {
            string_end(s, p + 2)
        } else {
            None
        }
    } else {
        string_end(s, p + 1)
    }
}

/// Like `string_end`, but refusing escapes: the bytes between the quotes are
/// then exactly the string's value. Keys and the identifier itself are read
/// this way.
pub open spec fn plain_string_end(s: Seq<u8>, p: int) -> Option<int>
    decreases s.len() - p,
{
    if p < 0 || p >= s.len() {
        None
    } else if s[p] == QUOTE {
        Some(p + 1)
    } else if s[p] == BACKSLASH {
        None
    } else {
        plain_string_end(s, p + 1)
    }
}

/// The end of a run of scalar bytes starting at `p`.
pub open spec fn scalar_run_end(s: Seq<u8>, p: int) -> int
    decreases s.len() - p,
{
    if 0 <= p < s.len() && is_scalar_byte(s[p]) {
        scalar_run_end(s, p + 1)
    } else {
        p
    }
}

/// The position just past one member value that is a string or a scalar,
/// starting at `p` (just after the member's colon); `None` if something else
/// stands there.
pub open spec fn simple_value_end(s: Seq<u8>, p: int) -> Option<int> {
    let q = skip_ws(s, p);
    if q < s.len() && s[q] == QUOTE {
        string_end(s, q + 1)
    } else if q < s.len() && is_scalar_byte(s[q]) {
        Some(scalar_run_end(s, q + 1))
    } else {
        None
    }
}

pub open spec fn url_key() -> Seq<u8> {
    seq![117u8, 114u8, 108u8]
}

pub open spec fn images_key() -> Seq<u8> {
    seq![105u8, 109u8, 97u8, 103u8, 101u8, 115u8]
}

proof fn lemma_skip_ws_bounds(s: Seq<u8>, p: int)
    ensures
        p <= skip_ws(s, p),
        p <= s.len() ==> skip_ws(s, p) <= s.len(),
    decreases s.len() - p,
{
    if 0 <= p < s.len() && is_ws(s[p]) {
        lemma_skip_ws_bounds(s, p + 1);
    }
}

proof fn lemma_string_end_bounds(s: Seq<u8>, p: int)
    ensures
        string_end(s, p) matches Some(e) ==> p < e <= s.len(),
    decreases s.len() - p,
{
    if 0 <= p < s.len() {
        if s[p] == BACKSLASH {
            if p + 1 < s.len() {
                lemma_string_end_bounds(s, p + 2);
            }
        } else if s[p] != QUOTE {
            lemma_string_end_bounds(s, p + 1);
        }
    }
}

proof fn lemma_plain_string_end_bounds(s: Seq<u8>, p: int)
    ensures
        plain_string_end(s, p) matches Some(e) ==> p < e <= s.len(),
    decreases s.len() - p,
{
    if 0 <= p < s.len() && s[p] != QUOTE && s[p] != BACKSLASH {
        lemma_plain_string_end_bounds(s, p + 1);
    }
}

proof fn lemma_scalar_run_end_bounds(s: Seq<u8>, p: int)
    ensures
        p <= scalar_run_end(s, p),
        p <= s.len() ==> scalar_run_end(s, p) <= s.len(),
    decreases s.len() - p,
{
    if 0 <= p < s.len() && is_scalar_byte(s[p]) {
        lemma_scalar_run_end_bounds(s, p + 1);
    }
}

proof fn lemma_simple_value_end_bounds(s: Seq<u8>, p: int)
    requires
        p >= 0,
    ensures
        simple_value_end(s, p) matches Some(e) ==> p < e <= s.len(),
{
    lemma_skip_ws_bounds(s, p);
    let q = skip_ws(s, p);
    lemma_string_end_bounds(s, q + 1);
    lemma_scalar_run_end_bounds(s, q + 1);
}

/// Scan the members of one object, starting just after its `{` or after a
/// `,`, for a member named `url` whose value is a plain string; its bytes are
/// the identifier. Members in front of it must carry string or scalar values.
pub open spec fn url_in_members(s: Seq<u8>, p: int) -> Option<Seq<u8>>
    decreases s.len() - p,
        when p >= 0
    via url_in_members_decreases
{
    let q = skip_ws(s, p);
    if q < s.len() && s[q] == QUOTE {
        match plain_string_end(s, q + 1) {
            None => None,
            Some(ke) => {
                let key = s.subrange(q + 1, ke - 1);
                let c = skip_ws(s, ke);
                if c < s.len() && s[c] == COLON {
                    if key == url_key() {
                        let vq = skip_ws(s, c + 1);
                        if vq < s.len() && s[vq] == QUOTE {
                            match plain_string_end(s, vq + 1) {
                                None => None,
                                Some(ve) => Some(s.subrange(vq + 1, ve - 1)),
                            }
                        } else {
                            None
                        }
                    } else {
                        match simple_value_end(s, c + 1) {
                            None => None,
                            Some(ve) => {
                                let w = skip_ws(s, ve);
                                if w < s.len() && s[w] == COMMA {
                                    url_in_members(s, w + 1)
                                } else {
                                    None
                                }
                            },
                        }
                    }
                } else {
                    None
                }
            },
        }
    } else {
        None
    }
}

#[via_fn]
proof fn url_in_members_decreases(s: Seq<u8>, p: int) {
    lemma_skip_ws_bounds(s, p);
    let q = skip_ws(s, p);
    if q < s.len() && s[q] == QUOTE {
        lemma_plain_string_end_bounds(s, q + 1);
        if let Some(ke) = plain_string_end(s, q + 1) {
            lemma_skip_ws_bounds(s, ke);
            let c = skip_ws(s, ke);
            if c < s.len() && s[c] == COLON {
                lemma_simple_value_end_bounds(s, c + 1);
                if let Some(ve) = simple_value_end(s, c + 1) {
                    lemma_skip_ws_bounds(s, ve);
                }
            }
        }
    }
}

/// Scan the members of the top-level object, starting just after its `{` or
/// after a `,`, for the `images` member; its value must be an array whose
/// first element is an object, and that object must yield the identifier. An
/// empty array is a failure: the feed carried no picture.
pub open spec fn images_in_members(s: Seq<u8>, p: int) -> Option<Seq<u8>>
    decreases s.len() - p,
        when p >= 0
    via images_in_members_decreases
{
    let q = skip_ws(s, p);
    if q < s.len() && s[q] == QUOTE {
        match plain_string_end(s, q + 1) {
            None => None,
            Some(ke) => {
                let key = s.subrange(q + 1, ke - 1);
                let c = skip_ws(s, ke);
                if c < s.len() && s[c] == COLON {
                    if key == images_key() {
                        let aq = skip_ws(s, c + 1);
                        if aq < s.len() && s[aq] == LBRACKET {
                            let oq = skip_ws(s, aq + 1);
                            if oq < s.len() && s[oq] == LBRACE {
                                url_in_members(s, oq + 1)
                            } else {
                                None
                            }
                        } else {
                            None
                        }
                    } else {
                        match simple_value_end(s, c + 1) {
                            None => None,
                            Some(ve) => {
                                let w = skip_ws(s, ve);
                                if w < s.len() && s[w] == COMMA {
                                    images_in_members(s, w + 1)
                                } else {
                                    None
                                }
                            },
                        }
                    }
                } else {
                    None
                }
            },
        }
    } else {
        None
    }
}

#[via_fn]
proof fn images_in_members_decreases(s: Seq<u8>, p: int) {
    lemma_skip_ws_bounds(s, p);
    let q = skip_ws(s, p);
    if q < s.len() && s[q] == QUOTE {
        lemma_plain_string_end_bounds(s, q + 1);
        if let Some(ke) = plain_string_end(s, q + 1) {
            lemma_skip_ws_bounds(s, ke);
            let c = skip_ws(s, ke);
            if c < s.len() && s[c] == COLON {
                lemma_simple_value_end_bounds(s, c + 1);
                if let Some(ve) = simple_value_end(s, c + 1) {
                    lemma_skip_ws_bounds(s, ve);
                }
            }
        }
    }
}

/// What one metadata document means: the identifier of the current picture,
/// or nothing if the document does not carry one.
pub open spec fn first_image_url(s: Seq<u8>) -> Option<Seq<u8>> {
    let p = skip_ws(s, 0);
    if p < s.len() && s[p] == LBRACE {
        images_in_members(s, p + 1)
    } else {
        None
    }
}

/// Scanning a string body whose content holds no quote and no backslash ends
/// exactly at the closing quote.
proof fn lemma_plain_string_scan(s: Seq<u8>, p: int, e: int)
    requires
        0 <= p <= e < s.len(),
        s[e] == QUOTE,
        forall|j: int| p <= j < e ==> s[j] != QUOTE && s[j] != BACKSLASH,
    ensures
        plain_string_end(s, p) == Some(e + 1),
    decreases e - p,
{
    if p < e {
        lemma_plain_string_scan(s, p + 1, e);
    }
}

/// The canonical metadata document for an identifier: exactly the documented
/// shape, with no whitespace and no other members.
pub open spec fn canonical_document(id: Seq<u8>) -> Seq<u8> {
    seq![LBRACE, QUOTE] + images_key() + seq![QUOTE, COLON, LBRACKET, LBRACE, QUOTE] + url_key()
        + seq![QUOTE, COLON, QUOTE] + id + seq![QUOTE, RBRACE, RBRACKET, RBRACE]
}

/// Success is owed on the documented shape: a document
/// `{"images":[{"url":"<id>"}]}` yields `<id>`, for every identifier free of
/// quotes and backslashes.
pub proof fn lemma_canonical_document_parses(id: Seq<u8>)
    requires
        forall|j: int| 0 <= j < id.len() ==> id[j] != QUOTE && id[j] != BACKSLASH,
    ensures
        first_image_url(canonical_document(id)) == Some(id),
{
    let s = canonical_document(id);
    let n = id.len() as int;
    assert(s.len() == n + 23);
    assert(forall|j: int| 0 <= j < n ==> s[19 + j] == id[j]);
    assert(!is_ws(s[0]));
    assert(skip_ws(s, 0) == 0);
    assert(s[0] == LBRACE);

    // The one member of the top-level object is the images key.
    assert(skip_ws(s, 1) == 1);
    assert(s[1] == QUOTE);
    lemma_plain_string_scan(s, 2, 8);
    assert(s.subrange(2, 8) =~= images_key());
    assert(skip_ws(s, 9) == 9);
    assert(s[9] == COLON);
    assert(skip_ws(s, 10) == 10);
    assert(s[10] == LBRACKET);
    assert(skip_ws(s, 11) == 11);
    assert(s[11] == LBRACE);
    assert(images_in_members(s, 1) == url_in_members(s, 12));

    // The one member of the first array element is the url key.
    assert(skip_ws(s, 12) == 12);
    assert(s[12] == QUOTE);
    lemma_plain_string_scan(s, 13, 16);
    assert(s.subrange(13, 16) =~= url_key());
    assert(skip_ws(s, 17) == 17);
    assert(s[17] == COLON);
    assert(skip_ws(s, 18) == 18);
    assert(s[18] == QUOTE);
    lemma_plain_string_scan(s, 19, 19 + n);
    assert(s.subrange(19, 19 + n) =~= id);
    assert(url_in_members(s, 12) == Some(s.subrange(19, 19 + n)));
}

fn skip_ws_exec(s: &[u8], p: usize) -> (r: usize)
    requires
        p <= s@.len(),
    ensures
        r == skip_ws(s@, p as int),
        p <= r <= s@.len(),
    decreases s@.len() - p,
{
    if p < s.len() {
        let b = s[p];
        if b == 32 || b == 9 || b == 10 || b == 13 {
            return skip_ws_exec(s, p + 1);
        }
    }
    p
}

fn string_end_exec(s: &[u8], p: usize) -> (r: Option<usize>)
    requires
        p <= s@.len(),
    ensures
        match r {
            Some(e) => string_end(s@, p as int) == Some(e as int) && p < e <= s@.len(),
            None => string_end(s@, p as int) is None,
        },
    decreases s@.len() - p,
{
    if p >= s.len() {
        return None;
    }
    let b = s[p];
    if b == QUOTE {
        Some(p + 1)
    } else if b == BACKSLASH {
        if p + 1 < s.len() {
            string_end_exec(s, p + 2)
        } else {
            None
        }
    } else {
        string_end_exec(s, p + 1)
    }
}

fn plain_string_end_exec(s: &[u8], p: usize) -> (r: Option<usize>)
    requires
        p <= s@.len(),
    ensures
        match r {
            Some(e) => plain_string_end(s@, p as int) == Some(e as int) && p < e <= s@.len(),
            None => plain_string_end(s@, p as int) is None,
        },
    decreases s@.len() - p,
{
    if p >= s.len() {
        return None;
    }
    let b = s[p];
    if b == QUOTE {
        Some(p + 1)
    } else if b == BACKSLASH {
        None
    } else {
        plain_string_end_exec(s, p + 1)
    }
}

fn is_scalar_byte_exec(b: u8) -> (r: bool)
    ensures
        r == is_scalar_byte(b),
{
    b != 32 && b != 9 && b != 10 && b != 13 && b != QUOTE && b != COMMA && b != COLON && b
        != BACKSLASH && b != LBRACKET && b != RBRACKET && b != LBRACE && b != RBRACE
}

fn scalar_run_end_exec(s: &[u8], p: usize) -> (r: usize)
    requires
        p <= s@.len(),
    ensures
        r == scalar_run_end(s@, p as int),
        p <= r <= s@.len(),
    decreases s@.len() - p,
{
    if p < s.len() {
        if is_scalar_byte_exec(s[p]) {
            return scalar_run_end_exec(s, p + 1);
        }
    }
    p
}

fn simple_value_end_exec(s: &[u8], p: usize) -> (r: Option<usize>)
    requires
        p <= s@.len(),
    ensures
        match r {
            Some(e) => simple_value_end(s@, p as int) == Some(e as int) && p < e <= s@.len(),
            None => simple_value_end(s@, p as int) is None,
        },
{
    let q = skip_ws_exec(s, p);
    if q < s.len() {
        let b = s[q];
        if b == QUOTE {
            string_end_exec(s, q + 1)
        } else if is_scalar_byte_exec(b) {
            Some(scalar_run_end_exec(s, q + 1))
        } else {
            None
        }
    } else {
        None
    }
}

fn key_is_url(s: &[u8], start: usize, end: usize) -> (r: bool)
    requires
        start <= end <= s@.len(),
    ensures
        r == (s@.subrange(start as int, end as int) == url_key()),
{
    let r = end - start == 3 && s[start] == 117 && s[start + 1] == 114 && s[start + 2] == 108;
    proof {
        let key = s@.subrange(start as int, end as int);
        if r {
            assert(key =~= url_key());
        } else if key == url_key() {
            assert(key.len() == 3);
            assert(key[0] == 117u8 && key[1] == 114u8 && key[2] == 108u8);
            assert(s@[start as int] == 117u8 && s@[start as int + 1] == 114u8 && s@[start as int
                + 2] == 108u8);
        }
    }
    r
}

fn key_is_images(s: &[u8], start: usize, end: usize) -> (r: bool)
    requires
        start <= end <= s@.len(),
    ensures
        r == (s@.subrange(start as int, end as int) == images_key()),
{
    let r = end - start == 6 && s[start] == 105 && s[start + 1] == 109 && s[start + 2] == 97 && s[
        start + 3] == 103 && s[start + 4] == 101 && s[start + 5] == 115;
    proof {
        let key = s@.subrange(start as int, end as int);
        if r {
            assert(key =~= images_key());
        } else if key == images_key() {
            assert(key.len() == 6);
            assert(key[0] == 105u8 && key[1] == 109u8 && key[2] == 97u8 && key[3] == 103u8 && key[4]
                == 101u8 && key[5] == 115u8);
            assert(s@[start as int] == 105u8 && s@[start as int + 1] == 109u8 && s@[start as int
                + 2] == 97u8 && s@[start as int + 3] == 103u8 && s@[start as int + 4] == 101u8 && s@[
                start as int + 5] == 115u8);
        }
    }
    r
}

fn url_in_members_exec(s: &[u8], p: usize) -> (r: Option<Vec<u8>>)
    requires
        p <= s@.len(),
    ensures
        match r {
            Some(id) => url_in_members(s@, p as int) == Some(id@),
            None => url_in_members(s@, p as int) is None,
        },
    decreases s@.len() - p,
{
    let q = skip_ws_exec(s, p);
    if q >= s.len() || s[q] != QUOTE {
        return None;
    }
    let ke = match plain_string_end_exec(s, q + 1) {
        Some(ke) => ke,
        None => {
            return None;
        },
    };
    let c = skip_ws_exec(s, ke);
    if c >= s.len() || s[c] != COLON {
        return None;
    }
    if key_is_url(s, q + 1, ke - 1) {
        let vq = skip_ws_exec(s, c + 1);
        if vq >= s.len() || s[vq] != QUOTE {
            return None;
        }
        match plain_string_end_exec(s, vq + 1) {
            Some(ve) => Some(
                vstd::slice::slice_to_vec(vstd::slice::slice_subrange(s, vq + 1, ve - 1)),
            ),
            None => None,
        }
    } else {
        let ve = match simple_value_end_exec(s, c + 1) {
            Some(ve) => ve,
            None => {
                return None;
            },
        };
        let w = skip_ws_exec(s, ve);
        if w >= s.len() || s[w] != COMMA {
            return None;
        }
        url_in_members_exec(s, w + 1)
    }
}

fn images_in_members_exec(s: &[u8], p: usize) -> (r: Option<Vec<u8>>)
    requires
        p <= s@.len(),
    ensures
        match r {
            Some(id) => images_in_members(s@, p as int) == Some(id@),
            None => images_in_members(s@, p as int) is None,
        },
    decreases s@.len() - p,
{
    let q = skip_ws_exec(s, p);
    if q >= s.len() || s[q] != QUOTE {
        return None;
    }
    let ke = match plain_string_end_exec(s, q + 1) {
        Some(ke) => ke,
        None => {
            return None;
        },
    };
    let c = skip_ws_exec(s, ke);
    if c >= s.len() || s[c] != COLON {
        return None;
    }
    if key_is_images(s, q + 1, ke - 1) {
        let aq = skip_ws_exec(s, c + 1);
        if aq >= s.len() || s[aq] != LBRACKET {
            return None;
        }
        let oq = skip_ws_exec(s, aq + 1);
        if oq >= s.len() || s[oq] != LBRACE {
            return None;
        }
        url_in_members_exec(s, oq + 1)
    } else {
        let ve = match simple_value_end_exec(s, c + 1) {
            Some(ve) => ve,
            None => {
                return None;
            },
        };
        let w = skip_ws_exec(s, ve);
        if w >= s.len() || s[w] != COMMA {
            return None;
        }
        images_in_members_exec(s, w + 1)
    }
}

/// Read one metadata document and hand back the identifier of the current
/// picture, exactly as `first_image_url` defines it; `None` on any document
/// that carries no identifier.
pub fn extract_image_url(body: &[u8]) -> (r: Option<Vec<u8>>)
    ensures
        match r {
            Some(id) => first_image_url(body@) == Some(id@),
            None => first_image_url(body@) is None,
        },
{
    let p = skip_ws_exec(body, 0);
    if p < body.len() {
        if body[p] == LBRACE {
            return images_in_members_exec(body, p + 1);
        }
    }
    None
}

/// The fixed feed endpoint one metadata request is sent to.
pub fn metadata_endpoint() -> (u: String)
    ensures
        u@ == "https://cn.bing.com/HPImageArchive.aspx?format=js&idx=0&n=1&mkt=zh-CN"@,
{
    "https://cn.bing.com/HPImageArchive.aspx?format=js&idx=0&n=1&mkt=zh-CN".to_owned()
}

/// The fixed CDN host an identifier's relative path is appended to.
pub open spec fn image_host_prefix() -> Seq<u8> {
    "https://s.cn.bing.net".spec_bytes()
}

/// The absolute URL the picture for `id` is downloaded from: the fixed CDN
/// host with the identifier's relative path appended, byte for byte.
pub fn image_request_url(id: &Vec<u8>) -> (u: Vec<u8>)
    ensures
        u@ == image_host_prefix() + id@,
{
    let host: &[u8] = "https://s.cn.bing.net".as_bytes();
    let mut u = vstd::slice::slice_to_vec(host);
    proof {
        assert(u@ =~= image_host_prefix() + id@.subrange(0, 0));
    }
    let mut i: usize = 0;
    while i < id.len()
        invariant
            i <= id@.len(),
            u@ == image_host_prefix() + id@.subrange(0, i as int),
        decreases id@.len() - i,
    {
        u.push(id[i]);
        proof {
            assert(u@ =~= image_host_prefix() + id@.subrange(0, i as int + 1));
        }
        i = i + 1;
    }
    proof {
        assert(id@.subrange(0, id@.len() as int) =~= id@);
    }
    u
}

} // verus!
