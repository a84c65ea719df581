//! Resilient transport pipeline: header deduplication, logging, and
//! threshold-gated request-body compression, composed in a fixed order
//! around the underlying HTTP call.

use vstd::prelude::*;
use vstd::string::StringSliceAdditionalSpecFns;

verus! {

/// An outbound HTTP request as the pipeline sees it. Header names are
/// kept with the letter case the caller set; wherever the pipeline
/// compares names it does so ASCII case-insensitively, as the HTTP
/// layer treats them.
#[derive(Clone, Debug)]
pub struct Request {
    pub method: String,
    pub url: String,
    pub headers: Vec<(String, String)>,
    pub body: Vec<u8>,
}

/// The headers of a request as mathematical sequences.
pub open spec fn header_views(hs: Seq<(String, String)>) -> Seq<(Seq<char>, Seq<char>)> {
    hs.map(|i: int, h: (String, String)| (h.0@, h.1@))
}

/// The lower-case form of an ASCII character; other characters are kept
/// as they are.
pub open spec fn ascii_lower(c: char) -> char {
    let u = c as u32;
    if 65 <= u <= 90 {
        ((u + 32) as char)
    } else {
        c
    }
}

/// The character sequence with each ASCII letter lowered. Header names
/// compare equal exactly when their lowered forms do, as the HTTP layer
/// treats them.
pub open spec fn lower_seq(s: Seq<char>) -> Seq<char> {
    s.map(|i: int, c: char| ascii_lower(c))
}

/// Whether some header in `hs` bears the name `name`, compared
/// case-insensitively.
pub open spec fn contains_name(hs: Seq<(Seq<char>, Seq<char>)>, name: Seq<char>) -> bool {
    exists|k: int| 0 <= k < hs.len() && lower_seq(#[trigger] hs[k].0) == lower_seq(name)
}

/// Whether position `i` is the first occurrence of its header name,
/// compared case-insensitively.
pub open spec fn keeps_first(hs: Seq<(Seq<char>, Seq<char>)>, i: int) -> bool {
    forall|j: int| 0 <= j < i ==> lower_seq(#[trigger] hs[j].0) != lower_seq(hs[i].0)
}

/// The headers from position `i` on that survive deduplication against
/// the whole sequence: each kept exactly when it is the first occurrence
/// of its name.
pub open spec fn dedup_from(hs: Seq<(Seq<char>, Seq<char>)>, i: int) -> Seq<
    (Seq<char>, Seq<char>),
>
    decreases hs.len() - i,
{
    if 0 <= i < hs.len() {
        if keeps_first(hs, i) {
            seq![hs[i]] + dedup_from(hs, i + 1)
        } else {
            dedup_from(hs, i + 1)
        }
    } else {
        Seq::empty()
    }
}

/// Whether `h` is a pair standing at a first-occurrence position of
/// `hs` at or after position `lo`.
pub open spec fn is_first_occurrence_pick(
    hs: Seq<(Seq<char>, Seq<char>)>,
    lo: int,
    h: (Seq<char>, Seq<char>),
) -> bool {
    exists|j: int| lo <= j < hs.len() && h == hs[j] && #[trigger] keeps_first(hs, j)
}

/// The deduplicated header sequence: for every name the first-set value
/// alone, with the order of distinct names preserved.
pub open spec fn spec_dedup_headers(hs: Seq<(Seq<char>, Seq<char>)>) -> Seq<
    (Seq<char>, Seq<char>),
> {
    dedup_from(hs, 0)
}

#[verifier::rlimit(50)]
proof fn lemma_dedup_from_props(hs: Seq<(Seq<char>, Seq<char>)>, i: int)
    requires
        0 <= i,
    ensures
        forall|k: int| 0 <= k < dedup_from(hs, i).len() ==> is_first_occurrence_pick(
            hs,
            i,
            #[trigger] dedup_from(hs, i)[k],
        ),
        forall|j: int| i <= j < hs.len() && #[trigger] keeps_first(hs, j) ==> contains_name(
            dedup_from(hs, i),
            hs[j].0,
        ),
        forall|a: int, b: int| 0 <= a < b < dedup_from(hs, i).len() ==> lower_seq(
            #[trigger] dedup_from(hs, i)[a].0,
        ) != lower_seq(#[trigger] dedup_from(hs, i)[b].0),
    decreases hs.len() - i,
{
    if 0 <= i < hs.len() {
        lemma_dedup_from_props(hs, i + 1);
        let out = dedup_from(hs, i);
        let rest = dedup_from(hs, i + 1);
        if !keeps_first(hs, i) {
            assert(out == rest);
            assert forall|k: int| 0 <= k < out.len() implies is_first_occurrence_pick(
                hs,
                i,
                #[trigger] out[k],
            ) by {
                assert(rest[k] == out[k]);
                assert(is_first_occurrence_pick(hs, i + 1, rest[k]));
                let j = choose|j: int|
                    i + 1 <= j < hs.len() && rest[k] == hs[j] && #[trigger] keeps_first(hs, j);
                assert(i <= j < hs.len() && out[k] == hs[j] && keeps_first(hs, j));
            }
            assert forall|a: int, b: int| 0 <= a < b < out.len() implies lower_seq(
                #[trigger] out[a].0,
            ) != lower_seq(#[trigger] out[b].0) by {
                assert(rest[a] == out[a] && rest[b] == out[b]);
            }
        } else {
            assert forall|k: int| 0 <= k < out.len() implies is_first_occurrence_pick(
                hs,
                i,
                #[trigger] out[k],
            ) by {
                if k == 0 {
                    assert(out[0] == hs[i] && keeps_first(hs, i));
                } else {
                    assert(out[k] == rest[k - 1]);
                    assert(is_first_occurrence_pick(hs, i + 1, rest[k - 1]));
                    let j = choose|j: int|
                        i + 1 <= j < hs.len() && rest[k - 1] == hs[j] && #[trigger] keeps_first(
                            hs,
                            j,
                        );
                    assert(out[k] == hs[j] && keeps_first(hs, j));
                }
            }
            assert forall|j: int|
                i <= j < hs.len() && #[trigger] keeps_first(hs, j) implies contains_name(
                out,
                hs[j].0,
            ) by {
                if j == i {
                    assert(lower_seq(out[0].0) == lower_seq(hs[i].0));
                } else {
                    assert(contains_name(rest, hs[j].0));
                    let k = choose|k: int|
                        0 <= k < rest.len() && lower_seq(#[trigger] rest[k].0) == lower_seq(
                            hs[j].0,
                        );
                    assert(lower_seq(out[k + 1].0) == lower_seq(hs[j].0));
                }
            }
            assert forall|a: int, b: int| 0 <= a < b < out.len() implies lower_seq(
                #[trigger] out[a].0,
            ) != lower_seq(#[trigger] out[b].0) by {
                if a == 0 {
                    assert(out[b] == rest[b - 1]);
                    assert(is_first_occurrence_pick(hs, i + 1, rest[b - 1]));
                    let j = choose|j: int|
                        i + 1 <= j < hs.len() && rest[b - 1] == hs[j] && #[trigger] keeps_first(
                            hs,
                            j,
                        );
                    assert(lower_seq(hs[j].0) != lower_seq(hs[i].0));
                } else {
                    assert(out[a] == rest[a - 1] && out[b] == rest[b - 1]);
                }
            }
        }
    }
}

/// Header deduplication law: after deduplication no name occurs twice,
/// not even in another letter case; exactly the names of the input
/// survive; and each surviving pair is one whose position was the first
/// occurrence of its name in the input, so the first-set value wins,
/// for any number of duplicates.
pub proof fn lemma_header_dedup(hs: Seq<(Seq<char>, Seq<char>)>)
    ensures
        forall|a: int, b: int| 0 <= a < b < spec_dedup_headers(hs).len() ==> lower_seq(
            #[trigger] spec_dedup_headers(hs)[a].0,
        ) != lower_seq(#[trigger] spec_dedup_headers(hs)[b].0),
        forall|name: Seq<char>| #[trigger] contains_name(spec_dedup_headers(hs), name)
            <==> contains_name(hs, name),
        forall|k: int| 0 <= k < spec_dedup_headers(hs).len() ==> is_first_occurrence_pick(
            hs,
            0,
            #[trigger] spec_dedup_headers(hs)[k],
        ),
{
    lemma_dedup_from_props(hs, 0);
    let out = spec_dedup_headers(hs);
    assert forall|name: Seq<char>| #[trigger] contains_name(out, name) implies contains_name(
        hs,
        name,
    ) by {
        let k = choose|k: int|
            0 <= k < out.len() && lower_seq(#[trigger] out[k].0) == lower_seq(name);
        assert(is_first_occurrence_pick(hs, 0, out[k]));
        let j = choose|j: int|
            0 <= j < hs.len() && out[k] == hs[j] && #[trigger] keeps_first(hs, j);
        assert(lower_seq(hs[j].0) == lower_seq(name));
    }
    assert forall|name: Seq<char>| contains_name(hs, name) implies #[trigger] contains_name(
        out,
        name,
    ) by {
        let k = choose|k: int|
            0 <= k < hs.len() && lower_seq(#[trigger] hs[k].0) == lower_seq(name);
        lemma_first_occurrence(hs, lower_seq(name), k);
        let first = choose|j: int|
            0 <= j <= k && lower_seq(#[trigger] hs[j].0) == lower_seq(name) && (forall|t: int|
                0 <= t < j ==> lower_seq(#[trigger] hs[t].0) != lower_seq(name));
        assert(keeps_first(hs, first));
        assert(contains_name(out, hs[first].0));
        assert(lower_seq(hs[first].0) == lower_seq(name));
    }
}

proof fn lemma_first_occurrence(hs: Seq<(Seq<char>, Seq<char>)>, lname: Seq<char>, k: int)
    requires
        0 <= k < hs.len(),
        lower_seq(hs[k].0) == lname,
    ensures
        exists|j: int|
            0 <= j <= k && lower_seq(#[trigger] hs[j].0) == lname && (forall|t: int|
                0 <= t < j ==> lower_seq(#[trigger] hs[t].0) != lname),
    decreases k,
{
    if exists|t: int| 0 <= t < k && lower_seq(#[trigger] hs[t].0) == lname {
        let t = choose|t: int| 0 <= t < k && lower_seq(#[trigger] hs[t].0) == lname;
        lemma_first_occurrence(hs, lname, t);
    } else {
        assert(0 <= k <= k && lower_seq(hs[k].0) == lname && (forall|t: int|
            0 <= t < k ==> lower_seq(#[trigger] hs[t].0) != lname));
    }
}

/// Whether two header names are the same, compared ASCII
/// case-insensitively.
fn names_equal_fold(a: &str, b: &str) -> (r: bool)
    ensures
        r == (lower_seq(a@) == lower_seq(b@)),
{
    let n = a.unicode_len();
    let m = b.unicode_len();
    if n != m {
        proof {
            assert(lower_seq(a@).len() == n && lower_seq(b@).len() == m);
        }
        return false;
    }
    let mut i: usize = 0;
    while i < n
        invariant
            i <= n == a@.len() == b@.len(),
            forall|j: int| 0 <= j < i ==> lower_seq(a@)[j] == lower_seq(b@)[j],
        decreases n - i,
    {
        let ca = a.get_char(i) as u32;
        let cb = b.get_char(i) as u32;
        let la: u32 = if 65 <= ca && ca <= 90 {
            ca + 32
        } else {
            ca
        };
        let lb: u32 = if 65 <= cb && cb <= 90 {
            cb + 32
        } else {
            cb
        };
        proof {
            assert(lower_seq(a@)[i as int] == ascii_lower(a@[i as int]));
            assert(lower_seq(b@)[i as int] == ascii_lower(b@[i as int]));
            assert(ascii_lower(a@[i as int]) as u32 == la);
            assert(ascii_lower(b@[i as int]) as u32 == lb);
        }
        if la != lb {
            return false;
        }
        i = i + 1;
    }
    proof {
        assert(lower_seq(a@) =~= lower_seq(b@));
    }
    true
}

/// Middleware that drops repeated headers: for every header name,
/// compared as the HTTP layer compares names — ASCII
/// case-insensitively — only the first-set value reaches the wire, and
/// the order of distinct names is preserved. Guards against upstream
/// code that sets the same header (such as an authorization token)
/// twice.
pub struct HeaderDeduplicatorMiddleware;

impl HeaderDeduplicatorMiddleware {
    pub fn handle(&self, req: Request) -> (r: Request)
        ensures
            r.method == req.method,
            r.url == req.url,
            r.body == req.body,
            header_views(r.headers@) == spec_dedup_headers(header_views(req.headers@)),
    {
        let ghost hv = header_views(req.headers@);
        let mut out: Vec<(String, String)> = Vec::new();
        let mut i: usize = 0;
        while i < req.headers.len()
            invariant
                i <= req.headers@.len(),
                hv == header_views(req.headers@),
                hv.len() == req.headers@.len(),
                header_views(out@) + dedup_from(hv, i as int) == spec_dedup_headers(hv),
            decreases req.headers@.len() - i,
        {
            let ghost out0 = out@;
            proof {
                assert(hv[i as int] == (req.headers@[i as int].0@, req.headers@[i as int].1@));
                assert(hv[i as int].0 == req.headers@[i as int].0@);
            }
            let mut seen = false;
            let mut k: usize = 0;
            while k < i
                invariant
                    k <= i < req.headers@.len(),
                    hv == header_views(req.headers@),
                    hv.len() == req.headers@.len(),
                    seen <==> exists|t: int| 0 <= t < k && lower_seq(#[trigger] hv[t].0)
                        == lower_seq(hv[i as int].0),
                decreases i - k,
            {
                proof {
                    assert(hv[k as int] == (req.headers@[k as int].0@, req.headers@[k as int].1@));
                    assert(hv[k as int].0 == req.headers@[k as int].0@);
                    assert(hv[i as int].0 == req.headers@[i as int].0@);
                }
                if names_equal_fold(req.headers[k].0.as_str(), req.headers[i].0.as_str()) {
                    proof {
                        assert(lower_seq(hv[k as int].0) == lower_seq(hv[i as int].0));
                    }
                    seen = true;
                }
                k = k + 1;
            }
            proof {
                assert(!seen <==> keeps_first(hv, i as int)) by {
                    if seen {
                        let t = choose|t: int|
                            0 <= t < i && lower_seq(#[trigger] hv[t].0) == lower_seq(
                                hv[i as int].0,
                            );
                        assert(!keeps_first(hv, i as int));
                    } else {
                        assert forall|j: int| 0 <= j < i implies lower_seq(#[trigger] hv[j].0)
                            != lower_seq(hv[i as int].0) by {
                            if lower_seq(hv[j].0) == lower_seq(hv[i as int].0) {
                                assert(exists|t: int|
                                    0 <= t < i && lower_seq(#[trigger] hv[t].0) == lower_seq(
                                        hv[i as int].0,
                                    ));
                            }
                        }
                    }
                }
            }
            if !seen {
                let name = req.headers[i].0.clone();
                let value = req.headers[i].1.clone();
                out.push((name, value));
                proof {
                    assert(out@ == out0.push((name, value)));
                    assert(header_views(out@) =~= header_views(out0).push(hv[i as int]));
                    assert(dedup_from(hv, i as int) == seq![hv[i as int]] + dedup_from(hv, i + 1));
                    assert(header_views(out@) + dedup_from(hv, i + 1) =~= header_views(out0)
                        + dedup_from(hv, i as int));
                }
            } else {
                proof {
                    assert(dedup_from(hv, i as int) == dedup_from(hv, i + 1));
                }
            }
            i = i + 1;
        }
        proof {
            assert(header_views(out@) + dedup_from(hv, hv.len() as int) =~= header_views(out@));
        }
        Request { method: req.method, url: req.url, headers: out, body: req.body }
    }
}

/// Bodies below this size are sent as they are; from this size on the
/// pipeline compresses them.
pub const ZSTD_MIN_BODY_SIZE: usize = 512;

/// What `zstd::encode_all` returns at the default compression level: a
/// function of the input bytes alone.
pub uninterp spec fn zstd_of(s: Seq<u8>) -> Seq<u8>;

/// Relies on `zstd::encode_all`: on an in-memory buffer it performs no
/// fallible I/O, and its output depends on the input bytes alone.
#[verifier::external_body]
fn zstd_compress(data: &Vec<u8>) -> (r: Vec<u8>)
    ensures
        r@ == zstd_of(data@),
{
    zstd::encode_all(&data[..], 0).expect("in-memory zstd compression does not fail")
}

/// Relies on `zstd::decode_all`: decoding inverts encoding, so a buffer
/// that `zstd::encode_all` produced decodes back to what was encoded.
#[verifier::external_body]
fn zstd_decompress(data: &Vec<u8>) -> (r: Option<Vec<u8>>)
    ensures
        forall|s: Seq<u8>| data@ == zstd_of(s) ==> r is Some && r.unwrap()@ == s,
{
    zstd::decode_all(&data[..]).ok()
}

/// Decodes a compressed request body: the inverse of the compression
/// this pipeline applies, so every body the pipeline compressed decodes
/// back to the original bytes exactly.
pub fn decode_compressed_body(data: &Vec<u8>) -> (r: Option<Vec<u8>>)
    ensures
        forall|s: Seq<u8>| data@ == zstd_of(s) ==> r is Some && r.unwrap()@ == s,
{
    zstd_decompress(data)
}

/// A byte that percent-encoding passes through unchanged: ASCII
/// letters and digits, hyphen, underscore, period, and tilde.
pub open spec fn is_unreserved_byte(b: u8) -> bool {
    (48 <= b <= 57) || (65 <= b <= 90) || (97 <= b <= 122) || b == 45 || b == 95 || b == 46
        || b == 126
}

/// The upper-case hexadecimal digit of a value below sixteen, as an
/// ASCII byte.
pub open spec fn hex_digit(n: u8) -> u8 {
    if n < 10 {
        (48 + n) as u8
    } else {
        (55 + n) as u8
    }
}

/// Percent-encoding of a byte sequence: unreserved bytes pass through;
/// every other byte becomes a percent sign and two upper-case hex
/// digits.
pub open spec fn spec_urlencode(s: Seq<u8>) -> Seq<u8>
    decreases s.len(),
{
    if s.len() == 0 {
        Seq::empty()
    } else {
        let b = s.first();
        let head = if is_unreserved_byte(b) {
            seq![b]
        } else {
            seq![37u8, hex_digit(b / 16), hex_digit(b % 16)]
        };
        head + spec_urlencode(s.drop_first())
    }
}

/// Percent-encodes a value for use as one URL path segment, byte for
/// byte over its UTF-8 form. The result is ASCII.
pub fn urlencode(s: &str) -> (r: Vec<u8>)
    ensures
        r@ == spec_urlencode(s.spec_bytes()),
{
    let bytes = s.as_bytes();
    let n = bytes.len();
    let mut out: Vec<u8> = Vec::new();
    let mut i: usize = 0;
    proof {
        assert(bytes@.skip(0) =~= bytes@);
        assert(out@ + spec_urlencode(bytes@) =~= spec_urlencode(bytes@));
    }
    while i < n
        invariant
            i <= n == bytes@.len(),
            bytes@ == s.spec_bytes(),
            out@ + spec_urlencode(bytes@.skip(i as int)) == spec_urlencode(bytes@),
        decreases n - i,
    {
        let ghost out0 = out@;
        proof {
            assert(bytes@.skip(i as int).first() == bytes@[i as int]);
            assert(bytes@.skip(i as int).drop_first() =~= bytes@.skip(i + 1));
        }
        let b = bytes[i];
        if (48 <= b && b <= 57) || (65 <= b && b <= 90) || (97 <= b && b <= 122) || b == 45
            || b == 95 || b == 46 || b == 126 {
            out.push(b);
            proof {
                assert(out@ =~= out0 + seq![b]);
                assert(out@ + spec_urlencode(bytes@.skip(i + 1)) =~= out0 + spec_urlencode(
                    bytes@.skip(i as int),
                ));
            }
        } else {
            out.push(37);
            out.push(if b / 16 < 10 {
                48 + b / 16
            } else {
                55 + b / 16
            });
            out.push(if b % 16 < 10 {
                48 + b % 16
            } else {
                55 + b % 16
            });
            proof {
                assert(out@ =~= out0 + seq![37u8, hex_digit(b / 16), hex_digit(b % 16)]);
                assert(out@ + spec_urlencode(bytes@.skip(i + 1)) =~= out0 + spec_urlencode(
                    bytes@.skip(i as int),
                ));
            }
        }
        i = i + 1;
    }
    proof {
        assert(bytes@.skip(n as int) =~= Seq::<u8>::empty());
        assert(out@ + spec_urlencode(bytes@.skip(n as int)) =~= out@);
    }
    out
}

/// What the logging stage records of a request: copies of the line it
/// would print, never the request itself.
#[derive(Clone, Debug)]
pub struct LogRecord {
    pub method: String,
    pub url: String,
    pub header_count: usize,
    pub body_len: usize,
}

/// Middleware that records the outbound request for diagnostics. It
/// never alters the request, and producing the record cannot fail.
pub struct LoggingMiddleware;

impl LoggingMiddleware {
    pub fn handle(&self, req: Request) -> (r: (Request, LogRecord))
        ensures
            r.0 == req,
            r.1.method@ == req.method@,
            r.1.url@ == req.url@,
            r.1.header_count == req.headers@.len(),
            r.1.body_len == req.body@.len(),
    {
        let record = LogRecord {
            method: req.method.clone(),
            url: req.url.clone(),
            header_count: req.headers.len(),
            body_len: req.body.len(),
        };
        (req, record)
    }
}

/// Middleware that compresses sizable request bodies: a body below the
/// threshold passes through untouched; one at or above it is replaced
/// by its compressed form and a `Content-Encoding: zstd` header is
/// appended.
pub struct ZstdRequestCompressionMiddleware;

impl ZstdRequestCompressionMiddleware {
    pub fn handle(&self, req: Request) -> (r: Request)
        ensures
            req.body@.len() < ZSTD_MIN_BODY_SIZE ==> r == req,
            req.body@.len() >= ZSTD_MIN_BODY_SIZE ==> {
                &&& r.method == req.method
                &&& r.url == req.url
                &&& r.body@ == zstd_of(req.body@)
                &&& r.headers@.len() == req.headers@.len() + 1
                &&& r.headers@.take(req.headers@.len() as int) == req.headers@
                &&& r.headers@.last().0@ == "Content-Encoding"@
                &&& r.headers@.last().1@ == "zstd"@
            },
    {
        if req.body.len() < ZSTD_MIN_BODY_SIZE {
            req
        } else {
            let compressed = zstd_compress(&req.body);
            let mut headers = req.headers;
            let ghost headers0 = headers@;
            headers.push(("Content-Encoding".to_owned(), "zstd".to_owned()));
            proof {
                assert(headers@.take(headers0.len() as int) =~= headers0);
            }
            Request { method: req.method, url: req.url, headers, body: compressed }
        }
    }
}

/// The transport pipeline in its fixed order: header deduplication,
/// then logging, then compression. The retry layer (`retry`) wraps the
/// call that the caller makes with the request prepared here, so a
/// retried attempt reuses the same prepared request.
pub fn prepare_request(req: Request) -> (r: (Request, LogRecord))
    ensures
        r.0.method@ == req.method@,
        r.0.url@ == req.url@,
        req.body@.len() < ZSTD_MIN_BODY_SIZE ==> {
            &&& header_views(r.0.headers@) == spec_dedup_headers(header_views(req.headers@))
            &&& r.0.body@ == req.body@
        },
        req.body@.len() >= ZSTD_MIN_BODY_SIZE ==> {
            &&& r.0.body@ == zstd_of(req.body@)
            &&& header_views(r.0.headers@) == spec_dedup_headers(
                header_views(req.headers@),
            ).push(("Content-Encoding"@, "zstd"@))
        },
        r.1.body_len == req.body@.len(),
{
    let deduplicator = HeaderDeduplicatorMiddleware;
    let logger = LoggingMiddleware;
    let compressor = ZstdRequestCompressionMiddleware;
    let deduped = deduplicator.handle(req);
    let (logged, record) = logger.handle(deduped);
    let ghost mid = logged;
    let prepared = compressor.handle(logged);
    proof {
        if mid.body@.len() >= ZSTD_MIN_BODY_SIZE {
            assert(header_views(prepared.headers@) =~= header_views(mid.headers@).push(
                ("Content-Encoding"@, "zstd"@),
            ));
        }
    }
    (prepared, record)
}

} // verus!
