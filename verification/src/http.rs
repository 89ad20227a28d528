use vstd::prelude::*;
use vstd::utf8::{encode_scalar, encode_utf8};

use crate::text::{decimal, push_decimal, to_chars};

verus! {

/// What the exporter answers to an HTTP request.
#[derive(Debug, Clone, Copy, PartialEq, Eq, Structural)]
pub enum Route {
    /// A scrape: `GET /metrics`.
    Metrics,
    /// Anything else.
    NotFound,
}

/// The bytes that a scrape request begins with.
pub open spec fn scrape_prefix() -> Seq<u8> {
    encode_utf8("GET /metrics"@)
}

/// `s` begins with `p`.
pub open spec fn has_byte_prefix(s: Seq<u8>, p: Seq<u8>) -> bool {
    p.len() <= s.len() && s.take(p.len() as int) == p
}

/// Chooses the answer to a request from the bytes received: a scrape when
/// they begin with `GET /metrics`, else "not found".
pub fn route_request(request: &[u8]) -> (res: Route)
    ensures
        res == (if has_byte_prefix(request@, scrape_prefix()) {
            Route::Metrics
        } else {
            Route::NotFound
        }),
{
    let prefix: &[u8] = "GET /metrics".as_bytes();
    if prefix.len() > request.len() {
        return Route::NotFound;
    }
    let mut i: usize = 0;
    while i < prefix.len()
        invariant
            prefix@ == scrape_prefix(),
            prefix.len() <= request.len(),
            i <= prefix.len(),
            forall|j: int| 0 <= j < i ==> request@[j] == prefix@[j],
        decreases prefix.len() - i,
    {
        if request[i] != prefix[i] {
            assert(request@.take(prefix@.len() as int)[i as int] != prefix@[i as int]);
            return Route::NotFound;
        }
        i = i + 1;
    }
    assert(request@.take(prefix@.len() as int) =~= prefix@);
    Route::Metrics
}

/// The number of bytes of `s` in UTF-8.
pub open spec fn byte_len(s: Seq<char>) -> nat {
    encode_utf8(s).len()
}

/// The head of a successful scrape answer, up to and including the blank
/// line, for a body of `len` bytes.
pub open spec fn metrics_head(len: nat) -> Seq<char> {
    "HTTP/1.1 200 OK\r\nContent-Type: text/plain; version=0.0.4; charset=utf-8\r\nContent-Length: "@
        + decimal(len) + "\r\nConnection: close\r\n\r\n"@
}

proof fn lemma_encode_push(a: Seq<char>, c: char)
    ensures
        encode_utf8(a.push(c)).len() == encode_utf8(a).len() + encode_scalar(c as u32).len(),
    decreases a.len(),
{
    if a.len() == 0 {
        assert(a.push(c).drop_first() =~= Seq::<char>::empty());
        assert(a.push(c)[0] == c);
        assert(encode_utf8(a) =~= Seq::<u8>::empty());
        assert(encode_utf8(Seq::<char>::empty()) =~= Seq::<u8>::empty());
    } else {
        assert(a.push(c).drop_first() =~= a.drop_first().push(c));
        assert(a.push(c)[0] == a[0]);
        lemma_encode_push(a.drop_first(), c);
    }
}

/// The number of bytes of `c` in UTF-8.
fn char_byte_count(c: char) -> (n: u128)
    ensures
        n == encode_scalar(c as u32).len(),
        n <= 4,
{
    let u = c as u32;
    if u <= 0x7f {
        1
    } else if u <= 0x7ff {
        2
    } else if u <= 0xffff && !(0xd800 <= u && u <= 0xdfff) {
        3
    } else {
        4
    }
}

/// The number of bytes of `s` in UTF-8.
pub fn utf8_byte_count(s: &str) -> (n: u128)
    ensures
        n == byte_len(s@),
{
    let cs = to_chars(s);
    let mut total: u128 = 0;
    let mut i: usize = 0;
    assert(cs@.take(0) =~= Seq::<char>::empty());
    while i < cs.len()
        invariant
            i <= cs.len(),
            total == encode_utf8(cs@.take(i as int)).len(),
            total <= 4 * i,
        decreases cs.len() - i,
    {
        let w = char_byte_count(cs[i]);
        proof {
            lemma_encode_push(cs@.take(i as int), cs@[i as int]);
            assert(cs@.take(i as int).push(cs@[i as int]) =~= cs@.take(i + 1));
        }
        total = total + w;
        i = i + 1;
    }
    assert(cs@.take(cs.len() as int) =~= cs@);
    total
}

/// The answer to a scrape: status 200, the Prometheus text content type,
/// the body's length in bytes, then the body.
pub fn metrics_response(body: &str) -> (res: String)
    ensures
        res@ == metrics_head(byte_len(body@)) + body@,
{
    let mut res = String::new();
    res.append("HTTP/1.1 200 OK\r\nContent-Type: text/plain; version=0.0.4; charset=utf-8\r\nContent-Length: ");
    let n = utf8_byte_count(body);
    push_decimal(&mut res, n);
    res.append("\r\nConnection: close\r\n\r\n");
    res.append(body);
    assert(res@ =~= metrics_head(byte_len(body@)) + body@);
    res
}

/// The answer to any request other than a scrape.
pub open spec fn not_found_text() -> Seq<char> {
    "HTTP/1.1 404 Not Found\r\nContent-Length: 9\r\nConnection: close\r\n\r\nNot Found"@
}

/// The answer to any request other than a scrape.
pub fn not_found_response() -> (res: String)
    ensures
        res@ == not_found_text(),
{
    "HTTP/1.1 404 Not Found\r\nContent-Length: 9\r\nConnection: close\r\n\r\nNot Found".to_owned()
}

/// The scrape body sent when the UPS could not be queried.
pub fn scrape_error_body(message: &str) -> (res: String)
    ensures
        res@ == "# ERROR querying UPS: "@ + message@ + "\n"@,
{
    let mut res = String::new();
    res.append("# ERROR querying UPS: ");
    res.append(message);
    res.append("\n");
    res
}

/// The "not found" answer announces the exact length of its body.
pub proof fn law_not_found_length()
    ensures
        not_found_text() == "HTTP/1.1 404 Not Found\r\nContent-Length: "@ + decimal(byte_len("Not Found"@))
            + "\r\nConnection: close\r\n\r\n"@ + "Not Found"@,
{
    reveal_strlit("HTTP/1.1 404 Not Found\r\nContent-Length: 9\r\nConnection: close\r\n\r\nNot Found");
    reveal_strlit("HTTP/1.1 404 Not Found\r\nContent-Length: ");
    reveal_strlit("\r\nConnection: close\r\n\r\n");
    reveal_strlit("Not Found");
    vstd::utf8::is_ascii_chars_encode_utf8("Not Found"@);
    assert(byte_len("Not Found"@) == 9);
    assert(decimal(9) =~= seq!['9']);
    assert(not_found_text() =~= "HTTP/1.1 404 Not Found\r\nContent-Length: "@ + decimal(byte_len("Not Found"@))
        + "\r\nConnection: close\r\n\r\n"@ + "Not Found"@);
}

/// A scrape answer announces the full byte length of its body, written in
/// decimal, and the body follows the blank line unchanged.
pub proof fn law_scrape_announces_length(body: Seq<char>)
    ensures
        metrics_head(byte_len(body)) + body == "HTTP/1.1 200 OK\r\nContent-Type: text/plain; version=0.0.4; charset=utf-8\r\nContent-Length: "@
            + decimal(encode_utf8(body).len()) + "\r\nConnection: close\r\n\r\n"@ + body,
        crate::cli::parse_unsigned_spec(decimal(encode_utf8(body).len()), encode_utf8(body).len())
            == Some(encode_utf8(body).len()),
{
    crate::cli::law_decimal_reads_back(encode_utf8(body).len(), encode_utf8(body).len());
}

} // verus!
