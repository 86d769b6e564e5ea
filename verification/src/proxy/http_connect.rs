//! HTTP CONNECT negotiation with optional basic authentication.

use crate::error::{io_err, ErrorView, IoKind, ObfsError};
use crate::proxy::ProxyAuth;
use crate::text::{self, chars_of, parse_u16, push_decimal};
use vstd::prelude::*;
use vstd::slice::slice_subrange;
use vstd::string::*;
use vstd::utf8::{decode_utf8, encode_utf8, valid_utf8};

verus! {

/// The longest response header that is accepted, in bytes.
pub const MAX_RESPONSE: usize = 8192;

/// The character of the base64 digit `d`.
pub open spec fn b64_char(d: int) -> char {
    if d < 26 {
        (65 + d) as char
    } else if d < 52 {
        (71 + d) as char
    } else if d < 62 {
        (d - 4) as char
    } else if d == 62 {
        '+'
    } else {
        '/'
    }
}

/// The base64 digit that a character stands for.
pub open spec fn b64_digit(c: char) -> int {
    if 'A' <= c <= 'Z' {
        c as int - 65
    } else if 'a' <= c <= 'z' {
        c as int - 71
    } else if '0' <= c <= '9' {
        c as int + 4
    } else if c == '+' {
        62
    } else {
        63
    }
}

/// The four characters of three bytes.
pub open spec fn b64_group(b0: u8, b1: u8, b2: u8) -> Seq<char> {
    let n = b0 * 65536 + b1 * 256 + b2;
    seq![
        b64_char(n / 262144),
        b64_char((n / 4096) % 64),
        b64_char((n / 64) % 64),
        b64_char(n % 64),
    ]
}

/// The base64 text of `bytes`, in groups of three bytes; an incomplete last
/// group is padded.
pub open spec fn b64_text(bytes: Seq<u8>) -> Seq<char>
    decreases bytes.len(),
{
    if bytes.len() == 0 {
        Seq::empty()
    } else if bytes.len() == 1 {
        b64_group(bytes[0], 0, 0).take(2) + seq!['=', '=']
    } else if bytes.len() == 2 {
        b64_group(bytes[0], bytes[1], 0).take(3) + seq!['=']
    } else {
        b64_group(bytes[0], bytes[1], bytes[2]) + b64_text(bytes.skip(3))
    }
}

/// The bytes that a base64 text stands for.
pub open spec fn b64_bytes(s: Seq<char>) -> Seq<u8>
    decreases s.len(),
{
    if s.len() < 4 {
        Seq::empty()
    } else {
        let n = b64_digit(s[0]) * 262144 + b64_digit(s[1]) * 4096;
        if s[2] == '=' {
            seq![(n / 65536) as u8]
        } else if s[3] == '=' {
            let m = n + b64_digit(s[2]) * 64;
            seq![(m / 65536) as u8, ((m / 256) % 256) as u8]
        } else {
            let m = n + b64_digit(s[2]) * 64 + b64_digit(s[3]);
            seq![(m / 65536) as u8, ((m / 256) % 256) as u8, (m % 256) as u8] + b64_bytes(s.skip(4))
        }
    }
}

/// Appends the base64 digit `d`.
fn push_b64(out: &mut String, d: usize)
    requires
        d < 64,
    ensures
        final(out)@ == old(out)@.push(b64_char(d as int)),
{
    proof {
        reveal_strlit("ABCDEFGHIJKLMNOPQRSTUVWXYZabcdefghijklmnopqrstuvwxyz0123456789+/");
    }
    let digit: &str =
        "ABCDEFGHIJKLMNOPQRSTUVWXYZabcdefghijklmnopqrstuvwxyz0123456789+/".substring_ascii(d, d + 1);
    assert(digit@ =~= seq![b64_char(d as int)]);
    out.append(digit);
    assert(out@ =~= old(out)@.push(b64_char(d as int)));
}

/// The base64 text of `input`.
pub fn base64_encode(input: &[u8]) -> (out: String)
    ensures
        out@ == b64_text(input@),
{
    let mut out: String = String::new();
    let mut i: usize = 0;
    assert(input@.skip(0) =~= input@);
    assert(out@ + b64_text(input@) =~= b64_text(input@));
    while i < input.len()
        invariant
            i <= input.len(),
            out@ + b64_text(input@.skip(i as int)) == b64_text(input@),
        decreases input.len() - i,
    {
        let ghost before = out@;
        let ghost left = input@.skip(i as int);
        let rest: usize = input.len() - i;
        let b0: usize = input[i] as usize;
        let b1: usize = if rest > 1 {
            input[i + 1] as usize
        } else {
            0
        };
        let b2: usize = if rest > 2 {
            input[i + 2] as usize
        } else {
            0
        };
        let n: usize = b0 * 65536 + b1 * 256 + b2;
        push_b64(&mut out, n / 262144);
        push_b64(&mut out, (n / 4096) % 64);
        if rest > 1 {
            push_b64(&mut out, (n / 64) % 64);
        } else {
            out.append("=");
        }
        if rest > 2 {
            push_b64(&mut out, n % 64);
        } else {
            out.append("=");
        }
        proof {
            reveal_strlit("=");
            assert(left[0] == input@[i as int]);
            if rest == 1 {
                assert(out@ =~= before + b64_text(left));
                assert(input@.skip(i + 1) =~= Seq::<u8>::empty());
            } else if rest == 2 {
                assert(left[1] == input@[i + 1]);
                assert(out@ =~= before + b64_text(left));
                assert(input@.skip(i + 2) =~= Seq::<u8>::empty());
            } else {
                assert(left[1] == input@[i + 1]);
                assert(left[2] == input@[i + 2]);
                assert(left.skip(3) =~= input@.skip(i + 3));
                assert(out@ =~= before + b64_group(left[0], left[1], left[2]));
                assert(out@ + b64_text(left.skip(3)) =~= before + b64_text(left));
            }
        }
        i = if rest > 3 {
            i + 3
        } else {
            input.len()
        };
        proof {
            assert(i == input.len() ==> input@.skip(i as int) =~= Seq::<u8>::empty());
            assert(out@ + b64_text(input@.skip(i as int)) =~= b64_text(input@));
        }
    }
    assert(input@.skip(i as int) =~= Seq::<u8>::empty());
    assert(out@ =~= b64_text(input@));
    out
}

/// The digits of three bytes, and how the bytes are found again in them.
proof fn lemma_b64_digits(b0: u8, b1: u8, b2: u8)
    ensures
        ({
            let g = b64_group(b0, b1, b2);
            let n = b0 * 65536 + b1 * 256 + b2;
            let high = b64_digit(g[0]) * 262144 + b64_digit(g[1]) * 4096;
            &&& high + b64_digit(g[2]) * 64 + b64_digit(g[3]) == n
            &&& b1 == 0 && b2 == 0 ==> high == n
            &&& b2 == 0 ==> high + b64_digit(g[2]) * 64 == n
            &&& g[2] != '='
            &&& g[3] != '='
        }),
{
    let n = b0 * 65536 + b1 * 256 + b2;
    let g = b64_group(b0, b1, b2);
    lemma_sextets(n);
    lemma_b64_digit(n / 262144);
    lemma_b64_digit((n / 4096) % 64);
    lemma_b64_digit((n / 64) % 64);
    lemma_b64_digit(n % 64);
    assert(b2 == 0 ==> n % 64 == 0);
    assert(b1 == 0 && b2 == 0 ==> (n / 64) % 64 == 0);
}

proof fn lemma_sextets(n: int)
    requires
        0 <= n < 16777216,
    ensures
        0 <= n / 262144 < 64,
        (n / 262144) * 262144 + ((n / 4096) % 64) * 4096 + ((n / 64) % 64) * 64 + n % 64 == n,
{
    let q1 = n / 64;
    let q2 = q1 / 64;
    let q3 = q2 / 64;
    assert(n == 64 * q1 + n % 64);
    assert(q1 == 64 * q2 + q1 % 64);
    assert(q2 == 64 * q3 + q2 % 64);
    assert(n / 4096 == q2);
    assert(n / 262144 == q3);
}

proof fn lemma_b64_digit(d: int)
    requires
        0 <= d < 64,
    ensures
        b64_digit(b64_char(d)) == d,
        b64_char(d) != '=',
{
}

/// Three bytes are the base-256 digits of the number they make up.
proof fn lemma_three_bytes(b0: u8, b1: u8, b2: u8)
    ensures
        ({
            let n = b0 * 65536 + b1 * 256 + b2;
            n / 65536 == b0 && (n / 256) % 256 == b1 && n % 256 == b2
        }),
{
}

/// Base64 text is read back as the bytes it was written from.
pub proof fn law_base64_roundtrip(bytes: Seq<u8>)
    ensures
        b64_bytes(b64_text(bytes)) == bytes,
    decreases bytes.len(),
{
    let s = b64_text(bytes);
    if bytes.len() == 0 {
        assert(b64_bytes(s) =~= bytes);
    } else if bytes.len() == 1 {
        let g = b64_group(bytes[0], 0, 0);
        lemma_b64_digits(bytes[0], 0, 0);
        lemma_three_bytes(bytes[0], 0, 0);
        assert(s[0] == g[0] && s[1] == g[1] && s[2] == '=');
        assert(b64_bytes(s) =~= bytes);
    } else if bytes.len() == 2 {
        let g = b64_group(bytes[0], bytes[1], 0);
        lemma_b64_digits(bytes[0], bytes[1], 0);
        lemma_three_bytes(bytes[0], bytes[1], 0);
        assert(s[0] == g[0] && s[1] == g[1] && s[2] == g[2] && s[3] == '=');
        assert(b64_bytes(s) =~= bytes);
    } else {
        let g = b64_group(bytes[0], bytes[1], bytes[2]);
        law_base64_roundtrip(bytes.skip(3));
        lemma_b64_digits(bytes[0], bytes[1], bytes[2]);
        lemma_three_bytes(bytes[0], bytes[1], bytes[2]);
        assert(s[0] == g[0] && s[1] == g[1] && s[2] == g[2] && s[3] == g[3]);
        assert(s.skip(4) =~= b64_text(bytes.skip(3)));
        assert(b64_bytes(s) =~= bytes);
    }
}

/// The line end of HTTP.
pub open spec fn crlf() -> Seq<char> {
    seq!['\r', '\n']
}

/// Host and port as they stand in a request.
pub open spec fn authority(host: Seq<char>, port: u16) -> Seq<char> {
    host + seq![':'] + text::decimal(port as nat)
}

/// The header that carries the credentials.
pub open spec fn auth_header(auth: Option<(Seq<char>, Seq<char>)>) -> Seq<char> {
    match auth {
        Some((user, pass)) => "Proxy-Authorization: Basic "@ + b64_text(
            encode_utf8(user + seq![':'] + pass),
        ) + crlf(),
        None => Seq::empty(),
    }
}

/// The CONNECT request.
pub open spec fn request_text(
    host: Seq<char>,
    port: u16,
    auth: Option<(Seq<char>, Seq<char>)>,
) -> Seq<char> {
    "CONNECT "@ + authority(host, port) + " HTTP/1.1"@ + crlf() + "Host: "@ + authority(host, port)
        + crlf() + auth_header(auth) + crlf()
}

/// Username and password of optional credentials.
pub open spec fn auth_text(auth: Option<&ProxyAuth>) -> Option<(Seq<char>, Seq<char>)> {
    match auth {
        Some(a) => Some((a.user@, a.pass@)),
        None => None,
    }
}

fn push_authority(out: &mut String, host: &str, port: u16)
    ensures
        final(out)@ == old(out)@ + authority(host@, port),
{
    proof {
        reveal_strlit(":");
    }
    out.append(host);
    out.append(":");
    push_decimal(out, port as u64);
    assert(out@ =~= old(out)@ + authority(host@, port));
}

fn push_crlf(out: &mut String)
    ensures
        final(out)@ == old(out)@ + crlf(),
{
    proof {
        reveal_strlit("\r\n");
    }
    out.append("\r\n");
    assert(out@ =~= old(out)@ + crlf());
}

/// The CONNECT request for `host` and `port`, with the credentials if there
/// are any.
pub fn connect_request(host: &str, port: u16, auth: Option<&ProxyAuth>) -> (request: String)
    ensures
        request@ == request_text(host@, port, auth_text(auth)),
{
    let mut out: String = "CONNECT ".to_owned();
    push_authority(&mut out, host, port);
    out.append(" HTTP/1.1");
    push_crlf(&mut out);
    out.append("Host: ");
    push_authority(&mut out, host, port);
    push_crlf(&mut out);
    if let Some(a) = auth {
        proof {
            reveal_strlit(":");
        }
        let ghost before = out@;
        let mut pair: String = a.user.clone();
        pair.append(":");
        pair.append(a.pass.as_str());
        assert(pair@ =~= a.user@ + seq![':'] + a.pass@);
        out.append("Proxy-Authorization: Basic ");
        let encoded: String = base64_encode(pair.as_str().as_bytes());
        out.append(encoded.as_str());
        push_crlf(&mut out);
        assert(out@ =~= before + auth_header(auth_text(auth)));
    } else {
        assert(out@ + auth_header(auth_text(auth)) =~= out@);
    }
    push_crlf(&mut out);
    out
}

/// `std::str::from_utf8`: the text that `bytes` spell, or `None` if they are
/// not valid UTF-8.
#[verifier::external_body]
fn utf8_text(bytes: &[u8]) -> (s: Option<&str>)
    ensures
        match s {
            Some(t) => valid_utf8(bytes@) && encode_utf8(t@) == bytes@,
            None => !valid_utf8(bytes@),
        },
{
    std::str::from_utf8(bytes).ok()
}

/// The first line of `s`, without its line end.
pub open spec fn first_line(s: Seq<char>) -> Seq<char> {
    match s.index_of_first('\n') {
        Some(i) => if i > 0 && s[i - 1] == '\r' {
            s.take(i - 1)
        } else {
            s.take(i)
        },
        None => s,
    }
}

/// The second of the words that spaces separate on `line`, if there are two.
pub open spec fn second_word(line: Seq<char>) -> Option<Seq<char>> {
    match line.index_of_first(' ') {
        None => None,
        Some(i) => {
            let tail = line.skip(i + 1);
            match tail.index_of_first(' ') {
                Some(j) => Some(tail.take(j)),
                None => Some(tail),
            }
        },
    }
}

/// An error of the proxy.
pub open spec fn http_error(text: Seq<char>) -> ErrorView {
    ErrorView::Io(IoKind::Other, text)
}

/// Whether the response `s` opens the tunnel, and why not otherwise.
pub open spec fn text_outcome(s: Seq<char>) -> Result<(), ErrorView> {
    if s.len() == 0 {
        Err(http_error("HTTP CONNECT: empty response"@))
    } else {
        match second_word(first_line(s)) {
            None => Err(http_error("HTTP CONNECT: malformed status line"@)),
            Some(word) => match text::u16_numeral(word) {
                None => Err(http_error("HTTP CONNECT: non-numeric status code"@)),
                Some(code) => if code == 200 {
                    Ok(())
                } else {
                    Err(
                        http_error(
                            "HTTP CONNECT: proxy returned status "@ + text::decimal(code as nat),
                        ),
                    )
                },
            },
        }
    }
}

/// Whether the response `bytes` opens the tunnel, and why not otherwise.
pub open spec fn response_outcome(bytes: Seq<u8>) -> Result<(), ErrorView> {
    if !valid_utf8(bytes) {
        Err(http_error("HTTP CONNECT: non-UTF8 response"@))
    } else {
        text_outcome(decode_utf8(bytes))
    }
}

/// The position of the first `c` in `s`, or its length.
fn find_char(s: &[char], c: char) -> (i: usize)
    ensures
        match s@.index_of_first(c) {
            Some(k) => i == k && i < s@.len(),
            None => i == s@.len(),
        },
{
    proof {
        s@.index_of_first_ensures(c);
    }
    let mut i: usize = 0;
    while i < s.len()
        invariant
            i <= s@.len(),
            forall|k: int| 0 <= k < i ==> s@[k] != c,
            match s@.index_of_first(c) {
                Some(k) => 0 <= k < s@.len() && s@[k] == c && (forall|j: int|
                    0 <= j < k ==> s@[j] != c),
                None => !s@.contains(c),
            },
        decreases s.len() - i,
    {
        if s[i] == c {
            assert(s@.contains(c));
            return i;
        }
        i += 1;
    }
    i
}

/// Decides on the text of a response.
pub fn parse_status(response: &str) -> (r: Result<(), ObfsError>)
    ensures
        match r {
            Ok(()) => text_outcome(response@) is Ok,
            Err(e) => text_outcome(response@) == Err::<(), _>(e@),
        },
{
    let chars: Vec<char> = chars_of(response);
    if chars.len() == 0 {
        return Err(io_err("HTTP CONNECT: empty response"));
    }
    let newline: usize = find_char(chars.as_slice(), '\n');
    let end: usize = if newline < chars.len() && newline > 0 && chars[newline - 1] == '\r' {
        newline - 1
    } else {
        newline
    };
    let line: &[char] = slice_subrange(chars.as_slice(), 0, end);
    assert(line@ =~= first_line(response@));
    let space: usize = find_char(line, ' ');
    if space >= line.len() {
        return Err(io_err("HTTP CONNECT: malformed status line"));
    }
    let tail: &[char] = slice_subrange(line, space + 1, line.len());
    assert(tail@ =~= line@.skip(space + 1));
    let word: &[char] = slice_subrange(tail, 0, find_char(tail, ' '));
    assert(second_word(line@) == Some(word@)) by {
        assert(tail@.take(tail@.len() as int) =~= tail@);
        assert(word@ =~= tail@.take(word@.len() as int));
    }
    match parse_u16(word) {
        None => Err(io_err("HTTP CONNECT: non-numeric status code")),
        Some(code) => {
            if code != 200 {
                let mut text: String = "HTTP CONNECT: proxy returned status ".to_owned();
                push_decimal(&mut text, code as u64);
                return Err(io_err(text.as_str()));
            }
            Ok(())
        },
    }
}

/// Decides on a response.
pub fn parse_response(bytes: &[u8]) -> (r: Result<(), ObfsError>)
    ensures
        match r {
            Ok(()) => response_outcome(bytes@) is Ok,
            Err(e) => response_outcome(bytes@) == Err::<(), _>(e@),
        },
{
    match utf8_text(bytes) {
        None => Err(io_err("HTTP CONNECT: non-UTF8 response")),
        Some(response) => {
            proof {
                vstd::utf8::encode_utf8_decode_utf8(response@);
            }
            parse_status(response)
        },
    }
}

/// A negotiation in progress: the part of the response that has come.
pub struct HttpConnect {
    response: Vec<u8>,
}

impl View for HttpConnect {
    type V = Seq<u8>;

    closed spec fn view(&self) -> Seq<u8> {
        self.response@
    }
}

/// What to do after a byte of the response.
pub enum HttpStep {
    /// Read one more byte.
    More,
    /// The tunnel is open, and the stream is right behind the response.
    Done,
    /// Give up.
    Fail(ObfsError),
}

/// An [`HttpStep`] with its contents as sequences.
#[verifier::ext_equal]
pub enum HttpView {
    More,
    Done,
    Fail(ErrorView),
}

impl View for HttpStep {
    type V = HttpView;

    open spec fn view(&self) -> HttpView {
        match *self {
            HttpStep::More => HttpView::More,
            HttpStep::Done => HttpView::Done,
            HttpStep::Fail(e) => HttpView::Fail(e@),
        }
    }
}

/// Whether `bytes` end with the empty line that ends a header.
pub open spec fn ends_header(bytes: Seq<u8>) -> bool {
    let n = bytes.len();
    n >= 4 && bytes[n - 4] == 13 && bytes[n - 3] == 10 && bytes[n - 2] == 13 && bytes[n - 1] == 10
}

/// What the response `bytes`, as far as it has come, leads to.
pub open spec fn http_step(bytes: Seq<u8>) -> HttpView {
    if bytes.len() > MAX_RESPONSE {
        HttpView::Fail(http_error("HTTP CONNECT: response header too large"@))
    } else if !ends_header(bytes) {
        HttpView::More
    } else {
        match response_outcome(bytes) {
            Ok(()) => HttpView::Done,
            Err(e) => HttpView::Fail(e),
        }
    }
}

/// Starts a negotiation for a tunnel to `target_host` and `target_port`:
/// returns the request to write. The response is then read byte by byte.
pub fn tunnel_http_connect(target_host: &str, target_port: u16, auth: Option<&ProxyAuth>) -> (r: (
    HttpConnect,
    String,
))
    ensures
        r.0@ == Seq::<u8>::empty(),
        r.1@ == request_text(target_host@, target_port, auth_text(auth)),
{
    (HttpConnect { response: Vec::new() }, connect_request(target_host, target_port, auth))
}

impl HttpConnect {
    /// Takes the next byte of the response.
    pub fn step(&mut self, byte: u8) -> (step: HttpStep)
        ensures
            final(self)@ == old(self)@.push(byte),
            step@ == http_step(final(self)@),
    {
        self.response.push(byte);
        let n: usize = self.response.len();
        if n > MAX_RESPONSE {
            return HttpStep::Fail(io_err("HTTP CONNECT: response header too large"));
        }
        if n < 4 || self.response[n - 4] != 13 || self.response[n - 3] != 10 || self.response[n - 2]
            != 13 || self.response[n - 1] != 10 {
            return HttpStep::More;
        }
        match parse_response(self.response.as_slice()) {
            Ok(()) => HttpStep::Done,
            Err(e) => HttpStep::Fail(e),
        }
    }
}

/// A negotiation that has read `seen` and goes on with `input`: its last
/// step, and how many bytes of the input it has read. With too little input it
/// ends before its time.
pub open spec fn http_run(seen: Seq<u8>, input: Seq<u8>) -> (Option<HttpView>, nat)
    decreases input.len(),
{
    if input.len() == 0 {
        (None, 0)
    } else {
        let now = seen.push(input[0]);
        match http_step(now) {
            HttpView::More => {
                let (last, more) = http_run(now, input.skip(1));
                (last, 1 + more)
            },
            step => (Some(step), 1),
        }
    }
}

/// The stream ends up right behind the response header: exactly the header is
/// read, up to the first empty line, and nothing of what the target sends.
pub proof fn law_reads_exactly_the_header(seen: Seq<u8>, head: Seq<u8>, rest: Seq<u8>)
    requires
        head.len() > 0,
        (seen + head).len() <= MAX_RESPONSE,
        ends_header(seen + head),
        forall|k: int| 0 < k < head.len() ==> !ends_header(#[trigger] (seen + head.take(k))),
    ensures
        http_run(seen, head + rest) == (
            Some(
                match response_outcome(seen + head) {
                    Ok(()) => HttpView::Done,
                    Err(e) => HttpView::Fail(e),
                },
            ),
            head.len(),
        ),
    decreases head.len(),
{
    let input = head + rest;
    let now = seen.push(input[0]);
    assert(input[0] == head[0]);
    if head.len() == 1 {
        assert(now =~= seen + head);
    } else {
        assert(now =~= seen + head.take(1));
        assert(!ends_header(now));
        let tail = head.skip(1);
        assert(now + tail =~= seen + head);
        assert forall|k: int| 0 < k < tail.len() implies !ends_header(#[trigger] (now + tail.take(k))) by {
            assert(now + tail.take(k) =~= seen + head.take(k + 1));
        }
        assert(input.skip(1) =~= tail + rest);
        law_reads_exactly_the_header(now, tail, rest);
    }
}

/// The status code of a response decides: 200 opens the tunnel, any other
/// code is reported.
pub proof fn law_status_code_decides(
    version: Seq<char>,
    code: u16,
    reason: Seq<char>,
    rest: Seq<char>,
)
    requires
        !version.contains(' '),
        !version.contains('\n'),
        !reason.contains('\n'),
    ensures
        ({
            let response = version + seq![' '] + text::decimal(code as nat) + seq![' '] + reason
                + crlf() + rest;
            text_outcome(response) == if code == 200 {
                Ok::<(), ErrorView>(())
            } else {
                Err(
                    http_error(
                        "HTTP CONNECT: proxy returned status "@ + text::decimal(code as nat),
                    ),
                )
            }
        }),
{
    let digits = text::decimal(code as nat);
    let line = version + seq![' '] + digits + seq![' '] + reason;
    let response = line + crlf() + rest;
    assert(response =~= version + seq![' '] + digits + seq![' '] + reason + crlf() + rest);
    text::law_decimal_roundtrip(code as nat);
    text::law_u16_numeral_roundtrip(code);
    let n = line.len() as int;
    assert forall|k: int| 0 <= k < n implies line[k] != '\n' by {
        let v = version.len() as int;
        let d = digits.len() as int;
        if k < v {
            assert(line[k] == version[k]);
        } else if v < k <= v + d {
            assert(line[k] == digits[k - v - 1]);
            assert(text::is_digit(digits[k - v - 1]));
        } else if k > v + d + 1 {
            assert(line[k] == reason[k - v - d - 2]);
        }
    }
    lemma_first_at(response, '\n', n + 1);
    assert(response.take(n) =~= line);
    assert(first_line(response) =~= line);
    lemma_first_at(line, ' ', version.len() as int);
    let tail = line.skip(version.len() as int + 1);
    assert(tail =~= digits + seq![' '] + reason);
    assert forall|k: int| 0 <= k < digits.len() implies tail[k] != ' ' by {
        assert(text::is_digit(digits[k]));
        assert(tail[k] == digits[k]);
    }
    lemma_first_at(tail, ' ', digits.len() as int);
    assert(tail.take(digits.len() as int) =~= digits);
    assert(second_word(line) == Some(digits));
}

proof fn lemma_first_at(s: Seq<char>, c: char, k: int)
    requires
        0 <= k < s.len(),
        s[k] == c,
        forall|j: int| 0 <= j < k ==> s[j] != c,
    ensures
        s.index_of_first(c) == Some(k),
{
    s.index_of_first_ensures(c);
    assert(s.contains(c));
}

/// The base64 digits are the 64 characters of the alphabet, in its order.
pub proof fn law_base64_alphabet(d: int)
    requires
        0 <= d < 64,
    ensures
        b64_char(d) == "ABCDEFGHIJKLMNOPQRSTUVWXYZabcdefghijklmnopqrstuvwxyz0123456789+/"@[d],
        b64_digit(b64_char(d)) == d,
{
    reveal_strlit("ABCDEFGHIJKLMNOPQRSTUVWXYZabcdefghijklmnopqrstuvwxyz0123456789+/");
}

/// Whether `s` is well-formed base64 for `n` bytes: four characters for every
/// three bytes begun, padded at the end where bytes are missing, with digits of
/// the alphabet before the padding and no stray bits in the last one.
pub open spec fn is_base64(s: Seq<char>, n: nat) -> bool {
    let pad = (3 - n % 3) % 3;
    &&& s.len() == (n + 2) / 3 * 4
    &&& forall|k: int|
        0 <= k < s.len() ==> ((#[trigger] s[k]) == '=' <==> k >= s.len() - pad) && (s[k] != '='
            ==> s[k] == b64_char(b64_digit(s[k])) && 0 <= b64_digit(s[k]) < 64)
    &&& pad == 2 ==> b64_digit(s[s.len() - 3]) % 16 == 0
    &&& pad == 1 ==> b64_digit(s[s.len() - 2]) % 4 == 0
}

proof fn lemma_group_digits(b0: u8, b1: u8, b2: u8)
    ensures
        ({
            let g = b64_group(b0, b1, b2);
            &&& g.len() == 4
            &&& are_digits(g)
            &&& b1 == 0 && b2 == 0 ==> b64_digit(g[1]) % 16 == 0
            &&& b2 == 0 ==> b64_digit(g[2]) % 4 == 0
        }),
{
    let n = b0 * 65536 + b1 * 256 + b2;
    lemma_sextets(n);
    lemma_b64_digit(n / 262144);
    lemma_b64_digit((n / 4096) % 64);
    lemma_b64_digit((n / 64) % 64);
    lemma_b64_digit(n % 64);
    lemma_no_stray_bits(b0, b1);
    let g = b64_group(b0, b1, b2);
    assert(g[0] == b64_char(n / 262144));
    assert(g[1] == b64_char((n / 4096) % 64));
    assert(g[2] == b64_char((n / 64) % 64));
    assert(g[3] == b64_char(n % 64));
}

proof fn lemma_no_stray_bits(b0: u8, b1: u8)
    ensures
        ((b0 * 65536) / 4096) % 64 % 16 == 0,
        ((b0 * 65536 + b1 * 256) / 64) % 64 % 4 == 0,
{
    let high = b0 as int * 16;
    let both = b0 as int * 1024 + b1 as int * 4;
    assert((b0 * 65536) / 4096 == high);
    assert((b0 * 65536 + b1 * 256) / 64 == both);
    assert(high == 64 * (high / 64) + high % 64);
    assert(both == 64 * (both / 64) + both % 64);
}

/// Whether the characters of `s` are digits of the alphabet.
spec fn are_digits(s: Seq<char>) -> bool {
    forall|k: int|
        0 <= k < s.len() ==> (#[trigger] s[k]) != '=' && s[k] == b64_char(b64_digit(s[k])) && 0
            <= b64_digit(s[k]) < 64
}

/// Four digits in front of well-formed base64 make it so for three bytes more.
proof fn lemma_b64_longer(g: Seq<char>, t: Seq<char>, n: nat)
    requires
        g.len() == 4,
        are_digits(g),
        is_base64(t, n),
    ensures
        is_base64(g + t, n + 3),
{
    let s = g + t;
    let pad = (3 - n % 3) % 3;
    assert((n + 3) % 3 == n % 3);
    assert((n + 3 + 2) / 3 * 4 == 4 + (n + 2) / 3 * 4);
    assert(pad > 0 ==> t.len() >= 4);
    assert forall|k: int| 0 <= k < s.len() implies ((#[trigger] s[k]) == '=' <==> k >= s.len() - pad)
        && (s[k] != '=' ==> s[k] == b64_char(b64_digit(s[k])) && 0 <= b64_digit(s[k]) < 64) by {
        if k < 4 {
            assert(s[k] == g[k]);
        } else {
            assert(s[k] == t[k - 4]);
        }
    }
    if pad > 0 {
        assert(s[s.len() - 3] == t[t.len() - 3]);
        assert(s[s.len() - 2] == t[t.len() - 2]);
    }
}

/// Three digits without stray bits and one pad are well-formed base64 of two
/// bytes.
proof fn lemma_b64_two(g: Seq<char>)
    requires
        g.len() == 4,
        are_digits(g),
        b64_digit(g[2]) % 4 == 0,
    ensures
        is_base64(g.take(3) + seq!['='], 2),
{
    let s = g.take(3) + seq!['='];
    assert(s[0] == g[0] && s[1] == g[1] && s[2] == g[2] && s[3] == '=');
}

/// Two digits without stray bits and two pads are well-formed base64 of one
/// byte.
proof fn lemma_b64_one(g: Seq<char>)
    requires
        g.len() == 4,
        are_digits(g),
        b64_digit(g[1]) % 16 == 0,
    ensures
        is_base64(g.take(2) + seq!['=', '='], 1),
{
    let s = g.take(2) + seq!['=', '='];
    assert(s[0] == g[0] && s[1] == g[1] && s[2] == '=' && s[3] == '=');
}

proof fn lemma_b64_shape(bytes: Seq<u8>)
    ensures
        is_base64(b64_text(bytes), bytes.len()),
    decreases bytes.len(),
{
    if bytes.len() == 1 {
        lemma_group_digits(bytes[0], 0, 0);
        lemma_b64_one(b64_group(bytes[0], 0, 0));
    } else if bytes.len() == 2 {
        lemma_group_digits(bytes[0], bytes[1], 0);
        lemma_b64_two(b64_group(bytes[0], bytes[1], 0));
    } else if bytes.len() >= 3 {
        let tail = bytes.skip(3);
        lemma_b64_shape(tail);
        lemma_group_digits(bytes[0], bytes[1], bytes[2]);
        lemma_b64_longer(b64_group(bytes[0], bytes[1], bytes[2]), b64_text(tail), tail.len());
    }
}

/// What is written in base64 is well formed and reads back as the bytes it was
/// written from.
pub proof fn law_base64_written(input: &[u8], out: String)
    requires
        call_ensures(base64_encode, (input,), out),
    ensures
        is_base64(out@, input@.len()),
        b64_bytes(out@) == input@,
{
    lemma_b64_shape(input@);
    law_base64_roundtrip(input@);
}

/// Whether `s` is the request for the authority `target`, with `token` as the
/// basic credentials if there are any: a request line, the host, perhaps the
/// credentials, and an empty line, each ended by a carriage return and a line
/// feed.
pub open spec fn is_request(s: Seq<char>, target: Seq<char>, token: Option<Seq<char>>) -> bool {
    let end = seq!['\r', '\n'];
    let head = "CONNECT "@ + target + " HTTP/1.1"@ + end + "Host: "@ + target + end;
    s == match token {
        Some(t) => head + "Proxy-Authorization: Basic "@ + t + end + end,
        None => head + end,
    }
}

/// Whether `token` is the base64 form of username and password, joined by a
/// colon.
pub open spec fn is_token(token: Seq<char>, user: Seq<char>, pass: Seq<char>) -> bool {
    let pair = encode_utf8(user + seq![':'] + pass);
    is_base64(token, pair.len()) && b64_bytes(token) == pair
}

/// A negotiation starts with the request for the very host and port that were
/// given. It carries credentials exactly if there are any, and a proxy reads
/// from them the username and the password that were given.
pub proof fn law_request_is_for_the_target(
    host: &str,
    port: u16,
    auth: Option<&ProxyAuth>,
    r: (HttpConnect, String),
)
    requires
        call_ensures(tunnel_http_connect, (host, port, auth), r),
    ensures
        r.0@.len() == 0,
        ({
            let target = host@ + seq![':'] + text::decimal(port as nat);
            match auth {
                Some(a) => exists|token: Seq<char>| #[trigger]
                    is_token(token, a.user@, a.pass@) && is_request(r.1@, target, Some(token)),
                None => is_request(r.1@, target, None),
            }
        }),
{
    let target = host@ + seq![':'] + text::decimal(port as nat);
    if let Some(a) = auth {
        let pair = encode_utf8(a.user@ + seq![':'] + a.pass@);
        let token = b64_text(pair);
        lemma_b64_shape(pair);
        law_base64_roundtrip(pair);
        assert(is_token(token, a.user@, a.pass@));
        assert(r.1@ =~= "CONNECT "@ + target + " HTTP/1.1"@ + crlf() + "Host: "@ + target + crlf()
            + "Proxy-Authorization: Basic "@ + token + crlf() + crlf());
        assert(is_request(r.1@, target, Some(token)));
    } else {
        assert(r.1@ =~= "CONNECT "@ + target + " HTTP/1.1"@ + crlf() + "Host: "@ + target + crlf()
            + crlf());
    }
}

/// The request by itself is the one that a negotiation starts with.
pub proof fn law_request_by_itself(
    host: &str,
    port: u16,
    auth: Option<&ProxyAuth>,
    request: String,
    r: (HttpConnect, String),
)
    requires
        call_ensures(connect_request, (host, port, auth), request),
        call_ensures(tunnel_http_connect, (host, port, auth), r),
    ensures
        request@ == r.1@,
{
}

/// Whether `line` can be followed by `end`: nothing, or a line end and whatever
/// comes behind it. A carriage return right before the line feed belongs to the
/// line end.
pub open spec fn is_line_end(line: Seq<char>, end: Seq<char>) -> bool {
    ||| end.len() == 0
    ||| end.len() >= 2 && end[0] == '\r' && end[1] == '\n'
    ||| end[0] == '\n' && (line.len() == 0 || line.last() != '\r')
}

proof fn lemma_first_line(line: Seq<char>, end: Seq<char>)
    requires
        !line.contains('\n'),
        is_line_end(line, end),
    ensures
        first_line(line + end) == line,
{
    let s = line + end;
    s.index_of_first_ensures('\n');
    assert forall|k: int| 0 <= k < line.len() implies s[k] != '\n' by {
        assert(s[k] == line[k]);
    }
    let n = line.len() as int;
    if end.len() == 0 {
        assert(s =~= line);
        if s.contains('\n') {
            let k = choose|k: int| 0 <= k < s.len() && s[k] == '\n';
            assert(line.contains('\n'));
        }
        assert(first_line(s) =~= line);
    } else if end[0] == '\n' {
        assert(s[n] == '\n');
        lemma_first_at(s, '\n', n);
        if n > 0 {
            assert(s[n - 1] == line.last());
        }
        assert(s.take(n) =~= line);
    } else {
        assert(s[n] == '\r' && s[n + 1] == '\n');
        lemma_first_at(s, '\n', n + 1);
        assert(s.take(n) =~= line);
    }
}

/// The outcome for a status word: 200 opens the tunnel, another number is
/// reported, and what is no number is an error of its own.
pub open spec fn outcome_for(word: Seq<char>, r: Result<(), ObfsError>) -> bool {
    match text::u16_numeral(word) {
        Some(code) => if code == 200 {
            r is Ok
        } else {
            is_error(r, "HTTP CONNECT: proxy returned status "@ + text::decimal(code as nat))
        },
        None => is_error(r, "HTTP CONNECT: non-numeric status code"@),
    }
}

/// Whether `r` is an error of the proxy with this text.
pub open spec fn is_error(r: Result<(), ObfsError>, text: Seq<char>) -> bool {
    r matches Err(ObfsError::Io(IoKind::Other, m)) && m@ == text
}

proof fn lemma_second_word(version: Seq<char>, word: Seq<char>, tail: Seq<char>)
    requires
        !version.contains(' '),
        !word.contains(' '),
        tail.len() == 0 || tail[0] == ' ',
    ensures
        second_word(version + seq![' '] + word + tail) == Some(word),
{
    let line = version + seq![' '] + word + tail;
    let v = version.len() as int;
    assert forall|k: int| 0 <= k < v implies line[k] != ' ' by {
        assert(line[k] == version[k]);
    }
    lemma_first_at(line, ' ', v);
    let rest = line.skip(v + 1);
    assert(rest =~= word + tail);
    rest.index_of_first_ensures(' ');
    assert forall|k: int| 0 <= k < word.len() implies rest[k] != ' ' by {
        assert(rest[k] == word[k]);
    }
    if tail.len() == 0 {
        if rest.contains(' ') {
            let k = choose|k: int| 0 <= k < rest.len() && rest[k] == ' ';
            assert(word[k] == ' ');
        }
        assert(rest =~= word);
    } else {
        assert(rest[word.len() as int] == ' ');
        lemma_first_at(rest, ' ', word.len() as int);
        assert(rest.take(word.len() as int) =~= word);
    }
}

/// The second word of the first line of a response decides, whatever the version
/// before it, the reason behind it, the headers below it, and however long they
/// all are. This is stated of the bytes that are received.
pub proof fn law_status_word_decides(
    bytes: &[u8],
    r: Result<(), ObfsError>,
    version: Seq<char>,
    word: Seq<char>,
    tail: Seq<char>,
    end: Seq<char>,
)
    requires
        call_ensures(parse_response, (bytes,), r),
        !version.contains(' '),
        !version.contains('\n'),
        !word.contains(' '),
        !word.contains('\n'),
        tail.len() == 0 || tail[0] == ' ',
        !tail.contains('\n'),
        is_line_end(version + seq![' '] + word + tail, end),
        bytes@ == encode_utf8(version + seq![' '] + word + tail + end),
    ensures
        outcome_for(word, r),
{
    lemma_status_line(version, word, tail, end);
    let s = version + seq![' '] + word + tail + end;
    vstd::utf8::encode_utf8_valid_utf8(s);
    vstd::utf8::encode_utf8_decode_utf8(s);
}

proof fn lemma_status_line(
    version: Seq<char>,
    word: Seq<char>,
    tail: Seq<char>,
    end: Seq<char>,
)
    requires
        !version.contains(' '),
        !version.contains('\n'),
        !word.contains(' '),
        !word.contains('\n'),
        tail.len() == 0 || tail[0] == ' ',
        !tail.contains('\n'),
        is_line_end(version + seq![' '] + word + tail, end),
    ensures
        ({
            let s = version + seq![' '] + word + tail + end;
            s.len() > 0 && second_word(first_line(s)) == Some(word)
        }),
{
    let line = version + seq![' '] + word + tail;
    assert(!line.contains('\n')) by {
        if line.contains('\n') {
            let k = choose|k: int| 0 <= k < line.len() && line[k] == '\n';
            let v = version.len() as int;
            let w = word.len() as int;
            if k < v {
                assert(version[k] == '\n');
            } else if v < k <= v + w {
                assert(word[k - v - 1] == '\n');
            } else if k > v + w {
                assert(tail[k - v - w - 1] == '\n');
            }
        }
    }
    lemma_first_line(line, end);
    lemma_second_word(version, word, tail);
}

/// The same of a response that is already text.
pub proof fn law_status_word_decides_on_text(
    response: &str,
    r: Result<(), ObfsError>,
    version: Seq<char>,
    word: Seq<char>,
    tail: Seq<char>,
    end: Seq<char>,
)
    requires
        call_ensures(parse_status, (response,), r),
        !version.contains(' '),
        !version.contains('\n'),
        !word.contains(' '),
        !word.contains('\n'),
        tail.len() == 0 || tail[0] == ' ',
        !tail.contains('\n'),
        is_line_end(version + seq![' '] + word + tail, end),
        response@ == version + seq![' '] + word + tail + end,
    ensures
        outcome_for(word, r),
{
    lemma_status_line(version, word, tail, end);
}

/// A response without text, one whose first line is a single word, and one that
/// is not UTF-8 each have their own error.
pub proof fn law_malformed_response_fails(
    bytes: &[u8],
    r: Result<(), ObfsError>,
    line: Seq<char>,
    end: Seq<char>,
)
    requires
        call_ensures(parse_response, (bytes,), r),
    ensures
        bytes@.len() == 0 ==> is_error(r, "HTTP CONNECT: empty response"@),
        !valid_utf8(bytes@) ==> is_error(r, "HTTP CONNECT: non-UTF8 response"@),
        !line.contains(' ') && !line.contains('\n') && is_line_end(line, end) && (line + end).len()
            > 0 && bytes@ == encode_utf8(line + end) ==> is_error(
            r,
            "HTTP CONNECT: malformed status line"@,
        ),
{
    if bytes@.len() == 0 {
        assert(decode_utf8(bytes@).len() == 0);
    }
    if !line.contains(' ') && !line.contains('\n') && is_line_end(line, end) {
        lemma_first_line(line, end);
        line.index_of_first_ensures(' ');
        vstd::utf8::encode_utf8_valid_utf8(line + end);
        vstd::utf8::encode_utf8_decode_utf8(line + end);
    }
}

/// The response is collected byte by byte. Nothing is decided before the empty
/// line that ends it, and then it is decided as a response of these bytes is;
/// one that has not ended within its limit is an error.
pub proof fn law_response_is_collected(
    h: &mut HttpConnect,
    byte: u8,
    step: HttpStep,
    bytes: &[u8],
    r: Result<(), ObfsError>,
)
    requires
        call_ensures(HttpConnect::step, (h, byte), step),
        bytes@ == old(h)@.push(byte),
        call_ensures(parse_response, (bytes,), r),
    ensures
        final(h)@ == old(h)@.push(byte),
        ({
            let n = bytes@.len() as int;
            let ended = n >= 4 && bytes@.subrange(n - 4, n) == seq![13u8, 10u8, 13u8, 10u8];
            &&& n > 8192 ==> (step matches HttpStep::Fail(ObfsError::Io(IoKind::Other, m)) && m@
                == "HTTP CONNECT: response header too large"@)
            &&& n <= 8192 && !ended ==> step is More
            &&& n <= 8192 && ended ==> match (step, r) {
                (HttpStep::Done, Ok(())) => true,
                (HttpStep::Fail(e), Err(f)) => e@ == f@,
                _ => false,
            }
        }),
{
    let n = bytes@.len() as int;
    if n >= 4 {
        let last = bytes@.subrange(n - 4, n);
        assert(last[0] == bytes@[n - 4] && last[1] == bytes@[n - 3] && last[2] == bytes@[n - 2]
            && last[3] == bytes@[n - 1]);
        if ends_header(bytes@) {
            assert(last =~= seq![13u8, 10u8, 13u8, 10u8]);
        }
    }
}

/// A whole response on a stream: a tunnel is open exactly if its status code is
/// 200, whatever its version, its reason and its headers, and exactly the
/// response is read.
pub proof fn law_only_200_opens_the_tunnel(
    version: Seq<char>,
    code: u16,
    reason: Seq<char>,
    rest: Seq<char>,
    behind: Seq<u8>,
)
    requires
        !version.contains(' '),
        !version.contains('\n'),
        !reason.contains('\n'),
        ({
            let s = version + seq![' '] + text::decimal(code as nat) + seq![' '] + reason + seq![
                '\r',
                '\n',
            ] + rest;
            let bytes = encode_utf8(s);
            &&& 0 < bytes.len() <= 8192
            &&& ends_header(bytes)
            &&& forall|k: int| 0 < k < bytes.len() ==> !ends_header(#[trigger] bytes.take(k))
        }),
    ensures
        ({
            let s = version + seq![' '] + text::decimal(code as nat) + seq![' '] + reason + seq![
                '\r',
                '\n',
            ] + rest;
            let bytes = encode_utf8(s);
            let (last, read) = http_run(Seq::empty(), bytes + behind);
            &&& read == bytes.len()
            &&& code == 200 <==> last == Some(HttpView::Done)
            &&& code != 200 ==> last == Some(
                HttpView::Fail(
                    ErrorView::Io(
                        IoKind::Other,
                        "HTTP CONNECT: proxy returned status "@ + text::decimal(code as nat),
                    ),
                ),
            )
            &&& response_outcome(bytes) is Ok <==> code == 200
        }),
{
    let s = version + seq![' '] + text::decimal(code as nat) + seq![' '] + reason + seq!['\r', '\n']
        + rest;
    let bytes = encode_utf8(s);
    law_status_code_decides(version, code, reason, rest);
    assert(s =~= version + seq![' '] + text::decimal(code as nat) + seq![' '] + reason + crlf()
        + rest);
    vstd::utf8::encode_utf8_valid_utf8(s);
    vstd::utf8::encode_utf8_decode_utf8(s);
    let none = Seq::<u8>::empty();
    assert(none + bytes =~= bytes);
    assert forall|k: int| 0 < k < bytes.len() implies !ends_header(#[trigger] (none + bytes.take(k))) by {
        assert(none + bytes.take(k) =~= bytes.take(k));
    }
    law_reads_exactly_the_header(none, bytes, behind);
}

/// A response that has not ended after 8192 bytes is given up at the next one.
pub proof fn law_endless_response_is_given_up(seen: Seq<u8>, input: Seq<u8>)
    requires
        seen.len() <= 8192,
        seen.len() + input.len() > 8192,
        forall|k: int| 0 < k <= input.len() ==> !ends_header(#[trigger] (seen + input.take(k))),
    ensures
        http_run(seen, input) == (
            Some(
                HttpView::Fail(
                    ErrorView::Io(IoKind::Other, "HTTP CONNECT: response header too large"@),
                ),
            ),
            (8193 - seen.len()) as nat,
        ),
    decreases input.len(),
{
    let now = seen.push(input[0]);
    assert(now =~= seen + input.take(1));
    assert(!ends_header(now));
    if now.len() <= 8192 {
        let tail = input.skip(1);
        assert forall|k: int| 0 < k <= tail.len() implies !ends_header(#[trigger] (now + tail.take(k))) by {
            assert(now + tail.take(k) =~= seen + input.take(k + 1));
        }
        law_endless_response_is_given_up(now, tail);
    }
}

} // verus!
