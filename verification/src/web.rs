//! The web frontend's protocol logic: the embedded page, routing of the
//! request line, the HTTP response head, and JSON string quoting.
//!
//! The sockets, threads and WebSocket framing stay with the caller; these
//! functions take and return plain bytes and strings.

use vstd::prelude::*;
use crate::text::{decimal, push_char, push_decimal_digits};

verus! {

/// Path the browser opens its WebSocket on.
pub const WS_PATH: &'static str = "/ws";

/// Most bytes of a request head read before the rest is ignored.
pub const MAX_REQUEST_HEAD: usize = 16384;

// ---------------------------------------------------------------------------
// JSON string quoting
// ---------------------------------------------------------------------------

/// Lower-case hexadecimal digit for `d` in `0..16`.
pub open spec fn hex_digit(d: int) -> char {
    if d < 10 {
        ('0' as int + d) as char
    } else {
        ('a' as int + (d - 10)) as char
    }
}

/// How one character appears inside a JSON string literal: quote, backslash
/// and the common control characters get their short escapes, the other
/// control characters a `\u00XX` escape, and everything else stands as is.
pub open spec fn json_escape_char(c: char) -> Seq<char> {
    if c == '"' {
        seq!['\\', '"']
    } else if c == '\\' {
        seq!['\\', '\\']
    } else if c == '\n' {
        seq!['\\', 'n']
    } else if c == '\r' {
        seq!['\\', 'r']
    } else if c == '\t' {
        seq!['\\', 't']
    } else if (c as u32) < 0x20 {
        seq!['\\', 'u', '0', '0', hex_digit((c as u32 / 16) as int), hex_digit((c as u32 % 16) as int)]
    } else {
        seq![c]
    }
}

/// The escaped body of a JSON string literal for `s`.
pub open spec fn json_escape(s: Seq<char>) -> Seq<char>
    decreases s.len(),
{
    if s.len() == 0 {
        seq![]
    } else {
        json_escape_char(s[0]) + json_escape(s.drop_first())
    }
}

/// Escaping distributes over concatenation.
proof fn lemma_json_escape_concat(a: Seq<char>, b: Seq<char>)
    ensures
        json_escape(a + b) == json_escape(a) + json_escape(b),
    decreases a.len(),
{
    if a.len() == 0 {
        assert(a + b =~= b);
    } else {
        lemma_json_escape_concat(a.drop_first(), b);
        assert((a + b).drop_first() =~= a.drop_first() + b);
        assert(json_escape_char(a[0]) + (json_escape(a.drop_first()) + json_escape(b))
            =~= (json_escape_char(a[0]) + json_escape(a.drop_first())) + json_escape(b));
    }
}

/// `s` as a JSON string literal, quotes included.
pub open spec fn json_quoted(s: Seq<char>) -> Seq<char> {
    seq!['"'] + json_escape(s) + seq!['"']
}

fn hex_digit_exec(d: u32) -> (c: char)
    requires
        d < 16,
    ensures
        c == hex_digit(d as int),
{
    if d < 10 {
        (48u8 + d as u8) as char
    } else {
        (97u8 + (d - 10) as u8) as char
    }
}

fn push_json_escaped(out: &mut String, c: char)
    ensures
        final(out)@ == old(out)@ + json_escape_char(c),
{
    if c == '"' {
        out.append("\\\"");
        proof { reveal_strlit("\\\""); }
    } else if c == '\\' {
        out.append("\\\\");
        proof { reveal_strlit("\\\\"); }
    } else if c == '\n' {
        out.append("\\n");
        proof { reveal_strlit("\\n"); }
    } else if c == '\r' {
        out.append("\\r");
        proof { reveal_strlit("\\r"); }
    } else if c == '\t' {
        out.append("\\t");
        proof { reveal_strlit("\\t"); }
    } else if (c as u32) < 0x20 {
        let code: u32 = c as u32;
        out.append("\\u00");
        proof { reveal_strlit("\\u00"); }
        push_char(out, hex_digit_exec(code / 16));
        push_char(out, hex_digit_exec(code % 16));
    } else {
        push_char(out, c);
    }
    assert(final(out)@ =~= old(out)@ + json_escape_char(c)) by {
        if c != '"' && c != '\\' && c != '\n' && c != '\r' && c != '\t' && (c as u32) < 0x20 {
            assert(json_escape_char(c) =~= seq!['\\', 'u', '0', '0'] + seq![hex_digit((c as u32 / 16) as int)] + seq![hex_digit((c as u32 % 16) as int)]);
        }
    }
}

/// Quote and escape a string as a JSON literal. Note names come from the
/// scale, which is user-supplied data, so they cannot be trusted to be
/// quote-free.
pub fn json_string(s: &str) -> (quoted: String)
    ensures
        quoted@ == json_quoted(s@),
{
    let mut out = String::new();
    push_char(&mut out, '"');
    for c in it: s.chars()
        invariant
            it.seq() == s@,
            out@ == seq!['"'] + json_escape(s@.take(it.index() as int)),
    {
        let ghost before = it.index() as int;
        push_json_escaped(&mut out, c);
        proof {
            assert(s@.take(before + 1) =~= s@.take(before) + seq![c]);
            lemma_json_escape_concat(s@.take(before), seq![c]);
            assert(json_escape(seq![c]) =~= json_escape_char(c)) by {
                assert(seq![c].drop_first() =~= Seq::<char>::empty());
                assert(json_escape(Seq::<char>::empty()) =~= Seq::<char>::empty());
                assert(seq![c][0] == c);
            }
        }
    }
    push_char(&mut out, '"');
    proof {
        assert(s@.take(s@.len() as int) =~= s@);
    }
    out
}

/// No character of an escaped JSON body is a raw control character: every
/// one of them has been replaced by an escape.
pub proof fn lemma_json_escape_has_no_control_chars(s: Seq<char>)
    ensures
        forall|k: int| 0 <= k < json_escape(s).len() ==> (json_escape(s)[k] as u32) >= 0x20,
    decreases s.len(),
{
    if s.len() > 0 {
        lemma_json_escape_has_no_control_chars(s.drop_first());
        let c = s[0];
        let head = json_escape_char(c);
        let tail = json_escape(s.drop_first());
        assert forall|k: int| 0 <= k < head.len() implies (head[k] as u32) >= 0x20 by {
            if c != '"' && c != '\\' && c != '\n' && c != '\r' && c != '\t' && (c as u32) < 0x20 {
                assert(c as u32 / 16 < 16 && c as u32 % 16 < 16);
            }
        }
        assert forall|k: int| 0 <= k < json_escape(s).len() implies (json_escape(s)[k] as u32) >= 0x20 by {
            if k < head.len() {
                assert(json_escape(s)[k] == head[k]);
            } else {
                assert(json_escape(s)[k] == tail[k - head.len()]);
            }
        }
    }
}

/// The value of a hexadecimal digit (either case).
pub open spec fn hex_value(c: char) -> Option<int> {
    if '0' <= c && c <= '9' {
        Some(c as int - '0' as int)
    } else if 'a' <= c && c <= 'f' {
        Some(c as int - 'a' as int + 10)
    } else if 'A' <= c && c <= 'F' {
        Some(c as int - 'A' as int + 10)
    } else {
        None
    }
}

/// The code unit written by four hexadecimal digits.
pub open spec fn hex4_value(d: Seq<char>) -> Option<int> {
    match (hex_value(d[0]), hex_value(d[1]), hex_value(d[2]), hex_value(d[3])) {
        (Some(a), Some(b), Some(c), Some(e)) => Some(((a * 16 + b) * 16 + c) * 16 + e),
        _ => None,
    }
}

/// Reading back the body of a JSON string literal, as a JSON parser does:
/// `None` when it is not a valid body (a raw quote, backslash or control
/// character, or an unknown escape). Escapes `\uXXXX` of surrogate code
/// units are not read.
pub open spec fn json_unescape(body: Seq<char>) -> Option<Seq<char>>
    decreases body.len(),
{
    if body.len() == 0 {
        Some(seq![])
    } else if body[0] == '\\' {
        if body.len() < 2 {
            None
        } else {
            let e = body[1];
            let rest = body.skip(2);
            let simple: Option<char> = if e == '"' {
                Some('"')
            } else if e == '\\' {
                Some('\\')
            } else if e == '/' {
                Some('/')
            } else if e == 'b' {
                Some('\u{8}')
            } else if e == 'f' {
                Some('\u{c}')
            } else if e == 'n' {
                Some('\n')
            } else if e == 'r' {
                Some('\r')
            } else if e == 't' {
                Some('\t')
            } else {
                None
            };
            match simple {
                Some(c) => match json_unescape(rest) {
                    Some(tail) => Some(seq![c] + tail),
                    None => None,
                },
                None => if e == 'u' && body.len() >= 6 {
                    match hex4_value(body.subrange(2, 6)) {
                        Some(v) => if v < 0xD800 || 0xE000 <= v {
                            match json_unescape(body.skip(6)) {
                                Some(tail) => Some(seq![v as char] + tail),
                                None => None,
                            }
                        } else {
                            None
                        },
                        None => None,
                    }
                } else {
                    None
                },
            }
        }
    } else if body[0] == '"' || (body[0] as u32) < 0x20 {
        None
    } else {
        match json_unescape(body.drop_first()) {
            Some(tail) => Some(seq![body[0]] + tail),
            None => None,
        }
    }
}

/// Reading an escaped body back gives the original string: the literal that
/// [`json_string`] writes is a valid JSON string denoting exactly its input,
/// whatever quotes, backslashes or control characters the input holds.
pub proof fn lemma_json_escape_round_trips(s: Seq<char>)
    ensures
        json_unescape(json_escape(s)) == Some(s),
    decreases s.len(),
{
    if s.len() > 0 {
        let c = s[0];
        let rest = s.drop_first();
        lemma_json_escape_round_trips(rest);
        let e = json_escape(s);
        let head = json_escape_char(c);
        assert(e == head + json_escape(rest));
        if c == '"' || c == '\\' || c == '\n' || c == '\r' || c == '\t' {
            assert(e.skip(2) =~= json_escape(rest));
            assert(e[0] == '\\');
        } else if (c as u32) < 0x20 {
            let code = c as u32;
            assert(code / 16 < 2 && code % 16 < 16);
            assert(e.skip(6) =~= json_escape(rest));
            assert(e.subrange(2, 6) =~= seq!['0', '0', hex_digit((code / 16) as int), hex_digit((code % 16) as int)]);
            assert(hex4_value(e.subrange(2, 6)) == Some(code as int));
            vstd::utf8::char_u32_cast(c, code);
        } else {
            assert(e.drop_first() =~= json_escape(rest));
        }
        assert(seq![c] + rest =~= s);
    }
}

// ---------------------------------------------------------------------------
// request routing
// ---------------------------------------------------------------------------

/// No byte of `s` is a space.
pub open spec fn space_free(s: Seq<u8>) -> bool {
    forall|k: int| 0 <= k < s.len() ==> s[k] != 0x20u8
}

/// The request target of a request line: the second space-separated field,
/// `None` when the line has no space at all.
pub open spec fn is_request_target(line: Seq<u8>, target: Option<Seq<u8>>) -> bool {
    match target {
        None => space_free(line),
        Some(t) => exists|i: int|
            #![trigger line[i]]
            0 <= i < line.len() && space_free(line.take(i)) && line[i] == 0x20u8 && {
                let end = i + 1 + t.len();
                &&& end <= line.len()
                &&& t == line.subrange(i + 1, end)
                &&& space_free(t)
                &&& (end == line.len() || line[end] == 0x20u8)
            },
    }
}

/// The request target (the middle field) of an HTTP request line.
pub fn request_target(line: &[u8]) -> (target: Option<Vec<u8>>)
    ensures
        is_request_target(line@, match target {
            None => None,
            Some(t) => Some(t@),
        }),
{
    let mut i: usize = 0;
    while i < line.len() && line[i] != 0x20u8
        invariant
            i <= line.len(),
            space_free(line@.take(i as int)),
        decreases line.len() - i,
    {
        proof {
            assert(line@.take(i + 1) =~= line@.take(i as int).push(line@[i as int]));
        }
        i = i + 1;
    }
    if i == line.len() {
        proof {
            assert(line@.take(i as int) =~= line@);
        }
        return None;
    }
    let start: usize = i + 1;
    let mut j: usize = start;
    let mut t: Vec<u8> = Vec::new();
    while j < line.len() && line[j] != 0x20u8
        invariant
            start <= j <= line.len(),
            t@ == line@.subrange(start as int, j as int),
            space_free(t@),
        decreases line.len() - j,
    {
        t.push(line[j]);
        j = j + 1;
        proof {
            assert(t@ =~= line@.subrange(start as int, j as int));
        }
    }
    proof {
        assert(line@[i as int] == 0x20u8);
    }
    Some(t)
}

/// Where a request is answered.
#[derive(Clone, Copy, Debug, PartialEq, Eq)]
pub enum Route {
    /// The WebSocket stream of tuner readings.
    WebSocket,
    /// The embedded page.
    Page,
    /// Anything else.
    NotFound,
}

/// The bytes of [`WS_PATH`], `/ws`.
pub open spec fn ws_path_bytes() -> Seq<u8> {
    seq![0x2fu8, 0x77u8, 0x73u8]
}

/// Route a request by its target: [`WS_PATH`] opens the WebSocket, `/` serves
/// the page, anything else (or no target) is not found.
pub fn route(target: Option<&[u8]>) -> (r: Route)
    ensures
        r == (match target {
            Some(t) => if t@ == ws_path_bytes() {
                Route::WebSocket
            } else if t@ == seq![0x2fu8] {
                Route::Page
            } else {
                Route::NotFound
            },
            None => Route::NotFound,
        }),
{
    match target {
        Some(t) => {
            if t.len() == 3 && t[0] == 0x2fu8 && t[1] == 0x77u8 && t[2] == 0x73u8 {
                assert(t@ =~= ws_path_bytes());
                Route::WebSocket
            } else if t.len() == 1 && t[0] == 0x2fu8 {
                assert(t@ =~= seq![0x2fu8]);
                Route::Page
            } else {
                proof {
                    if t@ == ws_path_bytes() {
                        assert(t@[0] == 0x2fu8 && t@[1] == 0x77u8 && t@[2] == 0x73u8);
                    }
                    if t@ == seq![0x2fu8] {
                        assert(t@[0] == 0x2fu8);
                    }
                }
                Route::NotFound
            }
        },
        None => Route::NotFound,
    }
}

/// The first position of a CR LF pair in `s`, if any.
pub open spec fn is_first_crlf(s: Seq<u8>, end: Option<int>) -> bool {
    match end {
        Some(e) => 0 <= e && e + 1 < s.len() && s[e] == 0x0du8 && s[e + 1] == 0x0au8
            && forall|k: int| 0 <= k < e ==> !(#[trigger] s[k] == 0x0du8 && s[k + 1] == 0x0au8),
        None => forall|k: int| 0 <= k && k + 1 < s.len() ==> !(#[trigger] s[k] == 0x0du8 && s[k + 1] == 0x0au8),
    }
}

fn find_crlf(s: &[u8]) -> (end: Option<usize>)
    ensures
        is_first_crlf(s@, match end {
            Some(e) => Some(e as int),
            None => None,
        }),
{
    let mut k: usize = 0;
    while k < s.len() && s.len() - k > 1
        invariant
            forall|m: int| 0 <= m < k ==> !(#[trigger] s@[m] == 0x0du8 && s@[m + 1] == 0x0au8),
        decreases s.len() - k,
    {
        if s[k] == 0x0du8 && s[k + 1] == 0x0au8 {
            return Some(k);
        }
        k = k + 1;
    }
    None
}

/// What the bytes peeked so far from a new connection say about its request
/// line.
#[derive(Clone, Debug, PartialEq, Eq)]
pub enum Peek {
    /// Nothing arrived: the client hung up.
    Closed,
    /// The request line is complete; here is its target, if it has one.
    Line(Option<Vec<u8>>),
    /// The buffer is full and still holds no complete line: give up.
    Overlong,
    /// The line is not complete yet: wait for more bytes.
    Pending,
}

/// Decide what to do with the first bytes of a connection, peeked without
/// consuming them into a buffer of `capacity` bytes.
pub fn scan_request_line(peeked: &[u8], capacity: usize) -> (p: Peek)
    ensures
        peeked@.len() == 0 ==> p == Peek::Closed,
        peeked@.len() > 0 ==> match p {
            Peek::Closed => false,
            Peek::Line(target) => exists|e: int|
                is_first_crlf(peeked@, Some(e)) && is_request_target(peeked@.take(e), match target {
                    None => None,
                    Some(t) => Some(t@),
                }),
            Peek::Overlong => is_first_crlf(peeked@, None) && peeked@.len() == capacity,
            Peek::Pending => is_first_crlf(peeked@, None) && peeked@.len() != capacity,
        },
{
    if peeked.len() == 0 {
        return Peek::Closed;
    }
    match find_crlf(peeked) {
        Some(end) => {
            let line = slice_prefix(peeked, end);
            Peek::Line(request_target(line))
        },
        None => {
            if peeked.len() == capacity {
                Peek::Overlong
            } else {
                Peek::Pending
            }
        },
    }
}

fn slice_prefix(s: &[u8], end: usize) -> (prefix: &[u8])
    requires
        end <= s@.len(),
    ensures
        prefix@ == s@.take(end as int),
{
    vstd::slice::slice_subrange(s, 0, end)
}

/// The blank line that ends a request head has arrived.
pub open spec fn has_head_end(seen: Seq<u8>) -> bool {
    exists|k: int|
        #![trigger seen[k]]
        0 <= k && k + 3 < seen.len() && seen[k] == 0x0du8 && seen[k + 1] == 0x0au8
            && seen[k + 2] == 0x0du8 && seen[k + 3] == 0x0au8
}

/// Whether to keep reading the head of a request that has `seen` arrive so
/// far: until the blank line that ends it, and at most
/// [`MAX_REQUEST_HEAD`] bytes.
pub fn request_head_pending(seen: &[u8]) -> (pending: bool)
    ensures
        pending == (seen@.len() < MAX_REQUEST_HEAD && !has_head_end(seen@)),
{
    if seen.len() >= MAX_REQUEST_HEAD {
        return false;
    }
    let mut k: usize = 0;
    while k < seen.len() && seen.len() - k > 3
        invariant
            forall|m: int|
                #![trigger seen@[m]]
                0 <= m < k ==> !(seen@[m] == 0x0du8 && seen@[m + 1] == 0x0au8 && seen@[m + 2] == 0x0du8
                    && seen@[m + 3] == 0x0au8),
        decreases seen.len() - k,
    {
        if seen[k] == 0x0du8 && seen[k + 1] == 0x0au8 && seen[k + 2] == 0x0du8 && seen[k + 3] == 0x0au8 {
            return false;
        }
        k = k + 1;
    }
    true
}

// ---------------------------------------------------------------------------
// response head
// ---------------------------------------------------------------------------

/// The head of an HTTP/1.1 response: status line, content type and length,
/// no caching, and the connection closed after the body.
pub open spec fn response_head_text(status: Seq<char>, content_type: Seq<char>, body_len: nat) -> Seq<char> {
    "HTTP/1.1 "@ + status + "\r\nContent-Type: "@ + content_type + "\r\nContent-Length: "@
        + decimal(body_len as int) + "\r\nCache-Control: no-store\r\nConnection: close\r\n\r\n"@
}

/// The head of the response that carries a body of `body_len` bytes.
pub fn response_head(status: &str, content_type: &str, body_len: usize) -> (head: String)
    ensures
        head@ == response_head_text(status@, content_type@, body_len as nat),
{
    let mut head = String::from_str("HTTP/1.1 ");
    head.append(status);
    head.append("\r\nContent-Type: ");
    head.append(content_type);
    head.append("\r\nContent-Length: ");
    push_decimal_digits(&mut head, body_len as u64);
    head.append("\r\nCache-Control: no-store\r\nConnection: close\r\n\r\n");
    head
}

} // verus!
