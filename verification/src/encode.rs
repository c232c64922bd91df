//! Response encoding.
//!
//! Every handler result is converted into the one envelope shape the
//! platform accepts: a response-type code plus an optional `content`
//! payload, serialized as `{"type":N}` or
//! `{"type":N,"data":{"content":"..."}}` with the content JSON-escaped.

use vstd::prelude::*;

verus! {

/// Response-type code: acknowledge a ping.
pub const RESPONSE_KIND_PONG: u8 = 1;

/// Response-type code: channel message with source.
pub const RESPONSE_KIND_MESSAGE: u8 = 4;

/// The platform's response envelope: a response-type code and an optional
/// message content (UTF-8 bytes).
pub struct ResponseEnvelope {
    pub kind: u8,
    pub content: Option<Vec<u8>>,
}

/// What a handler may return: plain text (wrapped as a type-4 message), or
/// a pre-built envelope (passed through unchanged). New return conventions
/// add a variant here and one encoding case below; the dispatcher never
/// changes.
pub enum HandlerResult {
    Text(Vec<u8>),
    Envelope(ResponseEnvelope),
}

impl HandlerResult {
    /// The envelope a handler result encodes to.
    pub open spec fn encode_spec(self) -> ResponseEnvelope {
        match self {
            HandlerResult::Text(text) => ResponseEnvelope {
                kind: RESPONSE_KIND_MESSAGE,
                content: Some(text),
            },
            HandlerResult::Envelope(env) => env,
        }
    }
}

/// Converts a handler result into the response envelope: text becomes a
/// type-4 message with that content; a pre-built envelope is passed
/// through unchanged. This never fails.
pub fn encode_result(result: HandlerResult) -> (env: ResponseEnvelope)
    ensures
        env == result.encode_spec(),
{
    match result {
        HandlerResult::Text(text) => ResponseEnvelope {
            kind: RESPONSE_KIND_MESSAGE,
            content: Some(text),
        },
        HandlerResult::Envelope(env) => env,
    }
}

/// The ASCII digit of a value below ten.
pub open spec fn dec_digit(v: u8) -> u8 {
    (48 + v) as u8
}

/// The ASCII hexadecimal digit (lower case) of a value below sixteen.
pub open spec fn hex_digit_ascii(v: u8) -> u8 {
    if v < 10 {
        (48 + v) as u8
    } else {
        (87 + v) as u8
    }
}

/// The decimal digits of a response-type code.
pub open spec fn dec_bytes(n: u8) -> Seq<u8> {
    if n < 10 {
        seq![dec_digit(n)]
    } else if n < 100 {
        seq![dec_digit(n / 10), dec_digit(n % 10)]
    } else {
        seq![dec_digit(n / 100), dec_digit((n / 10) % 10), dec_digit(n % 10)]
    }
}

/// The JSON string escaping of one content byte: quote and backslash get a
/// backslash; control bytes become a `\u00XX` escape; all else is itself.
pub open spec fn escaped_byte(b: u8) -> Seq<u8> {
    if b == 34 || b == 92 {
        seq![92u8, b]
    } else if b < 32 {
        seq![92u8, 117u8, 48u8, 48u8, hex_digit_ascii(b / 16), hex_digit_ascii(b % 16)]
    } else {
        seq![b]
    }
}

/// The JSON string escaping of a content byte string.
pub open spec fn escape_spec(s: Seq<u8>) -> Seq<u8>
    decreases s.len(),
{
    if s.len() == 0 {
        Seq::empty()
    } else {
        escaped_byte(s[0]) + escape_spec(s.drop_first())
    }
}

/// Escaping one more byte appends its escaping.
proof fn lemma_escape_push(s: Seq<u8>, b: u8)
    ensures
        escape_spec(s.push(b)) == escape_spec(s) + escaped_byte(b),
    decreases s.len(),
{
    if s.len() == 0 {
        assert(s.push(b).drop_first() =~= Seq::<u8>::empty());
        assert(s.push(b)[0] == b);
        assert(escape_spec(s.push(b)) == escaped_byte(b) + escape_spec(Seq::<u8>::empty()));
        assert(escape_spec(s.push(b)) =~= escape_spec(s) + escaped_byte(b));
    } else {
        lemma_escape_push(s.drop_first(), b);
        assert(s.push(b).drop_first() =~= s.drop_first().push(b));
        assert(s.push(b)[0] == s[0]);
        assert(escape_spec(s.push(b)) == escaped_byte(s[0]) + (escape_spec(s.drop_first())
            + escaped_byte(b)));
        assert(escape_spec(s.push(b)) =~= escape_spec(s) + escaped_byte(b));
    }
}

/// Appends the JSON escaping of `content` to `out`.
fn append_escaped(content: &Vec<u8>, out: &mut Vec<u8>)
    ensures
        final(out)@ == old(out)@ + escape_spec(content@),
{
    let ghost out0 = out@;
    let n = content.len();
    let mut i: usize = 0;
    proof {
        assert(content@.take(0) =~= Seq::<u8>::empty());
        assert(out@ =~= out0 + escape_spec(content@.take(0)));
    }
    while i < n
        invariant
            n == content.len(),
            i <= n,
            out@ == out0 + escape_spec(content@.take(i as int)),
        decreases n - i,
    {
        let b = content[i];
        if b == 34 || b == 92 {
            out.push(92);
            out.push(b);
        } else if b < 32 {
            out.push(92);
            out.push(117);
            out.push(48);
            out.push(48);
            let hi = b / 16;
            let lo = b % 16;
            out.push(if hi < 10 { 48 + hi } else { 87 + hi });
            out.push(if lo < 10 { 48 + lo } else { 87 + lo });
        } else {
            out.push(b);
        }
        proof {
            lemma_escape_push(content@.take(i as int), content@[i as int]);
            assert(content@.take(i as int).push(content@[i as int]) =~= content@.take(
                i as int + 1,
            ));
            assert(out@ =~= out0 + escape_spec(content@.take(i as int + 1)));
        }
        i = i + 1;
    }
    proof {
        assert(content@.take(n as int) =~= content@);
    }
}

/// Appends the decimal digits of a response-type code to `out`.
fn append_dec(n: u8, out: &mut Vec<u8>)
    ensures
        final(out)@ == old(out)@ + dec_bytes(n),
{
    if n < 10 {
        out.push(48 + n);
        proof {
            assert(out@ =~= old(out)@ + dec_bytes(n));
        }
    } else if n < 100 {
        out.push(48 + n / 10);
        out.push(48 + n % 10);
        proof {
            assert(out@ =~= old(out)@ + dec_bytes(n));
        }
    } else {
        out.push(48 + n / 100);
        out.push(48 + (n / 10) % 10);
        out.push(48 + n % 10);
        proof {
            assert(out@ =~= old(out)@ + dec_bytes(n));
        }
    }
}

/// The serialized envelope: `{"type":` then the code's digits, then either
/// a closing brace, or `,"data":{"content":"` the escaped content `"}}`.
pub open spec fn envelope_bytes_spec(env: ResponseEnvelope) -> Seq<u8> {
    let prefix = seq![123u8, 34u8, 116u8, 121u8, 112u8, 101u8, 34u8, 58u8] + dec_bytes(env.kind);
    match env.content {
        None => prefix + seq![125u8],
        Some(content) => prefix + seq![
            44u8,
            34u8,
            100u8,
            97u8,
            116u8,
            97u8,
            34u8,
            58u8,
            123u8,
            34u8,
            99u8,
            111u8,
            110u8,
            116u8,
            101u8,
            110u8,
            116u8,
            34u8,
            58u8,
            34u8,
        ] + escape_spec(content@) + seq![34u8, 125u8, 125u8],
    }
}

/// Serializes a response envelope to its JSON bytes. Encoding never fails.
pub fn envelope_bytes(env: &ResponseEnvelope) -> (r: Vec<u8>)
    ensures
        r@ == envelope_bytes_spec(*env),
{
    let mut out: Vec<u8> = Vec::new();
    out.push(123);  // {
    out.push(34);  // "
    out.push(116);  // t
    out.push(121);  // y
    out.push(112);  // p
    out.push(101);  // e
    out.push(34);  // "
    out.push(58);  // :
    append_dec(env.kind, &mut out);
    match &env.content {
        None => {
            out.push(125);  // }
            proof {
                assert(out@ =~= envelope_bytes_spec(*env));
            }
        },
        Some(content) => {
            out.push(44);  // ,
            out.push(34);  // "
            out.push(100);  // d
            out.push(97);  // a
            out.push(116);  // t
            out.push(97);  // a
            out.push(34);  // "
            out.push(58);  // :
            out.push(123);  // {
            out.push(34);  // "
            out.push(99);  // c
            out.push(111);  // o
            out.push(110);  // n
            out.push(116);  // t
            out.push(101);  // e
            out.push(110);  // n
            out.push(116);  // t
            out.push(34);  // "
            out.push(58);  // :
            out.push(34);  // "
            append_escaped(content, &mut out);
            out.push(34);  // "
            out.push(125);  // }
            out.push(125);  // }
            proof {
                assert(out@ =~= envelope_bytes_spec(*env));
            }
        },
    }
    out
}

/// What the transport is told to send back: an HTTP status code and the
/// response body bytes.
pub struct HttpResponse {
    pub status: u16,
    pub body: Vec<u8>,
}

} // verus!
