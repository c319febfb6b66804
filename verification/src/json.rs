//! The JSON bodies that the service answers with: a success body carrying the
//! assigned identifier and extension, and an error body carrying a message.
//! Messages are escaped so that the emitted text is always well-formed JSON.

use vstd::prelude::*;

verus! {

/// The lowercase hex digit for a value below 16.
pub open spec fn hex_digit(d: nat) -> u8 {
    if d < 10 {
        (48 + d) as u8
    } else {
        (87 + d) as u8
    }
}

/// How one byte appears inside a JSON string literal: quotes and backslashes
/// are escaped, control bytes become a `\u00XX` sequence, anything else is
/// passed through.
pub open spec fn escape_byte(b: u8) -> Seq<u8> {
    if b == ('"' as u8) {
        seq!['\\' as u8, '"' as u8]
    } else if b == ('\\' as u8) {
        seq!['\\' as u8, '\\' as u8]
    } else if b < 32 {
        seq!['\\' as u8, 'u' as u8, '0' as u8, '0' as u8, hex_digit((b / 16) as nat), hex_digit(
            (b % 16) as nat,
        )]
    } else {
        seq![b]
    }
}

/// The JSON escaping of a whole byte string.
pub open spec fn json_escaped(s: Seq<u8>) -> Seq<u8>
    decreases s.len(),
{
    if s.len() == 0 {
        Seq::empty()
    } else {
        json_escaped(s.drop_last()) + escape_byte(s.last())
    }
}

/// `{"error":"` followed by the escaped message and `"}`.
pub open spec fn error_body_spec(msg: Seq<u8>) -> Seq<u8> {
    error_prefix() + json_escaped(msg) + quote_brace()
}

/// The bytes of `{"error":"`.
pub open spec fn error_prefix() -> Seq<u8> {
    seq!['{' as u8, '"' as u8, 'e' as u8, 'r' as u8, 'r' as u8, 'o' as u8, 'r' as u8, '"' as u8, ':' as u8, '"' as u8]
}

/// The bytes of `"}`.
pub open spec fn quote_brace() -> Seq<u8> {
    seq!['"' as u8, '}' as u8]
}

/// The bytes of `{"id":"`.
pub open spec fn id_prefix() -> Seq<u8> {
    seq!['{' as u8, '"' as u8, 'i' as u8, 'd' as u8, '"' as u8, ':' as u8, '"' as u8]
}

/// The bytes of `","ext":"`.
pub open spec fn ext_infix() -> Seq<u8> {
    seq!['"' as u8, ',' as u8, '"' as u8, 'e' as u8, 'x' as u8, 't' as u8, '"' as u8, ':' as u8, '"' as u8]
}

/// `{"id":"<id>","ext":"<ext>"}` with both fields escaped.
pub open spec fn upload_body_spec(id: Seq<u8>, ext: Seq<u8>) -> Seq<u8> {
    id_prefix() + json_escaped(id) + ext_infix() + json_escaped(ext) + quote_brace()
}

/// Appends the escaping of one byte to `out`.
fn push_escaped_byte(out: &mut Vec<u8>, b: u8)
    ensures
        final(out)@ == old(out)@ + escape_byte(b),
{
    if b == ('"' as u8) {
        out.push('\\' as u8);
        out.push('"' as u8);
    } else if b == ('\\' as u8) {
        out.push('\\' as u8);
        out.push('\\' as u8);
    } else if b < 32 {
        out.push('\\' as u8);
        out.push('u' as u8);
        out.push('0' as u8);
        out.push('0' as u8);
        let hi = b / 16;
        let lo = b % 16;
        out.push(if hi < 10 { 48 + hi } else { 87 + hi });
        out.push(if lo < 10 { 48 + lo } else { 87 + lo });
    } else {
        out.push(b);
    }
    assert(out@ =~= old(out)@ + escape_byte(b));
}

/// Appends the JSON escaping of `s` to `out`.
fn push_escaped(out: &mut Vec<u8>, s: &[u8])
    ensures
        final(out)@ == old(out)@ + json_escaped(s@),
{
    let mut i: usize = 0;
    while i < s.len()
        invariant
            i <= s@.len(),
            out@ == old(out)@ + json_escaped(s@.take(i as int)),
        decreases s@.len() - i,
    {
        push_escaped_byte(out, s[i]);
        proof {
            let t = s@.take(i + 1);
            assert(t.drop_last() =~= s@.take(i as int));
            assert(t.last() == s@[i as int]);
        }
        i = i + 1;
    }
    assert(s@.take(s@.len() as int) =~= s@);
}

/// Builds the error body `{"error":"<msg>"}` for a message, escaping it.
pub fn error_body(msg: &[u8]) -> (r: Vec<u8>)
    ensures
        r@ == error_body_spec(msg@),
{
    let mut out: Vec<u8> = Vec::new();
    out.push('{' as u8);
    out.push('"' as u8);
    out.push('e' as u8);
    out.push('r' as u8);
    out.push('r' as u8);
    out.push('o' as u8);
    out.push('r' as u8);
    out.push('"' as u8);
    out.push(':' as u8);
    out.push('"' as u8);
    assert(out@ =~= error_prefix());
    push_escaped(&mut out, msg);
    out.push('"' as u8);
    out.push('}' as u8);
    assert(out@ =~= error_prefix() + json_escaped(msg@) + quote_brace());
    out
}

/// Builds the success body `{"id":"<id>","ext":"<ext>"}` for an upload.
pub fn upload_body(id: &[u8], ext: &[u8]) -> (r: Vec<u8>)
    ensures
        r@ == upload_body_spec(id@, ext@),
{
    let mut out: Vec<u8> = Vec::new();
    out.push('{' as u8);
    out.push('"' as u8);
    out.push('i' as u8);
    out.push('d' as u8);
    out.push('"' as u8);
    out.push(':' as u8);
    out.push('"' as u8);
    assert(out@ =~= id_prefix());
    push_escaped(&mut out, id);
    out.push('"' as u8);
    out.push(',' as u8);
    out.push('"' as u8);
    out.push('e' as u8);
    out.push('x' as u8);
    out.push('t' as u8);
    out.push('"' as u8);
    out.push(':' as u8);
    out.push('"' as u8);
    assert(out@ =~= id_prefix() + json_escaped(id@) + ext_infix());
    push_escaped(&mut out, ext);
    out.push('"' as u8);
    out.push('}' as u8);
    assert(out@ =~= upload_body_spec(id@, ext@));
    out
}

} // verus!
