//! The `Content-Disposition` header under which a comment attachment is
//! downloaded.

use vstd::prelude::*;

use crate::text::{append_str, chars_of, string_of};

verus! {

/// A byte that stays as it is in a percent-encoded file name: an ASCII
/// letter or digit, or one of `-`, `.`, `_`, `~`.
pub open spec fn is_unreserved(b: u8) -> bool {
    ||| 48 <= b <= 57
    ||| 65 <= b <= 90
    ||| 97 <= b <= 122
    ||| b == 45
    ||| b == 46
    ||| b == 95
    ||| b == 126
}

/// The upper-case hexadecimal digit of `d`.
pub open spec fn hex_upper(d: u8) -> char {
    if d < 10 {
        (48 + d) as char
    } else {
        (55 + d) as char
    }
}

pub open spec fn encoded_byte(b: u8) -> Seq<char> {
    if is_unreserved(b) {
        seq![b as char]
    } else {
        seq!['%', hex_upper(b / 16), hex_upper(b % 16)]
    }
}

/// The bytes, percent-encoded one by one.
pub open spec fn percent_encoded(bytes: Seq<u8>) -> Seq<char>
    decreases bytes.len(),
{
    if bytes.len() == 0 {
        Seq::empty()
    } else {
        percent_encoded(bytes.drop_last()) + encoded_byte(bytes.last())
    }
}

/// The fixed start of the header, up to the encoded file name.
pub open spec fn disposition_prefix() -> Seq<char> {
    "attachment; filename=download; filename*=UTF-8''"@
}

/// The header for a file: a plain fallback name, and the file's own name as
/// percent-encoded UTF-8.
pub open spec fn content_disposition_text(file_name: Seq<char>) -> Seq<char> {
    disposition_prefix() + percent_encoded(vstd::utf8::encode_utf8(file_name))
}

/// The value of a hexadecimal digit (`0`-`9`, `A`-`F`).
pub open spec fn hex_value(c: char) -> int {
    if '0' <= c <= '9' {
        c as int - 48
    } else if 'A' <= c <= 'F' {
        c as int - 55
    } else {
        0
    }
}

/// Percent-decoding: each `%` followed by two hexadecimal digits stands for
/// one byte, every other character for its own code.
pub open spec fn percent_decoded(s: Seq<char>) -> Seq<u8>
    decreases s.len(),
{
    if s.len() == 0 {
        Seq::empty()
    } else if s[0] == '%' && s.len() >= 3 {
        seq![(hex_value(s[1]) * 16 + hex_value(s[2])) as u8] + percent_decoded(
            s.subrange(3, s.len() as int),
        )
    } else {
        seq![s[0] as u8] + percent_decoded(s.subrange(1, s.len() as int))
    }
}

proof fn lemma_percent_encoded_concat(a: Seq<u8>, b: Seq<u8>)
    ensures
        percent_encoded(a + b) == percent_encoded(a) + percent_encoded(b),
    decreases b.len(),
{
    if b.len() == 0 {
        assert(a + b =~= a);
        assert(percent_encoded(a) + percent_encoded(b) =~= percent_encoded(a));
    } else {
        assert((a + b).drop_last() =~= a + b.drop_last());
        lemma_percent_encoded_concat(a, b.drop_last());
        assert(percent_encoded(a) + percent_encoded(b) =~= percent_encoded(a) + percent_encoded(
            b.drop_last(),
        ) + encoded_byte(b.last()));
    }
}

proof fn lemma_hex_round_trip(d: u8)
    requires
        d < 16,
    ensures
        hex_value(hex_upper(d)) == d,
        '0' <= hex_upper(d) <= '9' || 'A' <= hex_upper(d) <= 'F',
{
}

/// Percent-decoding the encoding of any bytes gives the bytes back.
pub proof fn lemma_percent_round_trip(bytes: Seq<u8>)
    ensures
        percent_decoded(percent_encoded(bytes)) == bytes,
    decreases bytes.len(),
{
    if bytes.len() > 0 {
        let b = bytes[0];
        let rest = bytes.drop_first();
        assert(bytes =~= seq![b] + rest);
        lemma_percent_encoded_concat(seq![b], rest);
        assert(seq![b].drop_last() =~= Seq::<u8>::empty());
        assert(seq![b].last() == b);
        assert(percent_encoded(Seq::<u8>::empty()) =~= Seq::<char>::empty());
        assert(percent_encoded(seq![b]) =~= encoded_byte(b));
        let e = encoded_byte(b) + percent_encoded(rest);
        lemma_percent_round_trip(rest);
        if is_unreserved(b) {
            assert(e[0] == b as char);
            assert(e.subrange(1, e.len() as int) =~= percent_encoded(rest));
            assert(percent_decoded(e) =~= seq![b] + rest);
        } else {
            lemma_hex_round_trip(b / 16);
            lemma_hex_round_trip(b % 16);
            assert(e[0] == '%');
            assert(e[1] == hex_upper(b / 16));
            assert(e[2] == hex_upper(b % 16));
            assert(e.subrange(3, e.len() as int) =~= percent_encoded(rest));
            assert(percent_decoded(e) =~= seq![b] + rest);
        }
    }
}

/// The header is ASCII text, and its part after the fixed prefix decodes,
/// percent escapes first and UTF-8 then, back to the file name.
pub proof fn lemma_content_disposition_round_trip(file_name: Seq<char>)
    ensures
        vstd::utf8::is_ascii_chars(content_disposition_text(file_name)),
        content_disposition_text(file_name).subrange(
            0,
            disposition_prefix().len() as int,
        ) == disposition_prefix(),
        vstd::utf8::decode_utf8(
            percent_decoded(
                content_disposition_text(file_name).subrange(
                    disposition_prefix().len() as int,
                    content_disposition_text(file_name).len() as int,
                ),
            ),
        ) == file_name,
{
    let bytes = vstd::utf8::encode_utf8(file_name);
    let text = content_disposition_text(file_name);
    let p = disposition_prefix();
    reveal_strlit("attachment; filename=download; filename*=UTF-8''");
    assert(vstd::string::is_ascii("attachment; filename=download; filename*=UTF-8''"));
    assert(text.subrange(0, p.len() as int) =~= p);
    assert(text.subrange(p.len() as int, text.len() as int) =~= percent_encoded(bytes));
    lemma_percent_round_trip(bytes);
    vstd::utf8::encode_utf8_decode_utf8(file_name);
    lemma_encoded_name_is_header_safe(bytes);
    assert forall|i: int| 0 <= i < text.len() implies '\0' <= #[trigger] text[i] <= '\u{7f}' by {
        if i < p.len() {
            assert(text[i] == p[i]);
            assert(vstd::utf8::is_ascii_chars(p));
            assert('\0' <= p[i] <= '\u{7f}');
        } else {
            assert(text[i] == percent_encoded(bytes)[i - p.len()]);
            let c = percent_encoded(bytes)[i - p.len()];
            assert(is_encoded_char(c));
        }
    }
}

/// A character that may stand in the encoded file name: an unreserved ASCII
/// character, `%`, or an upper-case hexadecimal digit.
pub open spec fn is_encoded_char(c: char) -> bool {
    ||| is_unreserved(c as u8) && 0 <= (c as int) < 128
    ||| c == '%'
    ||| ('0' <= c <= '9')
    ||| ('A' <= c <= 'F')
}

/// Whatever the file name, the encoded name holds only unreserved ASCII
/// characters and percent escapes, so that the header value cannot be
/// broken by quotes, separators or line breaks in the name.
pub proof fn lemma_encoded_name_is_header_safe(bytes: Seq<u8>)
    ensures
        forall|k: int|
            0 <= k < percent_encoded(bytes).len() ==> is_encoded_char(
                #[trigger] percent_encoded(bytes)[k],
            ),
    decreases bytes.len(),
{
    if bytes.len() > 0 {
        lemma_encoded_name_is_header_safe(bytes.drop_last());
        let b = bytes.last();
        let rest = percent_encoded(bytes.drop_last());
        let tail = encoded_byte(b);
        assert(percent_encoded(bytes) == rest + tail);
        assert forall|k: int| 0 <= k < tail.len() implies is_encoded_char(#[trigger] tail[k]) by {
            if is_unreserved(b) {
                assert(tail[k] == b as char);
            } else {
                assert(b / 16 < 16);
            }
        }
        assert forall|k: int|
            0 <= k < percent_encoded(bytes).len() implies is_encoded_char(
                #[trigger] percent_encoded(bytes)[k],
            ) by {
            if k < rest.len() {
                assert(percent_encoded(bytes)[k] == rest[k]);
            } else {
                assert(percent_encoded(bytes)[k] == tail[k - rest.len()]);
            }
        }
    }
}

fn hex_upper_exec(d: u8) -> (c: char)
    requires
        d < 16,
    ensures
        c == hex_upper(d),
{
    if d < 10 {
        (48 + d) as char
    } else {
        (55 + d) as char
    }
}

pub fn content_disposition(file_name: &str) -> (r: String)
    ensures
        r@ == content_disposition_text(file_name@),
{
    let bytes = file_name.as_bytes();
    let mut out: Vec<char> = chars_of("attachment; filename=download; filename*=UTF-8''");
    let ghost start = out@;
    let mut i: usize = 0;
    while i < bytes.len()
        invariant
            i <= bytes@.len(),
            out@ == start + percent_encoded(bytes@.subrange(0, i as int)),
        decreases bytes@.len() - i,
    {
        let b = bytes[i];
        let ghost before = out@;
        if (48 <= b && b <= 57) || (65 <= b && b <= 90) || (97 <= b && b <= 122) || b == 45
            || b == 46 || b == 95 || b == 126 {
            out.push(b as char);
        } else {
            out.push('%');
            out.push(hex_upper_exec(b / 16));
            out.push(hex_upper_exec(b % 16));
        }
        proof {
            assert(bytes@.subrange(0, i + 1).drop_last() =~= bytes@.subrange(0, i as int));
            assert(out@ =~= before + encoded_byte(b));
        }
        i = i + 1;
    }
    assert(bytes@.subrange(0, bytes@.len() as int) =~= bytes@);
    string_of(&out)
}

} // verus!
