//! Byte-level JSON framing for the values this node puts on the wire:
//! escaped strings, decimal integers, hexadecimal byte strings, and
//! string lists. Each builder is verified against a specification of
//! the exact bytes produced.

use vstd::prelude::*;

use vstd::utf8::encode_utf8;

verus! {

/// The ASCII digit for one hexadecimal value (lower case).
pub open spec fn hex_digit(n: int) -> u8 {
    if n < 10 {
        (48 + n) as u8
    } else {
        (87 + n) as u8
    }
}

/// The JSON escape of one byte of string content: `"` and `\` take a
/// backslash, control bytes become a `\u00XX` escape, every other byte
/// stands as it is.
pub open spec fn escape_byte(b: u8) -> Seq<u8> {
    if b == 34 {
        seq![92u8, 34u8]
    } else if b == 92 {
        seq![92u8, 92u8]
    } else if b < 32 {
        seq![92u8, 117u8, 48u8, 48u8, hex_digit(b as int / 16), hex_digit(b as int % 16)]
    } else {
        seq![b]
    }
}

/// The JSON escape of a byte sequence, byte by byte.
pub open spec fn escape_bytes(s: Seq<u8>) -> Seq<u8>
    decreases s.len(),
{
    if s.len() == 0 {
        Seq::<u8>::empty()
    } else {
        escape_byte(s[0]) + escape_bytes(s.skip(1))
    }
}

/// Escaping distributes over concatenation.
pub proof fn lemma_escape_bytes_concat(a: Seq<u8>, b: Seq<u8>)
    ensures
        escape_bytes(a + b) == escape_bytes(a) + escape_bytes(b),
    decreases a.len(),
{
    if a.len() == 0 {
        assert(a + b =~= b);
        assert(escape_bytes(a) + escape_bytes(b) =~= escape_bytes(b));
    } else {
        assert((a + b).len() > 0);
        assert((a + b)[0] == a[0]);
        assert((a + b).skip(1) =~= a.skip(1) + b);
        lemma_escape_bytes_concat(a.skip(1), b);
        assert(escape_byte(a[0]) + (escape_bytes(a.skip(1)) + escape_bytes(b)) =~= (escape_byte(
            a[0],
        ) + escape_bytes(a.skip(1))) + escape_bytes(b));
    }
}

/// A quoted JSON string literal: the UTF-8 bytes of the characters,
/// escaped, between double quotes.
pub open spec fn json_string(s: Seq<char>) -> Seq<u8> {
    seq![34u8] + escape_bytes(encode_utf8(s)) + seq![34u8]
}

/// The decimal digits of a non-negative integer, most significant first.
pub open spec fn dec_digits(n: int) -> Seq<u8>
    decreases n,
{
    if n < 10 {
        seq![(48 + n) as u8]
    } else {
        dec_digits(n / 10) + seq![(48 + n % 10) as u8]
    }
}

/// A decimal integer with a leading minus sign when negative.
pub open spec fn dec_signed(n: int) -> Seq<u8> {
    if n < 0 {
        seq![45u8] + dec_digits(-n)
    } else {
        dec_digits(n)
    }
}

/// The lower-case hexadecimal rendering of a byte sequence, two digits
/// a byte.
pub open spec fn hex_bytes(s: Seq<u8>) -> Seq<u8>
    decreases s.len(),
{
    if s.len() == 0 {
        Seq::<u8>::empty()
    } else {
        seq![hex_digit(s[0] as int / 16), hex_digit(s[0] as int % 16)] + hex_bytes(s.skip(1))
    }
}

/// Hexadecimal rendering distributes over concatenation.
pub proof fn lemma_hex_bytes_concat(a: Seq<u8>, b: Seq<u8>)
    ensures
        hex_bytes(a + b) == hex_bytes(a) + hex_bytes(b),
    decreases a.len(),
{
    if a.len() == 0 {
        assert(a + b =~= b);
        assert(hex_bytes(a) + hex_bytes(b) =~= hex_bytes(b));
    } else {
        assert((a + b)[0] == a[0]);
        assert((a + b).skip(1) =~= a.skip(1) + b);
        lemma_hex_bytes_concat(a.skip(1), b);
        let h = seq![hex_digit(a[0] as int / 16), hex_digit(a[0] as int % 16)];
        assert(h + (hex_bytes(a.skip(1)) + hex_bytes(b)) =~= (h + hex_bytes(a.skip(1)))
            + hex_bytes(b));
    }
}

/// Appends a byte slice to a buffer.
pub fn append_slice(out: &mut Vec<u8>, s: &[u8])
    ensures
        final(out)@ == old(out)@ + s@,
{
    let mut i: usize = 0;
    proof {
        assert(out@ =~= old(out)@ + s@.take(0));
    }
    while i < s.len()
        invariant
            i <= s@.len(),
            out@ == old(out)@ + s@.take(i as int),
        decreases s@.len() - i,
    {
        out.push(s[i]);
        proof {
            assert(s@.take(i + 1) =~= s@.take(i as int).push(s@[i as int]));
            assert(old(out)@ + s@.take(i + 1) =~= (old(out)@ + s@.take(i as int)).push(
                s@[i as int],
            ));
        }
        i += 1;
    }
    proof {
        assert(s@.take(s@.len() as int) =~= s@);
    }
}

/// The ASCII digit for one hexadecimal value (lower case).
pub fn hex_digit_exec(n: u8) -> (r: u8)
    requires
        n < 16,
    ensures
        r == hex_digit(n as int),
{
    if n < 10 {
        48 + n
    } else {
        87 + n
    }
}

/// Appends the JSON escape of a byte slice of string content.
pub fn append_escaped(out: &mut Vec<u8>, s: &[u8])
    ensures
        final(out)@ == old(out)@ + escape_bytes(s@),
{
    let mut i: usize = 0;
    proof {
        assert(escape_bytes(s@.take(0)) =~= Seq::<u8>::empty());
        assert(out@ =~= old(out)@ + escape_bytes(s@.take(0)));
    }
    while i < s.len()
        invariant
            i <= s@.len(),
            out@ == old(out)@ + escape_bytes(s@.take(i as int)),
        decreases s@.len() - i,
    {
        let b = s[i];
        let ghost pre = out@;
        if b == 34 {
            out.push(92);
            out.push(34);
        } else if b == 92 {
            out.push(92);
            out.push(92);
        } else if b < 32 {
            out.push(92);
            out.push(117);
            out.push(48);
            out.push(48);
            out.push(hex_digit_exec(b / 16));
            out.push(hex_digit_exec(b % 16));
        } else {
            out.push(b);
        }
        proof {
            assert(out@ =~= pre + escape_byte(s@[i as int]));
            assert(s@.take(i + 1) =~= s@.take(i as int) + seq![s@[i as int]]);
            lemma_escape_bytes_concat(s@.take(i as int), seq![s@[i as int]]);
            reveal_with_fuel(escape_bytes, 2);
            assert(seq![s@[i as int]].skip(1) =~= Seq::<u8>::empty());
            assert(escape_bytes(seq![s@[i as int]]) =~= escape_byte(s@[i as int]));
            assert(out@ =~= old(out)@ + escape_bytes(s@.take(i + 1)));
        }
        i += 1;
    }
    proof {
        assert(s@.take(s@.len() as int) =~= s@);
    }
}

/// Appends a quoted, escaped JSON string.
pub fn append_json_string(out: &mut Vec<u8>, s: &str)
    ensures
        final(out)@ == old(out)@ + json_string(s@),
{
    out.push(34);
    append_escaped(out, s.as_bytes());
    out.push(34);
    proof {
        assert(out@ =~= old(out)@ + json_string(s@));
    }
}

/// Appends the decimal digits of `n`, most significant first.
pub fn append_u64_dec(out: &mut Vec<u8>, n: u64)
    ensures
        final(out)@ == old(out)@ + dec_digits(n as int),
{
    let mut tmp: Vec<u8> = Vec::new();
    let mut m: u64 = n;
    while m >= 10
        invariant
            dec_digits(n as int) == dec_digits(m as int) + tmp@,
        decreases m,
    {
        let d: u8 = 48 + (m % 10) as u8;
        let ghost pre = tmp@;
        tmp.insert(0, d);
        proof {
            assert(tmp@ =~= seq![d] + pre);
            assert(dec_digits(m as int) =~= dec_digits(m as int / 10) + seq![d]);
            assert(dec_digits(m as int / 10) + (seq![d] + pre) =~= (dec_digits(m as int / 10)
                + seq![d]) + pre);
        }
        m = m / 10;
    }
    let d: u8 = 48 + (m % 10) as u8;
    let ghost pre = tmp@;
    tmp.insert(0, d);
    proof {
        assert(tmp@ =~= seq![d] + pre);
        assert(dec_digits(m as int) =~= seq![d]);
        assert(dec_digits(n as int) =~= tmp@);
    }
    append_slice(out, tmp.as_slice());
}

/// Appends a decimal integer, signed.
pub fn append_i64_dec(out: &mut Vec<u8>, n: i64)
    ensures
        final(out)@ == old(out)@ + dec_signed(n as int),
{
    if n < 0 {
        out.push(45);
        let m: u64 = (-(n as i128)) as u64;
        let ghost pre = out@;
        append_u64_dec(out, m);
        proof {
            assert(m as int == -(n as int));
            assert(out@ =~= old(out)@ + dec_signed(n as int));
        }
    } else {
        append_u64_dec(out, n as u64);
    }
}

/// Appends the lower-case hexadecimal rendering of a byte slice.
pub fn append_hex(out: &mut Vec<u8>, s: &[u8])
    ensures
        final(out)@ == old(out)@ + hex_bytes(s@),
{
    let mut i: usize = 0;
    proof {
        assert(hex_bytes(s@.take(0)) =~= Seq::<u8>::empty());
        assert(out@ =~= old(out)@ + hex_bytes(s@.take(0)));
    }
    while i < s.len()
        invariant
            i <= s@.len(),
            out@ == old(out)@ + hex_bytes(s@.take(i as int)),
        decreases s@.len() - i,
    {
        let b = s[i];
        let ghost pre = out@;
        out.push(hex_digit_exec(b / 16));
        out.push(hex_digit_exec(b % 16));
        proof {
            let one = seq![s@[i as int]];
            assert(out@ =~= pre + seq![
                hex_digit(s@[i as int] as int / 16),
                hex_digit(s@[i as int] as int % 16),
            ]);
            assert(s@.take(i + 1) =~= s@.take(i as int) + one);
            lemma_hex_bytes_concat(s@.take(i as int), one);
            reveal_with_fuel(hex_bytes, 2);
            assert(one.skip(1) =~= Seq::<u8>::empty());
            assert(hex_bytes(one) =~= seq![
                hex_digit(s@[i as int] as int / 16),
                hex_digit(s@[i as int] as int % 16),
            ]);
            assert(out@ =~= old(out)@ + hex_bytes(s@.take(i + 1)));
        }
        i += 1;
    }
    proof {
        assert(s@.take(s@.len() as int) =~= s@);
    }
}

/// A list of quoted strings after the first: each preceded by a comma.
pub open spec fn json_more_strings(fs: Seq<Seq<char>>) -> Seq<u8>
    decreases fs.len(),
{
    if fs.len() == 0 {
        Seq::<u8>::empty()
    } else {
        seq![44u8] + json_string(fs[0]) + json_more_strings(fs.skip(1))
    }
}

/// The contents of a JSON array of strings, without the brackets.
pub open spec fn json_strings(fs: Seq<Seq<char>>) -> Seq<u8> {
    if fs.len() == 0 {
        Seq::<u8>::empty()
    } else {
        json_string(fs[0]) + json_more_strings(fs.skip(1))
    }
}

/// Comma-prefixed items distribute over concatenation.
proof fn lemma_json_more_strings_concat(a: Seq<Seq<char>>, b: Seq<Seq<char>>)
    ensures
        json_more_strings(a + b) == json_more_strings(a) + json_more_strings(b),
    decreases a.len(),
{
    if a.len() == 0 {
        assert(a + b =~= b);
        assert(json_more_strings(a) + json_more_strings(b) =~= json_more_strings(b));
    } else {
        assert((a + b)[0] == a[0]);
        assert((a + b).skip(1) =~~= a.skip(1) + b);
        lemma_json_more_strings_concat(a.skip(1), b);
        let h = seq![44u8] + json_string(a[0]);
        assert(h + (json_more_strings(a.skip(1)) + json_more_strings(b)) =~= (h
            + json_more_strings(a.skip(1))) + json_more_strings(b));
    }
}

/// Appends the comma-separated, quoted items of a string list.
pub fn append_json_strings(out: &mut Vec<u8>, fs: &Vec<String>)
    ensures
        final(out)@ == old(out)@ + json_strings(fs.deep_view()),
{
    if fs.len() == 0 {
        proof {
            assert(out@ =~= old(out)@ + json_strings(fs.deep_view()));
        }
        return ;
    }
    append_json_string(out, fs[0].as_str());
    let mut i: usize = 1;
    proof {
        assert(fs.deep_view().subrange(1, 1) =~~= Seq::<Seq<char>>::empty());
        assert(out@ =~= old(out)@ + json_string(fs.deep_view()[0]) + json_more_strings(
            fs.deep_view().subrange(1, 1),
        ));
    }
    while i < fs.len()
        invariant
            1 <= i <= fs.deep_view().len(),
            fs.deep_view().len() >= 1,
            out@ == old(out)@ + json_string(fs.deep_view()[0]) + json_more_strings(
                fs.deep_view().subrange(1, i as int),
            ),
        decreases fs.deep_view().len() - i,
    {
        let ghost pre = out@;
        out.push(44);
        append_json_string(out, fs[i].as_str());
        proof {
            let dv = fs.deep_view();
            let one = seq![dv[i as int]];
            assert(out@ =~= pre + (seq![44u8] + json_string(dv[i as int])));
            assert(dv.subrange(1, i + 1) =~~= dv.subrange(1, i as int) + one);
            lemma_json_more_strings_concat(dv.subrange(1, i as int), one);
            reveal_with_fuel(json_more_strings, 2);
            assert(one.skip(1) =~~= Seq::<Seq<char>>::empty());
            assert(json_more_strings(one) =~= seq![44u8] + json_string(dv[i as int]));
            assert(out@ =~= old(out)@ + json_string(dv[0]) + json_more_strings(
                dv.subrange(1, i + 1),
            ));
        }
        i += 1;
    }
    proof {
        let dv = fs.deep_view();
        assert(dv.subrange(1, dv.len() as int) =~~= dv.skip(1));
        assert(out@ =~= old(out)@ + json_strings(dv));
    }
}

} // verus!
