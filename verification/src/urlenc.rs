//! Percent-encoding of URL components and decoding of ASCII percent-escapes.

use vstd::prelude::*;

verus! {

/// Relies on String::push: appends exactly the one character.
#[verifier::external_body]
fn push_char(s: &mut String, c: char)
    ensures
        final(s)@ == old(s)@.push(c),
{
    s.push(c);
}

/// Unreserved characters kept verbatim by the encoder.
pub open spec fn is_unreserved(c: char) -> bool {
    ||| 97 <= c as u32 && c as u32 <= 122
    ||| 65 <= c as u32 && c as u32 <= 90
    ||| 48 <= c as u32 && c as u32 <= 57
    ||| c == '-'
    ||| c == '_'
    ||| c == '.'
    ||| c == '~'
}

/// Uppercase hexadecimal digit character for `d < 16`.
pub open spec fn hexchar(d: u8) -> char {
    if d == 0 {
        '0'
    } else if d == 1 {
        '1'
    } else if d == 2 {
        '2'
    } else if d == 3 {
        '3'
    } else if d == 4 {
        '4'
    } else if d == 5 {
        '5'
    } else if d == 6 {
        '6'
    } else if d == 7 {
        '7'
    } else if d == 8 {
        '8'
    } else if d == 9 {
        '9'
    } else if d == 10 {
        'A'
    } else if d == 11 {
        'B'
    } else if d == 12 {
        'C'
    } else if d == 13 {
        'D'
    } else if d == 14 {
        'E'
    } else {
        'F'
    }
}

/// `%XX` escape of one byte.
pub open spec fn pct_byte(b: u8) -> Seq<char> {
    seq!['%', hexchar(b / 16), hexchar(b % 16)]
}

/// UTF-8 bytes of a unicode scalar value.
pub open spec fn utf8_bytes(cp: u32) -> Seq<u8> {
    if cp < 0x80 {
        seq![cp as u8]
    } else if cp < 0x800 {
        seq![(0xc0 + cp / 64) as u8, (0x80 + cp % 64) as u8]
    } else if cp < 0x10000 {
        seq![(0xe0 + cp / 4096) as u8, (0x80 + (cp / 64) % 64) as u8, (0x80 + cp % 64) as u8]
    } else {
        seq![
            (0xf0 + cp / 262144) as u8,
            (0x80 + (cp / 4096) % 64) as u8,
            (0x80 + (cp / 64) % 64) as u8,
            (0x80 + cp % 64) as u8,
        ]
    }
}

pub open spec fn pct_bytes(bs: Seq<u8>) -> Seq<char>
    decreases bs.len(),
{
    if bs.len() == 0 {
        Seq::<char>::empty()
    } else {
        pct_byte(bs[0]) + pct_bytes(bs.subrange(1, bs.len() as int))
    }
}

/// Encoding of one character: kept verbatim when unreserved (or a slash,
/// when slashes are kept), otherwise each UTF-8 byte becomes `%XX`.
pub open spec fn pct_char(c: char, keep_slash: bool) -> Seq<char> {
    if is_unreserved(c) || (keep_slash && c == '/') {
        seq![c]
    } else {
        pct_bytes(utf8_bytes(c as u32))
    }
}

/// Percent-encoding of a whole string.
pub open spec fn pct_encode_seq(s: Seq<char>, keep_slash: bool) -> Seq<char>
    decreases s.len(),
{
    if s.len() == 0 {
        Seq::<char>::empty()
    } else {
        pct_encode_seq(s.subrange(0, s.len() - 1), keep_slash) + pct_char(s[s.len() - 1], keep_slash)
    }
}

fn is_unreserved_exec(c: char) -> (r: bool)
    ensures
        r == is_unreserved(c),
{
    let u = c as u32;
    (97 <= u && u <= 122) || (65 <= u && u <= 90) || (48 <= u && u <= 57) || c == '-' || c == '_'
        || c == '.' || c == '~'
}

fn hexchar_exec(d: u8) -> (r: char)
    requires
        d < 16,
    ensures
        r == hexchar(d),
{
    match d {
        0 => '0',
        1 => '1',
        2 => '2',
        3 => '3',
        4 => '4',
        5 => '5',
        6 => '6',
        7 => '7',
        8 => '8',
        9 => '9',
        10 => 'A',
        11 => 'B',
        12 => 'C',
        13 => 'D',
        14 => 'E',
        _ => 'F',
    }
}

proof fn lemma_pct_bytes1(b0: u8)
    ensures
        pct_bytes(seq![b0]) == pct_byte(b0),
{
    assert(seq![b0].subrange(1, 1) =~= Seq::<u8>::empty());
    assert(pct_bytes(Seq::<u8>::empty()) == Seq::<char>::empty());
    assert(pct_bytes(seq![b0]) =~= pct_byte(b0));
}

proof fn lemma_pct_bytes2(b0: u8, b1: u8)
    ensures
        pct_bytes(seq![b0, b1]) == pct_byte(b0) + pct_byte(b1),
{
    lemma_pct_bytes1(b1);
    assert(seq![b0, b1].subrange(1, 2) =~= seq![b1]);
    assert(pct_bytes(seq![b0, b1]) =~= pct_byte(b0) + pct_byte(b1));
}

proof fn lemma_pct_bytes3(b0: u8, b1: u8, b2: u8)
    ensures
        pct_bytes(seq![b0, b1, b2]) == pct_byte(b0) + pct_byte(b1) + pct_byte(b2),
{
    lemma_pct_bytes2(b1, b2);
    assert(seq![b0, b1, b2].subrange(1, 3) =~= seq![b1, b2]);
    assert(pct_bytes(seq![b0, b1, b2]) =~= pct_byte(b0) + pct_byte(b1) + pct_byte(b2));
}

proof fn lemma_pct_bytes4(b0: u8, b1: u8, b2: u8, b3: u8)
    ensures
        pct_bytes(seq![b0, b1, b2, b3]) == pct_byte(b0) + pct_byte(b1) + pct_byte(b2) + pct_byte(
            b3,
        ),
{
    lemma_pct_bytes3(b1, b2, b3);
    assert(seq![b0, b1, b2, b3].subrange(1, 4) =~= seq![b1, b2, b3]);
    assert(pct_bytes(seq![b0, b1, b2, b3]) =~= pct_byte(b0) + pct_byte(b1) + pct_byte(b2)
        + pct_byte(b3));
}

fn append_pct_byte(out: &mut String, b: u8)
    ensures
        final(out)@ == old(out)@ + pct_byte(b),
{
    push_char(out, '%');
    push_char(out, hexchar_exec(b / 16));
    push_char(out, hexchar_exec(b % 16));
    proof {
        assert(out@ =~= old(out)@ + pct_byte(b));
    }
}

fn append_encoded_char(out: &mut String, c: char)
    ensures
        final(out)@ == old(out)@ + pct_bytes(utf8_bytes(c as u32)),
{
    let cp = c as u32;
    if cp < 0x80 {
        let b0: u8 = cp as u8;
        append_pct_byte(out, b0);
        proof {
            lemma_pct_bytes1(b0);
            assert(utf8_bytes(c as u32) =~= seq![b0]);
            assert(out@ =~= old(out)@ + pct_bytes(utf8_bytes(c as u32)));
        }
    } else if cp < 0x800 {
        let b0: u8 = (0xc0 + cp / 64) as u8;
        let b1: u8 = (0x80 + cp % 64) as u8;
        append_pct_byte(out, b0);
        append_pct_byte(out, b1);
        proof {
            lemma_pct_bytes2(b0, b1);
            assert(utf8_bytes(c as u32) =~= seq![b0, b1]);
            assert(out@ =~= old(out)@ + pct_bytes(utf8_bytes(c as u32)));
        }
    } else if cp < 0x10000 {
        let b0: u8 = (0xe0 + cp / 4096) as u8;
        let b1: u8 = (0x80 + (cp / 64) % 64) as u8;
        let b2: u8 = (0x80 + cp % 64) as u8;
        append_pct_byte(out, b0);
        append_pct_byte(out, b1);
        append_pct_byte(out, b2);
        proof {
            lemma_pct_bytes3(b0, b1, b2);
            assert(utf8_bytes(c as u32) =~= seq![b0, b1, b2]);
            assert(out@ =~= old(out)@ + pct_bytes(utf8_bytes(c as u32)));
        }
    } else {
        let b0: u8 = (0xf0 + cp / 262144) as u8;
        let b1: u8 = (0x80 + (cp / 4096) % 64) as u8;
        let b2: u8 = (0x80 + (cp / 64) % 64) as u8;
        let b3: u8 = (0x80 + cp % 64) as u8;
        append_pct_byte(out, b0);
        append_pct_byte(out, b1);
        append_pct_byte(out, b2);
        append_pct_byte(out, b3);
        proof {
            lemma_pct_bytes4(b0, b1, b2, b3);
            assert(utf8_bytes(c as u32) =~= seq![b0, b1, b2, b3]);
            assert(out@ =~= old(out)@ + pct_bytes(utf8_bytes(c as u32)));
        }
    }
}

/// Percent-encodes a string for safe embedding in a URL; path components
/// keep their slashes, query values do not.
pub fn percent_encode(s: &str, keep_slash: bool) -> (r: String)
    ensures
        r@ == pct_encode_seq(s@, keep_slash),
{
    let slen: usize = s.unicode_len();
    let mut out = String::new();
    let mut i: usize = 0;
    while i < slen
        invariant
            0 <= i <= slen,
            slen == s@.len(),
            out@ == pct_encode_seq(s@.subrange(0, i as int), keep_slash),
        decreases slen - i,
    {
        let c = s.get_char(i);
        if is_unreserved_exec(c) || (keep_slash && c == '/') {
            push_char(&mut out, c);
        } else {
            append_encoded_char(&mut out, c);
        }
        proof {
            let pre = s@.subrange(0, i as int);
            let ext = s@.subrange(0, i + 1);
            assert(ext.subrange(0, ext.len() - 1) =~= pre);
            assert(ext[ext.len() - 1] == s@[i as int]);
            if is_unreserved(c) || (keep_slash && c == '/') {
                assert(out@ =~= pct_encode_seq(ext, keep_slash));
            } else {
                assert(out@ =~= pct_encode_seq(ext, keep_slash));
            }
        }
        i = i + 1;
    }
    proof {
        assert(s@.subrange(0, slen as int) =~= s@);
    }
    out
}

pub open spec fn is_hex_char(c: char) -> bool {
    ||| 48 <= c as u32 && c as u32 <= 57
    ||| 97 <= c as u32 && c as u32 <= 102
    ||| 65 <= c as u32 && c as u32 <= 70
}

pub open spec fn hex_val(c: char) -> u32 {
    if 48 <= c as u32 && c as u32 <= 57 {
        (c as u32 - 48) as u32
    } else if 97 <= c as u32 && c as u32 <= 102 {
        (c as u32 - 87) as u32
    } else {
        (c as u32 - 55) as u32
    }
}

/// Decoding of ASCII percent-escapes: a `%XX` group whose value is below
/// 0x80 becomes that character; anything else, including multi-byte escapes,
/// is left intact.
pub open spec fn pct_decode_seq(s: Seq<char>) -> Seq<char>
    decreases s.len(),
{
    if s.len() == 0 {
        Seq::<char>::empty()
    } else if s[0] == '%' && s.len() >= 3 && is_hex_char(s[1]) && is_hex_char(s[2]) && hex_val(
        s[1],
    ) * 16 + hex_val(s[2]) < 0x80 {
        seq![((hex_val(s[1]) * 16 + hex_val(s[2])) as u8) as char] + pct_decode_seq(
            s.subrange(3, s.len() as int),
        )
    } else {
        seq![s[0]] + pct_decode_seq(s.subrange(1, s.len() as int))
    }
}

fn hex_val_exec(c: char) -> (r: Option<u8>)
    ensures
        match r {
            Some(v) => is_hex_char(c) && v == hex_val(c) && v < 16,
            None => !is_hex_char(c),
        },
{
    let u = c as u32;
    if 48 <= u && u <= 57 {
        Some((u - 48) as u8)
    } else if 97 <= u && u <= 102 {
        Some((u - 87) as u8)
    } else if 65 <= u && u <= 70 {
        Some((u - 55) as u8)
    } else {
        None
    }
}

/// Decodes ASCII percent-escapes in a request path.
pub fn percent_decode(s: &str) -> (r: String)
    ensures
        r@ == pct_decode_seq(s@),
{
    let slen: usize = s.unicode_len();
    let mut out = String::new();
    let mut i: usize = 0;
    proof {
        assert(s@.subrange(0, slen as int) =~= s@);
        assert(Seq::<char>::empty() + pct_decode_seq(s@) =~= pct_decode_seq(s@));
    }
    while i < slen
        invariant
            0 <= i <= slen,
            slen == s@.len(),
            out@ + pct_decode_seq(s@.subrange(i as int, slen as int)) == pct_decode_seq(s@),
        decreases slen - i,
    {
        let c = s.get_char(i);
        let ghost rest = s@.subrange(i as int, slen as int);
        if c == '%' && slen - i >= 3 {
            let h1 = hex_val_exec(s.get_char(i + 1));
            let h2 = hex_val_exec(s.get_char(i + 2));
            match (h1, h2) {
                (Some(v1), Some(v2)) => {
                    let v: u32 = (v1 as u32) * 16 + (v2 as u32);
                    if v < 0x80 {
                        push_char(&mut out, (v as u8) as char);
                        proof {
                            assert(rest.subrange(3, rest.len() as int) =~= s@.subrange(
                                i + 3,
                                slen as int,
                            ));
                            assert(out@ + pct_decode_seq(s@.subrange(i + 3, slen as int))
                                =~= pct_decode_seq(s@));
                        }
                        i = i + 3;
                    } else {
                        push_char(&mut out, c);
                        proof {
                            assert(rest.subrange(1, rest.len() as int) =~= s@.subrange(
                                i + 1,
                                slen as int,
                            ));
                            assert(out@ + pct_decode_seq(s@.subrange(i + 1, slen as int))
                                =~= pct_decode_seq(s@));
                        }
                        i = i + 1;
                    }
                },
                _ => {
                    push_char(&mut out, c);
                    proof {
                        assert(rest.subrange(1, rest.len() as int) =~= s@.subrange(
                            i + 1,
                            slen as int,
                        ));
                        assert(out@ + pct_decode_seq(s@.subrange(i + 1, slen as int))
                            =~= pct_decode_seq(s@));
                    }
                    i = i + 1;
                },
            }
        } else {
            push_char(&mut out, c);
            proof {
                assert(rest.subrange(1, rest.len() as int) =~= s@.subrange(i + 1, slen as int));
                assert(out@ + pct_decode_seq(s@.subrange(i + 1, slen as int)) =~= pct_decode_seq(
                    s@,
                ));
            }
            i = i + 1;
        }
    }
    proof {
        assert(s@.subrange(slen as int, slen as int) =~= Seq::<char>::empty());
        assert(out@ =~= out@ + Seq::<char>::empty());
    }
    out
}

} // verus!
