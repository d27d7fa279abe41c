//! Canonical Base64 encoding of byte sequences: standard alphabet
//! (`A-Z a-z 0-9 + /`), `=`-padded, no line wrapping.

use vstd::prelude::*;

verus! {

/// The character the standard Base64 alphabet assigns to a 6-bit value.
pub open spec fn b64_char(v: int) -> char {
    if 0 <= v && v < 26 {
        ((65 + v) as u8) as char
    } else if 26 <= v && v < 52 {
        ((71 + v) as u8) as char
    } else if 52 <= v && v < 62 {
        ((v - 4) as u8) as char
    } else if v == 62 {
        '+'
    } else {
        '/'
    }
}

/// Canonical Base64 text of a byte sequence: three input bytes give four
/// characters; a trailing group of one or two bytes is padded with `=` up to
/// the four-character quantum.
pub open spec fn b64_of(s: Seq<u8>) -> Seq<char>
    decreases s.len(),
{
    if s.len() == 0 {
        Seq::empty()
    } else if s.len() == 1 {
        let b0 = s[0] as int;
        seq![b64_char(b0 / 4), b64_char((b0 % 4) * 16), '=', '=']
    } else if s.len() == 2 {
        let b0 = s[0] as int;
        let b1 = s[1] as int;
        seq![
            b64_char(b0 / 4),
            b64_char((b0 % 4) * 16 + b1 / 16),
            b64_char((b1 % 16) * 4),
            '=',
        ]
    } else {
        let b0 = s[0] as int;
        let b1 = s[1] as int;
        let b2 = s[2] as int;
        seq![
            b64_char(b0 / 4),
            b64_char((b0 % 4) * 16 + b1 / 16),
            b64_char((b1 % 16) * 4 + b2 / 64),
            b64_char(b2 % 64),
        ] + b64_of(s.skip(3))
    }
}

/// Base64 encoding concatenates over any split at a multiple of three bytes.
pub proof fn lemma_b64_append(a: Seq<u8>, b: Seq<u8>)
    requires
        a.len() % 3 == 0,
    ensures
        b64_of(a + b) == b64_of(a) + b64_of(b),
    decreases a.len(),
{
    if a.len() == 0 {
        assert(a + b =~= b);
        assert(b64_of(a) + b64_of(b) =~= b64_of(b));
    } else {
        assert(a.len() >= 3);
        assert((a + b).skip(3) =~= a.skip(3) + b);
        assert(a.skip(3).len() % 3 == 0);
        lemma_b64_append(a.skip(3), b);
        if b.len() == 0 {
            assert(a + b =~= a);
            assert(b64_of(b) =~= Seq::<char>::empty());
            assert(b64_of(a) + b64_of(b) =~= b64_of(a));
        } else {
            assert((a + b)[0] == a[0]);
            assert((a + b)[1] == a[1]);
            assert((a + b)[2] == a[2]);
            assert(b64_of(a + b) =~= b64_of(a) + b64_of(b));
        }
    }
}

fn b64_char_exec(v: u8) -> (c: char)
    requires
        v < 64,
    ensures
        c == b64_char(v as int),
{
    if v < 26 {
        (65 + v) as char
    } else if v < 52 {
        (71 + v) as char
    } else if v < 62 {
        (v - 4) as char
    } else if v == 62 {
        '+'
    } else {
        '/'
    }
}

/// Encodes bytes as canonical Base64, returned as a vector of characters.
pub fn base64_chars(data: &Vec<u8>) -> (r: Vec<char>)
    ensures
        r@ == b64_of(data@),
{
    let mut out: Vec<char> = Vec::new();
    let mut i: usize = 0;
    while i < data.len() && data.len() - i >= 3
        invariant
            i % 3 == 0,
            i <= data.len(),
            out@ == b64_of(data@.take(i as int)),
        decreases data.len() - i,
    {
        let b0 = data[i];
        let b1 = data[i + 1];
        let b2 = data[i + 2];
        out.push(b64_char_exec(b0 / 4));
        out.push(b64_char_exec((b0 % 4) * 16 + b1 / 16));
        out.push(b64_char_exec((b1 % 16) * 4 + b2 / 64));
        out.push(b64_char_exec(b2 % 64));
        proof {
            let pre = data@.take(i as int);
            let chunk = data@.subrange(i as int, i + 3);
            assert(data@.take(i + 3) =~= pre + chunk);
            lemma_b64_append(pre, chunk);
            assert(chunk.len() == 3);
            assert(chunk[0] == b0 && chunk[1] == b1 && chunk[2] == b2);
            assert(chunk.skip(3) =~= Seq::<u8>::empty());
            assert(b64_of(chunk.skip(3)) == Seq::<char>::empty());
            assert(b64_of(chunk) =~= seq![
                b64_char(b0 as int / 4),
                b64_char((b0 as int % 4) * 16 + b1 as int / 16),
                b64_char((b1 as int % 16) * 4 + b2 as int / 64),
                b64_char(b2 as int % 64),
            ]);
            assert(out@ =~= b64_of(data@.take(i + 3)));
        }
        i = i + 3;
    }
    proof {
        let pre = data@.take(i as int);
        let tail = data@.skip(i as int);
        assert(data@ =~= pre + tail);
        lemma_b64_append(pre, tail);
    }
    if i < data.len() {
        let b0 = data[i];
        if i + 1 < data.len() {
            let b1 = data[i + 1];
            out.push(b64_char_exec(b0 / 4));
            out.push(b64_char_exec((b0 % 4) * 16 + b1 / 16));
            out.push(b64_char_exec((b1 % 16) * 4));
            out.push('=');
            proof {
                let tail = data@.skip(i as int);
                assert(tail.len() == 2);
                assert(tail[0] == data@[i as int] && tail[1] == data@[i + 1]);
                assert(out@ =~= b64_of(data@));
            }
        } else {
            out.push(b64_char_exec(b0 / 4));
            out.push(b64_char_exec((b0 % 4) * 16));
            out.push('=');
            out.push('=');
            proof {
                let tail = data@.skip(i as int);
                assert(tail.len() == 1);
                assert(tail[0] == data@[i as int]);
                assert(out@ =~= b64_of(data@));
            }
        }
    } else {
        proof {
            let tail = data@.skip(i as int);
            assert(tail.len() == 0);
            assert(b64_of(tail) =~= Seq::<char>::empty());
            assert(out@ =~= b64_of(data@));
        }
    }
    out
}

/// Encodes bytes as canonical Base64 text.
pub fn base64_encode(data: &Vec<u8>) -> (r: String)
    ensures
        r@ == b64_of(data@),
{
    crate::codec::string_from_chars(base64_chars(data))
}

} // verus!
