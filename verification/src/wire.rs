//! Canonical byte encodings shared by digests, cache keys and the document
//! codec: little-endian integers and length-prefixed byte strings.

use vstd::prelude::*;
use vstd::bytes::{spec_u64_to_le_bytes, u64_from_le_bytes, u64_to_le_bytes};
use vstd::utf8::encode_utf8;
use vstd::string::StringSliceAdditionalSpecFns;

verus! {

/// The 8-byte little-endian encoding of a `u64`.
pub open spec fn u64_le(x: u64) -> Seq<u8> {
    spec_u64_to_le_bytes(x)
}

/// A byte string prefixed with its length.
pub open spec fn enc_bytes(b: Seq<u8>) -> Seq<u8> {
    u64_le(b.len() as u64) + b
}

/// A character string prefixed with the length of its UTF-8 encoding.
pub open spec fn enc_str(s: Seq<char>) -> Seq<u8> {
    enc_bytes(encode_utf8(s))
}

/// Little-endian `u64` encoding is injective.
pub proof fn lemma_u64_le_injective(x: u64, y: u64)
    requires
        u64_le(x) == u64_le(y),
    ensures
        x == y,
{
    vstd::bytes::lemma_auto_spec_u64_to_from_le_bytes();
}

/// Appends the little-endian encoding of `x` to `out`.
pub fn push_u64(out: &mut Vec<u8>, x: u64)
    ensures
        final(out)@ == old(out)@ + u64_le(x),
{
    let bytes = u64_to_le_bytes(x);
    out.extend_from_slice(bytes.as_slice());
}

/// Appends a length-prefixed copy of `data` to `out`.
pub fn push_len_bytes(out: &mut Vec<u8>, data: &[u8])
    ensures
        final(out)@ == old(out)@ + enc_bytes(data@),
    {
    push_u64(out, data.len() as u64);
    out.extend_from_slice(data);
    assert(out@ =~= old(out)@ + enc_bytes(data@));
}

/// Appends a length-prefixed copy of the UTF-8 bytes of `s` to `out`.
pub fn push_len_str(out: &mut Vec<u8>, s: &str)
    ensures
        final(out)@ == old(out)@ + enc_str(s@),
{
    push_len_bytes(out, s.as_bytes());
}

/// Appends a raw copy of `data` to `out`.
pub fn push_raw(out: &mut Vec<u8>, data: &[u8])
    ensures
        final(out)@ == old(out)@ + data@,
{
    out.extend_from_slice(data);
}

/// Reads a `u64` at `pos`; succeeds exactly when 8 bytes remain.
pub fn take_u64(data: &[u8], pos: usize) -> (r: Option<(u64, usize)>)
    ensures
        r matches Some((x, p)) ==> {
            &&& p == pos + 8
            &&& pos + 8 <= data@.len()
            &&& data@.subrange(pos as int, p as int) == u64_le(x)
        },
        pos + 8 <= data@.len() ==> r is Some,
        forall|x: u64| pos + 8 <= data@.len()
            && data@.subrange(pos as int, pos + 8) == u64_le(x)
            ==> r == Some((x, (pos + 8) as usize)),
{
    if pos <= data.len() && data.len() - pos >= 8 {
        let end = pos + 8;
        let slice = &data[pos..end];
        let x = u64_from_le_bytes(slice);
        proof {
            vstd::bytes::lemma_auto_spec_u64_to_from_le_bytes();
        }
        Some((x, end))
    } else {
        None
    }
}

/// Copies `data[from..to]` into a fresh vector.
pub fn copy_range(data: &[u8], from: usize, to: usize) -> (r: Vec<u8>)
    requires
        from <= to <= data@.len(),
    ensures
        r@ == data@.subrange(from as int, to as int),
{
    let slice = &data[from..to];
    let mut out: Vec<u8> = Vec::new();
    out.extend_from_slice(slice);
    out
}

/// Reads a length-prefixed byte string at `pos`.
pub fn take_len_bytes(data: &[u8], pos: usize) -> (r: Option<(Vec<u8>, usize)>)
    ensures
        r matches Some((v, p)) ==> {
            &&& pos <= p <= data@.len()
            &&& data@.subrange(pos as int, p as int) == enc_bytes(v@)
        },
        forall|b: Seq<u8>| pos + enc_bytes(b).len() <= data@.len()
            && data@.subrange(pos as int, pos + enc_bytes(b).len()) == enc_bytes(b)
            ==> (r matches Some((v, p)) && v@ == b && p == pos + enc_bytes(b).len()),
{
    proof {
        vstd::bytes::lemma_auto_spec_u64_to_from_le_bytes();
    }
    let (len, after_len) = match take_u64(data, pos) {
        Some(x) => x,
        None => {
            proof {
                assert forall|b: Seq<u8>| pos + enc_bytes(b).len() <= data@.len()
                    && data@.subrange(pos as int, pos + enc_bytes(b).len()) == enc_bytes(b)
                    implies false by {
                    assert(enc_bytes(b).len() == 8 + b.len());
                };
            }
            return None;
        },
    };
    if len > u64::MAX - after_len as u64 || after_len as u64 + len > data.len() as u64 {
        proof {
            assert forall|b: Seq<u8>| pos + enc_bytes(b).len() <= data@.len()
                && data@.subrange(pos as int, pos + enc_bytes(b).len()) == enc_bytes(b)
                implies false by {
                vstd::bytes::lemma_auto_spec_u64_to_from_le_bytes();
                assert(data@.len() == vstd::slice::spec_slice_len(data));
                assert(u64_le(b.len() as u64).len() == 8);
                assert(enc_bytes(b) == u64_le(b.len() as u64) + b);
                assert(enc_bytes(b).len() == 8 + b.len());
                assert(data@.subrange(pos as int, pos + 8)
                    =~= data@.subrange(pos as int, pos + enc_bytes(b).len()).subrange(0, 8));
                assert(data@.subrange(pos as int, pos + enc_bytes(b).len()).subrange(0, 8)
                    =~= u64_le(b.len() as u64));
                assert(u64_le(len) == u64_le(b.len() as u64));
                lemma_u64_le_injective(len, b.len() as u64);
                assert(b.len() <= data@.len());
                assert(b.len() as u64 == len);
                assert(len == b.len());
                assert(after_len + len <= data@.len());
            };
        }
        return None;
    }
    let end = after_len + len as usize;
    let v = copy_range(data, after_len, end);
    proof {
        assert(data@.subrange(pos as int, end as int) =~= enc_bytes(v@));
        assert forall|b: Seq<u8>| pos + enc_bytes(b).len() <= data@.len()
            && data@.subrange(pos as int, pos + enc_bytes(b).len()) == enc_bytes(b)
            implies v@ == b && end == pos + enc_bytes(b).len() by {
            assert(data@.subrange(pos as int, pos + 8)
                =~= data@.subrange(pos as int, pos + enc_bytes(b).len()).subrange(0, 8));
            assert(data@.subrange(pos as int, pos + 8) == u64_le(b.len() as u64));
            lemma_u64_le_injective(len, b.len() as u64);
            assert(b =~= data@.subrange(pos as int, pos + enc_bytes(b).len())
                .subrange(8, 8 + b.len() as int));
            assert(v@ =~= b);
        };
    }
    Some((v, end))
}

/// A subrange equal to a concatenation splits at the border of its parts.
pub proof fn lemma_split_head(data: Seq<u8>, pos: int, a: Seq<u8>, b: Seq<u8>)
    requires
        0 <= pos,
        pos + a.len() + b.len() <= data.len(),
        data.subrange(pos, pos + a.len() + b.len()) == a + b,
    ensures
        data.subrange(pos, pos + a.len()) == a,
        data.subrange(pos + a.len(), pos + a.len() + b.len()) == b,
{
    assert forall|i: int| 0 <= i < a.len() implies data.subrange(pos, pos + a.len())[i]
        == a[i] by {
        assert((a + b)[i] == data.subrange(pos, pos + a.len() + b.len())[i]);
    };
    assert(data.subrange(pos, pos + a.len()) =~= a);
    assert forall|i: int| 0 <= i < b.len() implies data.subrange(pos + a.len(), pos
        + a.len() + b.len())[i] == b[i] by {
        assert((a + b)[a.len() + i] == data.subrange(pos, pos + a.len() + b.len())[a.len()
            + i]);
        assert(data.subrange(pos, pos + a.len() + b.len())[a.len() + i] == data[pos
            + a.len() + i]);
        assert(data.subrange(pos + a.len(), pos + a.len() + b.len())[i] == data[pos
            + a.len() + i]);
    };
    assert(data.subrange(pos + a.len(), pos + a.len() + b.len()) =~= b);
}

/// Adjacent subranges join into the concatenation of their values.
pub proof fn lemma_join(data: Seq<u8>, pos: int, mid: int, end: int, a: Seq<u8>, b: Seq<u8>)
    requires
        0 <= pos <= mid <= end <= data.len(),
        data.subrange(pos, mid) == a,
        data.subrange(mid, end) == b,
    ensures
        data.subrange(pos, end) == a + b,
{
    assert(data.subrange(pos, end) =~= a + b);
}

/// Relies on slice::copy_from_slice: copies a 32-byte slice into an array.
#[verifier::external_body]
pub fn vec_to_array32(v: &Vec<u8>) -> (r: [u8; 32])
    requires
        v@.len() == 32,
    ensures
        r@ == v@,
{
    let mut out = [0u8; 32];
    out.copy_from_slice(v.as_slice());
    out
}

/// Relies on slice::copy_from_slice: copies a 12-byte slice into an array.
#[verifier::external_body]
pub fn vec_to_array12(v: &Vec<u8>) -> (r: [u8; 12])
    requires
        v@.len() == 12,
    ensures
        r@ == v@,
{
    let mut out = [0u8; 12];
    out.copy_from_slice(v.as_slice());
    out
}

/// Reads a length-prefixed UTF-8 string at `pos`.
pub fn take_len_str(data: &[u8], pos: usize) -> (r: Option<(String, usize)>)
    ensures
        r matches Some((s, p)) ==> {
            &&& pos <= p <= data@.len()
            &&& data@.subrange(pos as int, p as int) == enc_str(s@)
        },
        forall|t: Seq<char>| pos + enc_str(t).len() <= data@.len()
            && data@.subrange(pos as int, pos + enc_str(t).len()) == enc_str(t)
            ==> (r matches Some((s, p)) && s@ == t && p == pos + enc_str(t).len()),
{
    let parsed = take_len_bytes(data, pos);
    proof {
        broadcast use vstd::utf8::encode_utf8_valid_utf8;

    }
    match parsed {
        Some((v, p)) => {
            let ghost vb = v@;
            match utf8_to_string(v) {
                Ok(s) => {
                    proof {
                        vstd::utf8::decode_utf8_encode_utf8(vb);
                        assert forall|t: Seq<char>| pos + enc_str(t).len() <= data@.len()
                            && data@.subrange(pos as int, pos + enc_str(t).len()) == enc_str(t)
                            implies s@ == t && p == pos + enc_str(t).len() by {
                            vstd::utf8::encode_utf8_decode_utf8(t);
                        };
                    }
                    Some((s, p))
                },
                Err(_) => {
                    proof {
                        assert forall|t: Seq<char>| pos + enc_str(t).len() <= data@.len()
                            && data@.subrange(pos as int, pos + enc_str(t).len()) == enc_str(t)
                            implies false by {
                            assert(vb == encode_utf8(t));
                        };
                    }
                    None
                },
            }
        },
        None => {
            proof {
                assert forall|t: Seq<char>| pos + enc_str(t).len() <= data@.len()
                    && data@.subrange(pos as int, pos + enc_str(t).len()) == enc_str(t)
                    implies false by {
                    assert(data@.subrange(pos as int, pos + enc_bytes(encode_utf8(t)).len())
                        == enc_bytes(encode_utf8(t)));
                };
            }
            None
        },
    }
}

/// The lower-case hexadecimal digit of a value below sixteen.
pub open spec fn hex_char(n: u8) -> char
    recommends
        n < 16,
{
    if n == 0 { '0' } else if n == 1 { '1' } else if n == 2 { '2' } else if n == 3 { '3' }
    else if n == 4 { '4' } else if n == 5 { '5' } else if n == 6 { '6' }
    else if n == 7 { '7' } else if n == 8 { '8' } else if n == 9 { '9' }
    else if n == 10 { 'a' } else if n == 11 { 'b' } else if n == 12 { 'c' }
    else if n == 13 { 'd' } else if n == 14 { 'e' } else { 'f' }
}

/// The lower-case hexadecimal spelling of a byte string.
pub open spec fn hex_of(data: Seq<u8>) -> Seq<char>
    decreases data.len(),
{
    if data.len() == 0 {
        Seq::<char>::empty()
    } else {
        seq![hex_char(data[0] / 16), hex_char(data[0] % 16)] + hex_of(data.drop_first())
    }
}

/// The spelling of a prefix grows by one byte's two digits.
proof fn lemma_hex_take(data: Seq<u8>, i: int)
    requires
        0 <= i < data.len(),
    ensures
        hex_of(data.take(i + 1)) == hex_of(data.take(i)) + seq![hex_char(data[i] / 16),
            hex_char(data[i] % 16)],
    decreases i,
{
    if i == 0 {
        assert(data.take(1) =~= seq![data[0]]);
        assert(data.take(0) =~= Seq::<u8>::empty());
        assert(data.take(1).drop_first() =~= Seq::<u8>::empty());
        assert(hex_of(Seq::<u8>::empty()) == Seq::<char>::empty());
        assert(hex_of(data.take(1)) =~= hex_of(data.take(0)) + seq![hex_char(data[0] / 16),
            hex_char(data[0] % 16)]);
    } else {
        assert(data.take(i + 1)[0] == data[0]);
        assert(data.take(i)[0] == data[0]);
        assert(data.take(i + 1).drop_first() =~= data.drop_first().take(i));
        assert(data.take(i).drop_first() =~= data.drop_first().take(i - 1));
        assert(data.drop_first()[i - 1] == data[i]);
        lemma_hex_take(data.drop_first(), i - 1);
        assert(hex_of(data.take(i + 1)) =~= hex_of(data.take(i)) + seq![hex_char(
            data[i] / 16), hex_char(data[i] % 16)]);
    }
}

/// Appends one hexadecimal digit to a string.
fn hex_push(out: &mut String, n: u8)
    requires
        n < 16,
    ensures
        final(out)@ == old(out)@ + seq![hex_char(n)],
{
    if n == 0 {
        proof { reveal_strlit("0"); }
        out.append("0");
    } else if n == 1 {
        proof { reveal_strlit("1"); }
        out.append("1");
    } else if n == 2 {
        proof { reveal_strlit("2"); }
        out.append("2");
    } else if n == 3 {
        proof { reveal_strlit("3"); }
        out.append("3");
    } else if n == 4 {
        proof { reveal_strlit("4"); }
        out.append("4");
    } else if n == 5 {
        proof { reveal_strlit("5"); }
        out.append("5");
    } else if n == 6 {
        proof { reveal_strlit("6"); }
        out.append("6");
    } else if n == 7 {
        proof { reveal_strlit("7"); }
        out.append("7");
    } else if n == 8 {
        proof { reveal_strlit("8"); }
        out.append("8");
    } else if n == 9 {
        proof { reveal_strlit("9"); }
        out.append("9");
    } else if n == 10 {
        proof { reveal_strlit("a"); }
        out.append("a");
    } else if n == 11 {
        proof { reveal_strlit("b"); }
        out.append("b");
    } else if n == 12 {
        proof { reveal_strlit("c"); }
        out.append("c");
    } else if n == 13 {
        proof { reveal_strlit("d"); }
        out.append("d");
    } else if n == 14 {
        proof { reveal_strlit("e"); }
        out.append("e");
    } else {
        proof { reveal_strlit("f"); }
        out.append("f");
    }
    proof {
        assert(out@ =~= old(out)@ + seq![hex_char(n)]);
    }
}

/// The lower-case hexadecimal spelling of a byte slice.
pub fn to_hex(data: &[u8]) -> (r: String)
    ensures
        r@ == hex_of(data@),
{
    let mut out = String::new();
    let n = data.len();
    let mut i: usize = 0;
    proof {
        assert(data@.take(0) =~= Seq::<u8>::empty());
    }
    while i < n
        invariant
            n == data@.len(),
            i <= n,
            out@ == hex_of(data@.take(i as int)),
        decreases n - i,
    {
        let b = data[i];
        hex_push(&mut out, b / 16);
        hex_push(&mut out, b % 16);
        proof {
            lemma_hex_take(data@, i as int);
            assert(out@ =~= hex_of(data@.take(i + 1)));
        }
        i = i + 1;
    }
    proof {
        assert(data@.take(n as int) =~= data@);
    }
    out
}

/// Compares two byte slices for equality.
pub fn bytes_eq(a: &[u8], b: &[u8]) -> (r: bool)
    ensures
        r == (a@ == b@),
{
    if a.len() != b.len() {
        return false;
    }
    let n = a.len();
    let mut i: usize = 0;
    while i < n
        invariant
            n == a@.len() == b@.len(),
            i <= n,
            forall|j: int| 0 <= j < i ==> a@[j] == b@[j],
        decreases n - i,
    {
        if a[i] != b[i] {
            return false;
        }
        i = i + 1;
    }
    proof {
        assert(a@ =~= b@);
    }
    true
}

/// Compares two character strings for equality, through their UTF-8 bytes.
pub fn str_eq(a: &str, b: &str) -> (r: bool)
    ensures
        r == (a@ == b@),
{
    let r = bytes_eq(a.as_bytes(), b.as_bytes());
    proof {
        if a.spec_bytes() == b.spec_bytes() {
            vstd::utf8::encode_utf8_decode_utf8(a@);
            vstd::utf8::encode_utf8_decode_utf8(b@);
        }
    }
    r
}

/// Relies on String::from_utf8: succeeds exactly on valid UTF-8 and then
/// decodes it, as `vstd::utf8` specifies decoding.
#[verifier::external_body]
pub fn utf8_to_string(bytes: Vec<u8>) -> (r: Result<String, ()>)
    ensures
        r matches Ok(s) ==> vstd::utf8::valid_utf8(bytes@)
            && s@ == vstd::utf8::decode_utf8(bytes@),
        vstd::utf8::valid_utf8(bytes@) ==> r is Ok,
{
    String::from_utf8(bytes).map_err(|_| ())
}

} // verus!
