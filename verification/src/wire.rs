//! Byte-level primitives of the wire and storage formats.
//!
//! Integers travel in little-endian order at a fixed width; a string is
//! its UTF-8 bytes preceded by their count as a 64-bit integer.  Every
//! encoder has a spec-level counterpart, and every decoder is proved to
//! agree with a total spec-level reader, so that the message and record
//! codecs built on top can be related to one mathematical format.

use vstd::prelude::*;
use vstd::utf8::{decode_utf8, encode_utf8, valid_utf8};

verus! {

// ------------------------------------------------------------------
// Spec-level encoders.
// ------------------------------------------------------------------

pub open spec fn spec_u16_le(v: u16) -> Seq<u8> {
    seq![(v & 0xff) as u8, ((v >> 8) & 0xff) as u8]
}

pub open spec fn spec_u64_le(v: u64) -> Seq<u8> {
    seq![
        (v & 0xff) as u8,
        ((v >> 8) & 0xff) as u8,
        ((v >> 16) & 0xff) as u8,
        ((v >> 24) & 0xff) as u8,
        ((v >> 32) & 0xff) as u8,
        ((v >> 40) & 0xff) as u8,
        ((v >> 48) & 0xff) as u8,
        ((v >> 56) & 0xff) as u8,
    ]
}

pub open spec fn spec_i64_le(v: i64) -> Seq<u8> {
    spec_u64_le(v as u64)
}

pub open spec fn spec_u128_le(v: u128) -> Seq<u8> {
    spec_u64_le((v & 0xffff_ffff_ffff_ffff) as u64) + spec_u64_le(((v >> 64) & 0xffff_ffff_ffff_ffff) as u64)
}

pub open spec fn spec_bool_byte(v: bool) -> u8 {
    if v {
        1
    } else {
        0
    }
}

pub open spec fn spec_string_bytes(s: Seq<char>) -> Seq<u8> {
    spec_u64_le(encode_utf8(s).len() as u64) + encode_utf8(s)
}

// ------------------------------------------------------------------
// Spec-level readers.  Each takes the whole byte sequence and a start
// offset and yields the decoded value with the offset just past it,
// or nothing when the bytes there are not a valid encoding.
// ------------------------------------------------------------------

pub open spec fn spec_u16_of(b0: u8, b1: u8) -> u16 {
    (b0 as u16) | ((b1 as u16) << 8)
}

pub open spec fn spec_u64_of(
    b0: u8,
    b1: u8,
    b2: u8,
    b3: u8,
    b4: u8,
    b5: u8,
    b6: u8,
    b7: u8,
) -> u64 {
    (b0 as u64) | ((b1 as u64) << 8) | ((b2 as u64) << 16) | ((b3 as u64) << 24) | ((b4 as u64)
        << 32) | ((b5 as u64) << 40) | ((b6 as u64) << 48) | ((b7 as u64) << 56)
}

pub open spec fn dec_u8(b: Seq<u8>, i: int) -> Option<(u8, int)> {
    if 0 <= i && i + 1 <= b.len() {
        Some((b[i], i + 1))
    } else {
        None
    }
}

pub open spec fn dec_u16(b: Seq<u8>, i: int) -> Option<(u16, int)> {
    if 0 <= i && i + 2 <= b.len() {
        Some((spec_u16_of(b[i], b[i + 1]), i + 2))
    } else {
        None
    }
}

pub open spec fn dec_u64(b: Seq<u8>, i: int) -> Option<(u64, int)> {
    if 0 <= i && i + 8 <= b.len() {
        Some(
            (
                spec_u64_of(b[i], b[i + 1], b[i + 2], b[i + 3], b[i + 4], b[i + 5], b[i + 6], b[i + 7]),
                i + 8,
            ),
        )
    } else {
        None
    }
}

pub open spec fn dec_i64(b: Seq<u8>, i: int) -> Option<(i64, int)> {
    match dec_u64(b, i) {
        Some((v, j)) => Some((v as i64, j)),
        None => None,
    }
}

pub open spec fn dec_u128(b: Seq<u8>, i: int) -> Option<(u128, int)> {
    match dec_u64(b, i) {
        Some((lo, j)) => match dec_u64(b, j) {
            Some((hi, k)) => Some(((lo as u128) | ((hi as u128) << 64), k)),
            None => None,
        },
        None => None,
    }
}

pub open spec fn dec_bool(b: Seq<u8>, i: int) -> Option<(bool, int)> {
    match dec_u8(b, i) {
        Some((v, j)) => if v == 0 {
            Some((false, j))
        } else if v == 1 {
            Some((true, j))
        } else {
            None
        },
        None => None,
    }
}

pub open spec fn dec_string(b: Seq<u8>, i: int) -> Option<(Seq<char>, int)> {
    match dec_u64(b, i) {
        Some((n, j)) => if j + n <= b.len() {
            if valid_utf8(b.subrange(j, j + n)) {
                Some((decode_utf8(b.subrange(j, j + n)), j + n))
            } else {
                None
            }
        } else {
            None
        },
        None => None,
    }
}

// ------------------------------------------------------------------
// The readers invert the encoders.
// ------------------------------------------------------------------

pub proof fn lemma_dec_u16_of_enc(b: Seq<u8>, i: int, v: u16)
    requires
        0 <= i,
        i + 2 <= b.len(),
        b.subrange(i, i + 2) == spec_u16_le(v),
    ensures
        dec_u16(b, i) == Some((v, i + 2)),
{
    assert(b[i] == spec_u16_le(v)[0]);
    assert(b[i + 1] == spec_u16_le(v)[1]);
    assert(spec_u16_of((v & 0xff) as u8, ((v >> 8) & 0xff) as u8) == v) by (bit_vector);
}

pub proof fn lemma_dec_u64_of_enc(b: Seq<u8>, i: int, v: u64)
    requires
        0 <= i,
        i + 8 <= b.len(),
        b.subrange(i, i + 8) == spec_u64_le(v),
    ensures
        dec_u64(b, i) == Some((v, i + 8)),
{
    assert forall|k: int| 0 <= k < 8 implies b[i + k] == spec_u64_le(v)[k] by {
        assert(b.subrange(i, i + 8)[k] == b[i + k]);
    }
    assert(spec_u64_of(
        (v & 0xff) as u8,
        ((v >> 8) & 0xff) as u8,
        ((v >> 16) & 0xff) as u8,
        ((v >> 24) & 0xff) as u8,
        ((v >> 32) & 0xff) as u8,
        ((v >> 40) & 0xff) as u8,
        ((v >> 48) & 0xff) as u8,
        ((v >> 56) & 0xff) as u8,
    ) == v) by (bit_vector);
}

pub proof fn lemma_dec_i64_of_enc(b: Seq<u8>, i: int, v: i64)
    requires
        0 <= i,
        i + 8 <= b.len(),
        b.subrange(i, i + 8) == spec_i64_le(v),
    ensures
        dec_i64(b, i) == Some((v, i + 8)),
{
    lemma_dec_u64_of_enc(b, i, v as u64);
    assert(((v as u64) as i64) == v) by (bit_vector);
}

pub proof fn lemma_dec_u128_of_enc(b: Seq<u8>, i: int, v: u128)
    requires
        0 <= i,
        i + 16 <= b.len(),
        b.subrange(i, i + 16) == spec_u128_le(v),
    ensures
        dec_u128(b, i) == Some((v, i + 16)),
{
    let lo = (v & 0xffff_ffff_ffff_ffff) as u64;
    let hi = ((v >> 64) & 0xffff_ffff_ffff_ffff) as u64;
    assert(b.subrange(i, i + 8) == spec_u64_le(lo)) by {
        assert forall|k: int| 0 <= k < 8 implies b.subrange(i, i + 8)[k] == spec_u64_le(lo)[k] by {
            assert(b.subrange(i, i + 16)[k] == b[i + k]);
            assert(b.subrange(i, i + 8)[k] == b[i + k]);
            assert(spec_u128_le(v)[k] == spec_u64_le(lo)[k]);
        }
        assert(b.subrange(i, i + 8) =~= spec_u64_le(lo));
    }
    assert(b.subrange(i + 8, i + 16) == spec_u64_le(hi)) by {
        assert forall|k: int| 0 <= k < 8 implies b.subrange(i + 8, i + 16)[k] == spec_u64_le(hi)[k] by {
            assert(b.subrange(i, i + 16)[k + 8] == b[i + 8 + k]);
            assert(b.subrange(i + 8, i + 16)[k] == b[i + 8 + k]);
            assert(spec_u128_le(v)[k + 8] == spec_u64_le(hi)[k]);
        }
        assert(b.subrange(i + 8, i + 16) =~= spec_u64_le(hi));
    }
    lemma_dec_u64_of_enc(b, i, lo);
    lemma_dec_u64_of_enc(b, i + 8, hi);
    assert((((v & 0xffff_ffff_ffff_ffff) as u64) as u128) | (((((v >> 64) & 0xffff_ffff_ffff_ffff) as u64) as u128) << 64) == v)
        by (bit_vector);
}

pub proof fn lemma_dec_bool_of_enc(b: Seq<u8>, i: int, v: bool)
    requires
        0 <= i,
        i + 1 <= b.len(),
        b[i] == spec_bool_byte(v),
    ensures
        dec_bool(b, i) == Some((v, i + 1)),
{
}

pub proof fn lemma_dec_string_of_enc(b: Seq<u8>, i: int, s: Seq<char>)
    requires
        0 <= i,
        i + spec_string_bytes(s).len() <= b.len(),
        b.subrange(i, i + spec_string_bytes(s).len()) == spec_string_bytes(s),
        encode_utf8(s).len() <= u64::MAX,
    ensures
        dec_string(b, i) == Some((s, i + spec_string_bytes(s).len())),
{
    let u = encode_utf8(s);
    let n = u.len() as u64;
    let total = spec_string_bytes(s).len();
    assert(total == 8 + u.len());
    assert(b.subrange(i, i + 8) == spec_u64_le(n)) by {
        assert forall|k: int| 0 <= k < 8 implies b.subrange(i, i + 8)[k] == spec_u64_le(n)[k] by {
            assert(b.subrange(i, i + total)[k] == b[i + k]);
            assert(b.subrange(i, i + 8)[k] == b[i + k]);
            assert(spec_string_bytes(s)[k] == spec_u64_le(n)[k]);
        }
        assert(b.subrange(i, i + 8) =~= spec_u64_le(n));
    }
    lemma_dec_u64_of_enc(b, i, n);
    assert(b.subrange(i + 8, i + 8 + n) == u) by {
        assert forall|k: int| 0 <= k < u.len() implies b.subrange(i + 8, i + 8 + n)[k] == u[k] by {
            assert(b.subrange(i, i + total)[k + 8] == b[i + 8 + k]);
            assert(b.subrange(i + 8, i + 8 + n)[k] == b[i + 8 + k]);
            assert(spec_string_bytes(s)[k + 8] == u[k]);
        }
        assert(b.subrange(i + 8, i + 8 + n) =~= u);
    }
    vstd::utf8::encode_utf8_valid_utf8(s);
    vstd::utf8::encode_utf8_decode_utf8(s);
}

// ------------------------------------------------------------------
// Executable encoders.
// ------------------------------------------------------------------

pub fn push_u8(out: &mut Vec<u8>, v: u8)
    ensures
        final(out)@ == old(out)@ + seq![v],
{
    out.push(v);
    assert(final(out)@ =~= old(out)@ + seq![v]);
}

pub fn push_u16_le(out: &mut Vec<u8>, v: u16)
    ensures
        final(out)@ == old(out)@ + spec_u16_le(v),
{
    out.push((v & 0xff) as u8);
    out.push(((v >> 8) & 0xff) as u8);
    assert(final(out)@ =~= old(out)@ + spec_u16_le(v));
}

pub fn push_u64_le(out: &mut Vec<u8>, v: u64)
    ensures
        final(out)@ == old(out)@ + spec_u64_le(v),
{
    out.push((v & 0xff) as u8);
    out.push(((v >> 8) & 0xff) as u8);
    out.push(((v >> 16) & 0xff) as u8);
    out.push(((v >> 24) & 0xff) as u8);
    out.push(((v >> 32) & 0xff) as u8);
    out.push(((v >> 40) & 0xff) as u8);
    out.push(((v >> 48) & 0xff) as u8);
    out.push(((v >> 56) & 0xff) as u8);
    assert(final(out)@ =~= old(out)@ + spec_u64_le(v));
}

pub fn push_i64_le(out: &mut Vec<u8>, v: i64)
    ensures
        final(out)@ == old(out)@ + spec_i64_le(v),
{
    push_u64_le(out, v as u64);
}

pub fn push_u128_le(out: &mut Vec<u8>, v: u128)
    ensures
        final(out)@ == old(out)@ + spec_u128_le(v),
{
    push_u64_le(out, (v & 0xffff_ffff_ffff_ffff) as u64);
    push_u64_le(out, ((v >> 64) & 0xffff_ffff_ffff_ffff) as u64);
    assert(final(out)@ =~= old(out)@ + spec_u128_le(v));
}

pub fn push_bool(out: &mut Vec<u8>, v: bool)
    ensures
        final(out)@ == old(out)@ + seq![spec_bool_byte(v)],
{
    if v {
        push_u8(out, 1);
    } else {
        push_u8(out, 0);
    }
}

pub fn push_bytes(out: &mut Vec<u8>, bytes: &Vec<u8>)
    ensures
        final(out)@ == old(out)@ + bytes@,
{
    let mut i: usize = 0;
    while i < bytes.len()
        invariant
            i <= bytes@.len(),
            out@ == old(out)@ + bytes@.subrange(0, i as int),
        decreases bytes@.len() - i,
    {
        out.push(bytes[i]);
        i = i + 1;
        assert(out@ =~= old(out)@ + bytes@.subrange(0, i as int));
    }
    assert(bytes@.subrange(0, bytes@.len() as int) =~= bytes@);
}

pub fn push_string(out: &mut Vec<u8>, s: &String)
    ensures
        final(out)@ == old(out)@ + spec_string_bytes(s@),
{
    let bytes: Vec<u8> = s.as_str().as_bytes_vec();
    push_u64_le(out, bytes.len() as u64);
    push_bytes(out, &bytes);
    assert(final(out)@ =~= old(out)@ + spec_string_bytes(s@));
}

// ------------------------------------------------------------------
// Executable readers, each proved to agree with its spec-level reader.
// ------------------------------------------------------------------

pub fn read_u8(b: &Vec<u8>, pos: usize) -> (r: Option<(u8, usize)>)
    ensures
        match r {
            Some(vj) => dec_u8(b@, pos as int) == Some((vj.0, vj.1 as int)) && vj.1 <= b@.len(),
            None => dec_u8(b@, pos as int) is None,
        },
{
    if pos < b.len() {
        Some((b[pos], pos + 1))
    } else {
        None
    }
}

pub fn read_u16(b: &Vec<u8>, pos: usize) -> (r: Option<(u16, usize)>)
    ensures
        match r {
            Some(vj) => dec_u16(b@, pos as int) == Some((vj.0, vj.1 as int)) && vj.1 <= b@.len(),
            None => dec_u16(b@, pos as int) is None,
        },
{
    if pos < b.len() && b.len() - pos >= 2 {
        let v = (b[pos] as u16) | ((b[pos + 1] as u16) << 8);
        Some((v, pos + 2))
    } else {
        None
    }
}

pub fn read_u64(b: &Vec<u8>, pos: usize) -> (r: Option<(u64, usize)>)
    ensures
        match r {
            Some(vj) => dec_u64(b@, pos as int) == Some((vj.0, vj.1 as int)) && vj.1 <= b@.len(),
            None => dec_u64(b@, pos as int) is None,
        },
{
    if pos < b.len() && b.len() - pos >= 8 {
        let v = (b[pos] as u64) | ((b[pos + 1] as u64) << 8) | ((b[pos + 2] as u64) << 16) | ((b[pos
            + 3] as u64) << 24) | ((b[pos + 4] as u64) << 32) | ((b[pos + 5] as u64) << 40) | ((b[pos
            + 6] as u64) << 48) | ((b[pos + 7] as u64) << 56);
        Some((v, pos + 8))
    } else {
        None
    }
}

pub fn read_i64(b: &Vec<u8>, pos: usize) -> (r: Option<(i64, usize)>)
    ensures
        match r {
            Some(vj) => dec_i64(b@, pos as int) == Some((vj.0, vj.1 as int)) && vj.1 <= b@.len(),
            None => dec_i64(b@, pos as int) is None,
        },
{
    match read_u64(b, pos) {
        Some((v, j)) => Some((v as i64, j)),
        None => None,
    }
}

pub fn read_u128(b: &Vec<u8>, pos: usize) -> (r: Option<(u128, usize)>)
    ensures
        match r {
            Some(vj) => dec_u128(b@, pos as int) == Some((vj.0, vj.1 as int)) && vj.1 <= b@.len(),
            None => dec_u128(b@, pos as int) is None,
        },
{
    match read_u64(b, pos) {
        Some((lo, j)) => match read_u64(b, j) {
            Some((hi, k)) => Some(((lo as u128) | ((hi as u128) << 64), k)),
            None => None,
        },
        None => None,
    }
}

pub fn read_bool(b: &Vec<u8>, pos: usize) -> (r: Option<(bool, usize)>)
    ensures
        match r {
            Some(vj) => dec_bool(b@, pos as int) == Some((vj.0, vj.1 as int)) && vj.1 <= b@.len(),
            None => dec_bool(b@, pos as int) is None,
        },
{
    match read_u8(b, pos) {
        Some((v, j)) => if v == 0 {
            Some((false, j))
        } else if v == 1 {
            Some((true, j))
        } else {
            None
        },
        None => None,
    }
}

/// Relies on String::from_utf8: it succeeds exactly on valid UTF-8 input
/// and returns the string whose characters the bytes encode.
#[verifier::external_body]
fn bytes_to_string(bytes: Vec<u8>) -> (r: Option<String>)
    ensures
        match r {
            Some(s) => valid_utf8(bytes@) && s@ == decode_utf8(bytes@),
            None => !valid_utf8(bytes@),
        },
{
    String::from_utf8(bytes).ok()
}

pub fn read_string(b: &Vec<u8>, pos: usize) -> (r: Option<(String, usize)>)
    ensures
        match r {
            Some(sj) => dec_string(b@, pos as int) == Some((sj.0@, sj.1 as int)) && sj.1 <= b@.len(),
            None => dec_string(b@, pos as int) is None,
        },
{
    match read_u64(b, pos) {
        Some((n, j)) => {
            if n > (b.len() - j) as u64 {
                return None;
            }
            let m = n as usize;
            let sub = vstd::slice::slice_subrange(b.as_slice(), j, j + m);
            let bytes = vstd::slice::slice_to_vec(sub);
            match bytes_to_string(bytes) {
                Some(s) => Some((s, j + m)),
                None => None,
            }
        },
        None => None,
    }
}

} // verus!
