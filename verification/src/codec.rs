//! Primitives of the binary contract: fixed-width little-endian integers,
//! length-prefixed byte strings, raw 32-byte keys, and key lists.
//!
//! Every encoder has a matching reader, and a lemma that reading what was
//! written yields the value back and leaves the rest untouched.

use vstd::prelude::*;
use vstd::bytes::{
    spec_u32_from_le_bytes, spec_u32_to_le_bytes, spec_u64_from_le_bytes, spec_u64_to_le_bytes,
    u32_from_le_bytes, u32_to_le_bytes, u64_from_le_bytes, u64_to_le_bytes,
    lemma_auto_spec_u32_to_from_le_bytes, lemma_auto_spec_u64_to_from_le_bytes,
};
use vstd::slice::{slice_subrange, slice_to_vec};
use vstd::utf8::{decode_utf8, encode_utf8, valid_utf8};
use crate::pubkey::Pubkey;

verus! {

broadcast use crate::pubkey::lemma_pubkey_len;

/// A length-prefixed byte string: four little-endian length bytes, then the
/// bytes themselves.
pub open spec fn enc_bytes(b: Seq<u8>) -> Seq<u8>
    recommends
        b.len() <= u32::MAX,
{
    spec_u32_to_le_bytes(b.len() as u32) + b
}

/// A length-prefixed text field: the UTF-8 bytes of the text, length-prefixed.
pub open spec fn enc_string(s: Seq<char>) -> Seq<u8> {
    enc_bytes(encode_utf8(s))
}

/// The concatenation of a list of 32-byte keys.
pub open spec fn concat_keys(ks: Seq<Seq<u8>>) -> Seq<u8>
    decreases ks.len(),
{
    if ks.len() == 0 {
        Seq::empty()
    } else {
        ks[0] + concat_keys(ks.drop_first())
    }
}

/// A length-prefixed key list: four little-endian count bytes, then the
/// keys themselves.
pub open spec fn enc_keys(ks: Seq<Seq<u8>>) -> Seq<u8>
    recommends
        ks.len() <= u32::MAX,
{
    spec_u32_to_le_bytes(ks.len() as u32) + concat_keys(ks)
}

/// Reads one byte.
pub open spec fn read_u8(b: Seq<u8>) -> Option<(u8, Seq<u8>)> {
    if b.len() < 1 {
        None
    } else {
        Some((b[0], b.skip(1)))
    }
}

/// Reads a four-byte little-endian integer.
pub open spec fn read_u32(b: Seq<u8>) -> Option<(u32, Seq<u8>)> {
    if b.len() < 4 {
        None
    } else {
        Some((spec_u32_from_le_bytes(b.take(4)), b.skip(4)))
    }
}

/// Reads an eight-byte little-endian integer.
pub open spec fn read_u64(b: Seq<u8>) -> Option<(u64, Seq<u8>)> {
    if b.len() < 8 {
        None
    } else {
        Some((spec_u64_from_le_bytes(b.take(8)), b.skip(8)))
    }
}

/// Reads a raw 32-byte key.
pub open spec fn read_key(b: Seq<u8>) -> Option<(Seq<u8>, Seq<u8>)> {
    if b.len() < 32 {
        None
    } else {
        Some((b.take(32), b.skip(32)))
    }
}

/// Reads a length-prefixed byte string of at most `max` bytes.
pub open spec fn read_bytes(b: Seq<u8>, max: nat) -> Option<(Seq<u8>, Seq<u8>)> {
    match read_u32(b) {
        None => None,
        Some((n, rest)) => if n > max || rest.len() < n {
            None
        } else {
            Some((rest.take(n as int), rest.skip(n as int)))
        },
    }
}

/// Reads a length-prefixed text field of at most `max` UTF-8 bytes.
pub open spec fn read_string(b: Seq<u8>, max: nat) -> Option<(Seq<char>, Seq<u8>)> {
    match read_bytes(b, max) {
        None => None,
        Some((bs, rest)) => if valid_utf8(bs) {
            Some((decode_utf8(bs), rest))
        } else {
            None
        },
    }
}

/// Reads `n` raw 32-byte keys.
pub open spec fn read_keys(b: Seq<u8>, n: nat) -> Option<(Seq<Seq<u8>>, Seq<u8>)>
    decreases n,
{
    if n == 0 {
        Some((Seq::empty(), b))
    } else {
        match read_key(b) {
            None => None,
            Some((k, rest)) => match read_keys(rest, (n - 1) as nat) {
                None => None,
                Some((ks, rest2)) => Some((seq![k] + ks, rest2)),
            },
        }
    }
}

/// Reading one byte after writing one returns it.
pub proof fn lemma_read_u8_of(x: u8, rest: Seq<u8>)
    ensures
        read_u8(seq![x] + rest) == Some((x, rest)),
{
    assert((seq![x] + rest).skip(1) =~= rest);
}

/// Reading four bytes after writing an integer returns it.
pub proof fn lemma_read_u32_of(x: u32, rest: Seq<u8>)
    ensures
        read_u32(spec_u32_to_le_bytes(x) + rest) == Some((x, rest)),
{
    lemma_auto_spec_u32_to_from_le_bytes();
    let b = spec_u32_to_le_bytes(x) + rest;
    assert(b.take(4) =~= spec_u32_to_le_bytes(x));
    assert(b.skip(4) =~= rest);
}

/// Reading eight bytes after writing an integer returns it.
pub proof fn lemma_read_u64_of(x: u64, rest: Seq<u8>)
    ensures
        read_u64(spec_u64_to_le_bytes(x) + rest) == Some((x, rest)),
{
    lemma_auto_spec_u64_to_from_le_bytes();
    let b = spec_u64_to_le_bytes(x) + rest;
    assert(b.take(8) =~= spec_u64_to_le_bytes(x));
    assert(b.skip(8) =~= rest);
}

/// Reading a key after writing one returns it.
pub proof fn lemma_read_key_of(k: Seq<u8>, rest: Seq<u8>)
    requires
        k.len() == 32,
    ensures
        read_key(k + rest) == Some((k, rest)),
{
    assert((k + rest).take(32) =~= k);
    assert((k + rest).skip(32) =~= rest);
}

/// Reading a length-prefixed byte string after writing one returns it.
pub proof fn lemma_read_bytes_of(bs: Seq<u8>, rest: Seq<u8>, max: nat)
    requires
        bs.len() <= max,
        max <= u32::MAX,
    ensures
        read_bytes(enc_bytes(bs) + rest, max) == Some((bs, rest)),
{
    let b = enc_bytes(bs) + rest;
    assert(b =~= spec_u32_to_le_bytes(bs.len() as u32) + (bs + rest));
    lemma_read_u32_of(bs.len() as u32, bs + rest);
    assert((bs + rest).take(bs.len() as int) =~= bs);
    assert((bs + rest).skip(bs.len() as int) =~= rest);
}

/// Reading a text field after writing one returns it.
pub proof fn lemma_read_string_of(s: Seq<char>, rest: Seq<u8>, max: nat)
    requires
        encode_utf8(s).len() <= max,
        max <= u32::MAX,
    ensures
        read_string(enc_string(s) + rest, max) == Some((s, rest)),
{
    lemma_read_bytes_of(encode_utf8(s), rest, max);
    vstd::utf8::encode_utf8_valid_utf8(s);
    vstd::utf8::encode_utf8_decode_utf8(s);
}

/// Reading a key list after writing its keys returns them.
pub proof fn lemma_read_keys_of(ks: Seq<Seq<u8>>, rest: Seq<u8>)
    requires
        forall|i: int| 0 <= i < ks.len() ==> (#[trigger] ks[i]).len() == 32,
    ensures
        read_keys(concat_keys(ks) + rest, ks.len() as nat) == Some((ks, rest)),
    decreases ks.len(),
{
    if ks.len() == 0 {
        assert(concat_keys(ks) + rest =~= rest);
        assert(read_keys(rest, 0) == Some((Seq::<Seq<u8>>::empty(), rest)));
        assert(ks =~= Seq::<Seq<u8>>::empty());
    } else {
        let tail = ks.drop_first();
        assert(concat_keys(ks) + rest =~= ks[0] + (concat_keys(tail) + rest));
        lemma_read_key_of(ks[0], concat_keys(tail) + rest);
        lemma_read_keys_of(tail, rest);
        assert(seq![ks[0]] + tail =~= ks);
    }
}

/// Appends a four-byte little-endian integer.
pub fn write_u32(out: &mut Vec<u8>, x: u32)
    ensures
        final(out)@ == old(out)@ + spec_u32_to_le_bytes(x),
{
    let mut b = u32_to_le_bytes(x);
    out.append(&mut b);
}

/// Appends an eight-byte little-endian integer.
pub fn write_u64(out: &mut Vec<u8>, x: u64)
    ensures
        final(out)@ == old(out)@ + spec_u64_to_le_bytes(x),
{
    let mut b = u64_to_le_bytes(x);
    out.append(&mut b);
}

/// Appends the 32 raw bytes of a key.
pub fn write_key(out: &mut Vec<u8>, k: &Pubkey)
    ensures
        final(out)@ == old(out)@ + k@,
{
    let bytes = k.to_bytes();
    let mut b = slice_to_vec(bytes.as_slice());
    out.append(&mut b);
}

/// Appends a length-prefixed text field.
pub fn write_string(out: &mut Vec<u8>, s: &String)
    requires
        encode_utf8(s@).len() <= u32::MAX,
    ensures
        final(out)@ == old(out)@ + enc_string(s@),
{
    let bytes = s.as_str().as_bytes();
    write_u32(out, bytes.len() as u32);
    let mut b = slice_to_vec(bytes);
    out.append(&mut b);
    proof {
        assert(final(out)@ =~= old(out)@ + enc_string(s@));
    }
}

/// Reads a four-byte little-endian integer at a cursor.
pub fn take_u32(b: &[u8], pos: usize) -> (r: Option<(u32, usize)>)
    requires
        pos <= b@.len(),
    ensures
        match r {
            Some((x, pos2)) => {
                &&& pos2 <= b@.len()
                &&& read_u32(b@.skip(pos as int)) == Some((x, b@.skip(pos2 as int)))
            },
            None => read_u32(b@.skip(pos as int)) is None,
        },
{
    if b.len() - pos < 4 {
        return None;
    }
    let x = u32_from_le_bytes(slice_subrange(b, pos, pos + 4));
    proof {
        assert(b@.subrange(pos as int, pos as int + 4) =~= b@.skip(pos as int).take(4));
        assert(b@.skip(pos as int).skip(4) =~= b@.skip(pos as int + 4));
    }
    Some((x, pos + 4))
}

/// Reads an eight-byte little-endian integer at a cursor.
pub fn take_u64(b: &[u8], pos: usize) -> (r: Option<(u64, usize)>)
    requires
        pos <= b@.len(),
    ensures
        match r {
            Some((x, pos2)) => {
                &&& pos2 <= b@.len()
                &&& read_u64(b@.skip(pos as int)) == Some((x, b@.skip(pos2 as int)))
            },
            None => read_u64(b@.skip(pos as int)) is None,
        },
{
    if b.len() - pos < 8 {
        return None;
    }
    let x = u64_from_le_bytes(slice_subrange(b, pos, pos + 8));
    proof {
        assert(b@.subrange(pos as int, pos as int + 8) =~= b@.skip(pos as int).take(8));
        assert(b@.skip(pos as int).skip(8) =~= b@.skip(pos as int + 8));
    }
    Some((x, pos + 8))
}

/// Reads one byte at a cursor.
pub fn take_u8(b: &[u8], pos: usize) -> (r: Option<(u8, usize)>)
    requires
        pos <= b@.len(),
    ensures
        match r {
            Some((x, pos2)) => {
                &&& pos2 <= b@.len()
                &&& read_u8(b@.skip(pos as int)) == Some((x, b@.skip(pos2 as int)))
            },
            None => read_u8(b@.skip(pos as int)) is None,
        },
{
    if b.len() - pos < 1 {
        return None;
    }
    let x = b[pos];
    proof {
        assert(b@.skip(pos as int)[0] == b@[pos as int]);
        assert(b@.skip(pos as int).skip(1) =~= b@.skip(pos as int + 1));
    }
    Some((x, pos + 1))
}

/// Reads a raw 32-byte key at a cursor.
pub fn take_key(b: &[u8], pos: usize) -> (r: Option<(Pubkey, usize)>)
    requires
        pos <= b@.len(),
    ensures
        match r {
            Some((k, pos2)) => {
                &&& pos2 <= b@.len()
                &&& read_key(b@.skip(pos as int)) == Some((k@, b@.skip(pos2 as int)))
            },
            None => read_key(b@.skip(pos as int)) is None,
        },
{
    if b.len() - pos < 32 {
        return None;
    }
    let k = Pubkey::from_slice(slice_subrange(b, pos, pos + 32));
    proof {
        assert(b@.subrange(pos as int, pos as int + 32) =~= b@.skip(pos as int).take(32));
        assert(b@.skip(pos as int).skip(32) =~= b@.skip(pos as int + 32));
    }
    Some((k, pos + 32))
}

/// Reads a length-prefixed text field of at most `max` UTF-8 bytes at a
/// cursor.
pub fn take_string(b: &[u8], pos: usize, max: u32) -> (r: Option<(String, usize)>)
    requires
        pos <= b@.len(),
    ensures
        match r {
            Some((s, pos2)) => {
                &&& pos2 <= b@.len()
                &&& read_string(b@.skip(pos as int), max as nat) == Some(
                    (s@, b@.skip(pos2 as int)),
                )
            },
            None => read_string(b@.skip(pos as int), max as nat) is None,
        },
{
    let (n, pos1) = match take_u32(b, pos) {
        None => {
            return None;
        },
        Some(v) => v,
    };
    if n > max || n as usize > b.len() - pos1 {
        proof {
            assert(b@.skip(pos1 as int).len() == b@.len() - pos1);
        }
        return None;
    }
    let seg = slice_subrange(b, pos1, pos1 + n as usize);
    proof {
        assert(b@.subrange(pos1 as int, pos1 as int + n) =~= b@.skip(pos1 as int).take(n as int));
        assert(b@.skip(pos1 as int).skip(n as int) =~= b@.skip(pos1 as int + n));
    }
    match utf8_from(seg) {
        None => None,
        Some(s) => Some((s.to_owned(), pos1 + n as usize)),
    }
}

/// Reads `n` raw 32-byte keys at a cursor.
pub fn take_keys(b: &[u8], pos: usize, n: u32) -> (r: Option<(Vec<Pubkey>, usize)>)
    requires
        pos <= b@.len(),
    ensures
        match r {
            Some((ks, pos2)) => {
                &&& pos2 <= b@.len()
                &&& read_keys(b@.skip(pos as int), n as nat) == Some(
                    (ks@.map_values(|k: Pubkey| k@), b@.skip(pos2 as int)),
                )
            },
            None => read_keys(b@.skip(pos as int), n as nat) is None,
        },
    decreases n,
{
    if n == 0 {
        let ks: Vec<Pubkey> = Vec::new();
        proof {
            assert(ks@.map_values(|k: Pubkey| k@) =~= Seq::<Seq<u8>>::empty());
        }
        return Some((ks, pos));
    }
    let (k, pos1) = match take_key(b, pos) {
        None => {
            return None;
        },
        Some(v) => v,
    };
    match take_keys(b, pos1, n - 1) {
        None => None,
        Some((mut ks, pos2)) => {
            let ghost tail = ks@;
            ks.insert(0, k);
            proof {
                assert(ks@.map_values(|x: Pubkey| x@) =~= seq![k@] + tail.map_values(
                    |x: Pubkey| x@,
                ));
            }
            Some((ks, pos2))
        },
    }
}

/// Appends the raw bytes of the keys from index `from` on, in order.
pub fn write_keys(out: &mut Vec<u8>, ks: &Vec<Pubkey>, from: usize)
    requires
        from <= ks@.len(),
    ensures
        final(out)@ == old(out)@ + concat_keys(
            ks@.skip(from as int).map_values(|k: Pubkey| k@),
        ),
    decreases ks@.len() - from,
{
    if from < ks.len() {
        write_key(out, &ks[from]);
        write_keys(out, ks, from + 1);
        proof {
            let m = ks@.skip(from as int).map_values(|k: Pubkey| k@);
            assert(ks@.skip(from as int + 1).map_values(|k: Pubkey| k@) =~= m.drop_first());
            assert(m[0] == ks@[from as int]@);
            assert(final(out)@ =~= old(out)@ + concat_keys(m));
        }
    } else {
        proof {
            assert(ks@.skip(from as int).map_values(|k: Pubkey| k@) =~= Seq::<Seq<u8>>::empty());
        }
    }
}

/// Whatever a key read yields is `n` keys of 32 bytes each.
pub proof fn lemma_read_keys_props(b: Seq<u8>, n: nat)
    requires
        read_keys(b, n) is Some,
    ensures
        ({
            let (ks, rest) = read_keys(b, n)->Some_0;
            &&& ks.len() == n
            &&& forall|i: int| 0 <= i < ks.len() ==> (#[trigger] ks[i]).len() == 32
        }),
    decreases n,
{
    if n > 0 {
        let (k, rest) = read_key(b)->Some_0;
        lemma_read_keys_props(rest, (n - 1) as nat);
    }
}

/// Whatever a text read yields encodes back to at most `max` bytes.
pub proof fn lemma_read_string_bound(b: Seq<u8>, max: nat)
    requires
        read_string(b, max) is Some,
    ensures
        encode_utf8(read_string(b, max)->Some_0.0).len() <= max,
{
    let (bs, rest) = read_bytes(b, max)->Some_0;
    vstd::utf8::decode_utf8_encode_utf8(bs);
}

/// Relies on `core::str::from_utf8`: it succeeds exactly on valid UTF-8,
/// and the text it returns decodes those bytes.
#[verifier::external_body]
fn utf8_from(b: &[u8]) -> (r: Option<&str>)
    ensures
        r is Some <==> valid_utf8(b@),
        r is Some ==> r->0@ == decode_utf8(b@),
{
    core::str::from_utf8(b).ok()
}

} // verus!
