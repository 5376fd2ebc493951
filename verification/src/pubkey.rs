//! Identities and record addresses: 32-byte public keys.

use vstd::prelude::*;

verus! {

/// The byte width of every identity and record address.
pub const PUBKEY_LEN: usize = 32;

/// A 32-byte identity or record address.
#[derive(Clone, Copy, Debug)]
pub struct Pubkey {
    bytes: [u8; 32],
}

impl View for Pubkey {
    type V = Seq<u8>;

    closed spec fn view(&self) -> Seq<u8> {
        self.bytes@
    }
}

/// Every key's view is exactly 32 bytes long.
pub broadcast proof fn lemma_pubkey_len(k: Pubkey)
    ensures
        (#[trigger] k@).len() == 32,
{
}

impl Pubkey {
    /// Builds a key from its 32 raw bytes.
    pub fn new(bytes: [u8; 32]) -> (r: Pubkey)
        ensures
            r@ == bytes@,
    {
        Pubkey { bytes }
    }

    /// The raw bytes of the key.
    pub fn to_bytes(&self) -> (r: [u8; 32])
        ensures
            r@ == self@,
    {
        self.bytes
    }

    /// Builds a key from a 32-byte slice.
    pub fn from_slice(b: &[u8]) -> (r: Pubkey)
        requires
            b@.len() == 32,
        ensures
            r@ == b@,
    {
        let bytes: [u8; 32] = [
            b[0],
            b[1],
            b[2],
            b[3],
            b[4],
            b[5],
            b[6],
            b[7],
            b[8],
            b[9],
            b[10],
            b[11],
            b[12],
            b[13],
            b[14],
            b[15],
            b[16],
            b[17],
            b[18],
            b[19],
            b[20],
            b[21],
            b[22],
            b[23],
            b[24],
            b[25],
            b[26],
            b[27],
            b[28],
            b[29],
            b[30],
            b[31],
        ];
        proof {
            assert(bytes@ =~= b@);
        }
        Pubkey { bytes }
    }

    /// Byte-for-byte equality of two keys.
    pub fn same(&self, other: &Pubkey) -> (r: bool)
        ensures
            r == (self@ == other@),
    {
        let mut i: usize = 0;
        while i < 32
            invariant
                i <= 32,
                forall|j: int| 0 <= j < i ==> self.bytes@[j] == other.bytes@[j],
            decreases 32 - i,
        {
            if self.bytes[i] != other.bytes[i] {
                assert(self@[i as int] != other@[i as int]);
                return false;
            }
            i = i + 1;
        }
        assert(self@ =~= other@);
        true
    }
}

} // verus!
