//! A principal as bytes and back.
//!
//! The bytes of a principal spell a number, most significant byte first.
//! The number is held in two words; byte `k`, counted from the least
//! significant one, lies in the low word for `k < 16` and in the high word
//! after that.

use crate::identity::Principal;
use vstd::prelude::*;

verus! {

/// The most bytes that a principal has.
pub const MAX_PRINCIPAL_BYTES: usize = 29;

/// The two words after one more byte is appended to the number.
pub open spec fn push_byte(words: (u128, u128), byte: u8) -> (u128, u128) {
    ((words.0 << 8) | (words.1 >> 120), (words.1 << 8) | (byte as u128))
}

/// The two words that the bytes spell.
pub open spec fn pack(bytes: Seq<u8>) -> (u128, u128)
    decreases bytes.len(),
{
    if bytes.len() == 0 {
        (0, 0)
    } else {
        push_byte(pack(bytes.drop_last()), bytes.last())
    }
}

/// Byte `k` of the number, counted from the least significant one.
pub open spec fn byte_at(words: (u128, u128), k: u128) -> u8 {
    if k < 16 {
        ((words.1 >> (8 * k)) & 0xff) as u8
    } else if k < 32 {
        ((words.0 >> (8 * (k - 16))) & 0xff) as u8
    } else {
        0
    }
}

/// The bytes of a number of `len` bytes, most significant byte first.
pub open spec fn unpack(words: (u128, u128), len: nat) -> Seq<u8> {
    Seq::new(len, |i: int| byte_at(words, (len - 1 - i) as u128))
}

impl Principal {
    /// The bytes of the principal.
    pub open spec fn spec_bytes(self) -> Seq<u8> {
        unpack((self.high, self.low), self.len as nat)
    }
}

proof fn lemma_push_byte(words: (u128, u128), byte: u8, k: u128)
    requires
        k < 31,
    ensures
        byte_at(push_byte(words, byte), 0) == byte,
        byte_at(push_byte(words, byte), (k + 1) as u128) == byte_at(words, k),
{
    let h = words.0;
    let l = words.1;
    let b = byte as u128;
    assert((((l << 8) | b) & 0xff) == b) by (bit_vector)
        requires
            b < 256,
    ;
    assert((((l << 8) | b) >> 0u128) & 0xff == b) by (bit_vector)
        requires
            b < 256,
    ;
    if k + 1 < 16 {
        let s0: u128 = (8 * k) as u128;
        let s1: u128 = (8 * (k + 1)) as u128;
        assert((((l << 8) | b) >> s1) & 0xff == (l >> s0) & 0xff) by (bit_vector)
            requires
                b < 256,
                s0 <= 112,
                s1 == s0 + 8,
        ;
    } else if k + 1 == 16 {
        assert(((h << 8) | (l >> 120)) & 0xff == (l >> 120) & 0xff) by (bit_vector);
        assert((((h << 8) | (l >> 120)) >> 0u128) == ((h << 8) | (l >> 120))) by (bit_vector);
        assert(8 * 15u128 == 120u128);
    } else {
        let s0: u128 = (8 * (k - 16)) as u128;
        let s1: u128 = (8 * (k + 1 - 16)) as u128;
        assert((((h << 8) | (l >> 120)) >> s1) & 0xff == (h >> s0) & 0xff) by (bit_vector)
            requires
                s0 <= 112,
                s1 == s0 + 8,
        ;
    }
}

/// The bytes that spell a number are the bytes of that number.
pub proof fn lemma_unpack_pack(bytes: Seq<u8>)
    requires
        bytes.len() <= 32,
    ensures
        unpack(pack(bytes), bytes.len()) == bytes,
    decreases bytes.len(),
{
    if bytes.len() == 0 {
        assert(unpack(pack(bytes), bytes.len()) =~= bytes);
    } else {
        let front = bytes.drop_last();
        lemma_unpack_pack(front);
        let words = pack(front);
        let n = bytes.len();
        assert forall|i: int| 0 <= i < n implies unpack(pack(bytes), n)[i] == bytes[i] by {
            if i == n - 1 {
                lemma_push_byte(words, bytes.last(), 0);
            } else {
                let k = (n - 2 - i) as u128;
                lemma_push_byte(words, bytes.last(), k);
                assert(unpack(words, front.len())[i] == front[i]);
            }
        }
        assert(unpack(pack(bytes), n) =~= bytes);
    }
}

/// Principals made of different bytes are different.
pub proof fn lemma_pack_injective(a: Seq<u8>, b: Seq<u8>)
    requires
        a.len() <= 32,
        b.len() <= 32,
        a.len() == b.len(),
        pack(a) == pack(b),
    ensures
        a == b,
{
    lemma_unpack_pack(a);
    lemma_unpack_pack(b);
}

impl Principal {
    /// The principal with the given bytes; `None` for more than 29 bytes.
    pub fn from_slice(bytes: &[u8]) -> (r: Option<Principal>)
        ensures
            match r {
                Some(p) => bytes@.len() <= MAX_PRINCIPAL_BYTES && p.len == bytes@.len() && (
                    p.high,
                    p.low,
                ) == pack(bytes@) && p.spec_bytes() == bytes@,
                None => bytes@.len() > MAX_PRINCIPAL_BYTES,
            },
    {
        let n = bytes.len();
        if n > MAX_PRINCIPAL_BYTES {
            return None;
        }
        let mut high: u128 = 0;
        let mut low: u128 = 0;
        let mut i: usize = 0;
        while i < n
            invariant
                i <= n,
                n == bytes@.len(),
                (high, low) == pack(bytes@.take(i as int)),
            decreases n - i,
        {
            let byte = bytes[i];
            proof {
                let next = bytes@.take(i + 1);
                assert(next.drop_last() =~= bytes@.take(i as int));
                assert(next.last() == byte);
            }
            high = (high << 8) | (low >> 120);
            low = (low << 8) | (byte as u128);
            i = i + 1;
        }
        proof {
            assert(bytes@.take(n as int) =~= bytes@);
            lemma_unpack_pack(bytes@);
        }
        Some(Principal { len: n as u8, high, low })
    }

    /// The bytes of the principal.
    pub fn to_bytes(&self) -> (v: Vec<u8>)
        ensures
            v@ == self.spec_bytes(),
    {
        let n = self.len as usize;
        let mut v: Vec<u8> = Vec::new();
        let mut i: usize = 0;
        while i < n
            invariant
                i <= n,
                n == self.len,
                v@.len() == i,
                forall|j: int|
                    0 <= j < i ==> v@[j] == byte_at((self.high, self.low), (n - 1 - j) as u128),
            decreases n - i,
        {
            let k = (n - 1 - i) as u128;
            let byte: u8 = if k < 16 {
                ((self.low >> (8 * k)) & 0xff) as u8
            } else if k < 32 {
                ((self.high >> (8 * (k - 16))) & 0xff) as u8
            } else {
                0
            };
            v.push(byte);
            i = i + 1;
        }
        proof {
            assert(v@ =~= self.spec_bytes());
        }
        v
    }
}

} // verus!
