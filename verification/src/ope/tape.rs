//! The coin tape: a keyed hash seeds a block cipher in counter mode, and the
//! keystream is read as a sequence of coins.

use crate::text::{digit_char, digit_str};
use aes::cipher::generic_array::GenericArray;
use aes::cipher::{BlockEncrypt, KeyInit};
use hmac::{Hmac, Mac};
use sha2::Sha256;
use vstd::arithmetic::power2::{
    lemma2_to64, lemma_pow2_strictly_increases, lemma_pow2_unfold, pow2,
};
use vstd::prelude::*;
use vstd::string::{StrSliceExecFns, StringExecFns};

verus! {

/// The HMAC-SHA256 tag of `message` under `key`: 32 bytes.
pub uninterp spec fn hmac_sha256_tag(key: Seq<u8>, message: Seq<u8>) -> Seq<u8>;

/// The AES-256 encryption of the 16-byte `block` under the 32-byte `key`.
pub uninterp spec fn aes256_block(key: Seq<u8>, block: Seq<u8>) -> Seq<u8>;

/// Computes the HMAC-SHA256 tag of `message` under `key` with
/// `hmac::Hmac<sha2::Sha256>` (`new_from_slice`, `update`, `finalize`). The tag
/// is a function of the key and the message alone; a key of any length is
/// accepted.
#[verifier::external_body]
pub(crate) fn hmac_sha256(key: &[u8], message: &[u8]) -> (tag: [u8; 32])
    ensures
        tag@ == hmac_sha256_tag(key@, message@),
{
    let mut mac: Hmac<Sha256> = Mac::new_from_slice(key).unwrap();
    mac.update(message);
    mac.finalize().into_bytes().into()
}

/// Encrypts one block with `aes::Aes256` (`new`, `encrypt_block`). The result
/// is a function of the key and the block alone.
#[verifier::external_body]
pub(crate) fn aes256_encrypt_block(key: &[u8; 32], block: &[u8; 16]) -> (out: [u8; 16])
    ensures
        out@ == aes256_block(key@, block@),
{
    let cipher = aes::Aes256::new(GenericArray::from_slice(key));
    let mut data = GenericArray::clone_from_slice(block);
    cipher.encrypt_block(&mut data);
    data.into()
}

/// The `len` low-order bytes of `n`, most significant first.
pub open spec fn be_bytes(n: nat, len: nat) -> Seq<u8>
    decreases len,
{
    if len == 0 {
        Seq::empty()
    } else {
        be_bytes(n / 256, (len - 1) as nat).push((n % 256) as u8)
    }
}

/// AES-256 in counter mode with a 128-bit big-endian counter that starts at
/// zero: the state of a keystream of 16-byte blocks.
#[derive(Clone, Copy, Debug)]
pub struct Keystream {
    pub key: [u8; 32],
    pub counter: u128,
}

impl Keystream {
    /// The keystream block that is produced next.
    pub open spec fn spec_block(&self) -> Seq<u8> {
        aes256_block(self.key@, be_bytes(self.counter as nat, 16))
    }

    /// The state after one block was produced.
    pub open spec fn spec_advance(&self) -> Keystream {
        Keystream {
            key: self.key,
            counter: if self.counter == u128::MAX {
                0
            } else {
                (self.counter + 1) as u128
            },
        }
    }

    /// Produces the next 16 bytes of keystream.
    pub fn next_block(&mut self) -> (out: [u8; 16])
        ensures
            out@ == old(self).spec_block(),
            *final(self) == old(self).spec_advance(),
    {
        let mut block: [u8; 16] = [0u8; 16];
        let mut rest: u128 = self.counter;
        let mut filled: usize = 0;
        while filled < 16
            invariant
                filled <= 16,
                be_bytes(self.counter as nat, 16) == be_bytes(rest as nat, (16 - filled) as nat)
                    + block@.subrange(16 - filled, 16),
            decreases 16 - filled,
        {
            let ghost before = block@;
            block[15 - filled] = (rest % 256) as u8;
            proof {
                let k = (16 - filled) as nat;
                assert(be_bytes(rest as nat, k) == be_bytes(rest as nat / 256, (k - 1) as nat).push(
                    (rest as nat % 256) as u8,
                ));
                assert(block@.subrange(15 - filled, 16) =~= seq![(rest % 256) as u8]
                    + before.subrange(16 - filled, 16));
                assert(be_bytes(self.counter as nat, 16) =~= be_bytes(
                    rest as nat / 256,
                    (k - 1) as nat,
                ) + block@.subrange(15 - filled, 16));
            }
            rest = rest / 256;
            filled = filled + 1;
        }
        proof {
            assert(block@.subrange(0, 16) =~= block@);
            assert(be_bytes(self.counter as nat, 16) =~= block@);
        }
        let out = aes256_encrypt_block(&self.key, &block);
        self.counter = if self.counter == u128::MAX {
            0
        } else {
            self.counter + 1
        };
        out
    }
}

/// Starts the keystream of AES-256 in counter mode, zero initial counter, under
/// the 32-byte key `result`.
pub fn aes_init(result: &[u8]) -> (cipher: Keystream)
    requires
        result@.len() == 32,
    ensures
        cipher.key@ == result@,
        cipher.counter == 0,
{
    let mut key: [u8; 32] = [0u8; 32];
    let mut i: usize = 0;
    while i < 32
        invariant
            i <= 32,
            result@.len() == 32,
            forall|j: int| 0 <= j < i ==> key@[j] == result@[j],
        decreases 32 - i,
    {
        key[i] = result[i];
        i = i + 1;
    }
    assert(key@ =~= result@);
    Keystream { key, counter: 0 }
}

/// The weight of the bit at position `k` of a byte, where position 0 is the
/// most significant and position 7 the least: 2 to the power of `7 - k`.
pub open spec fn bit_weight(k: int) -> nat {
    if k == 0 {
        128
    } else if k == 1 {
        64
    } else if k == 2 {
        32
    } else if k == 3 {
        16
    } else if k == 4 {
        8
    } else if k == 5 {
        4
    } else if k == 6 {
        2
    } else {
        1
    }
}

/// The bit of the byte `b` at position `k`, where position 0 is the most
/// significant and position 7 the least.
pub open spec fn byte_bit(b: u8, k: int) -> u32 {
    ((b as nat / bit_weight(k)) % 2) as u32
}

/// The bit at position `k` is the quotient of the byte by 2 to the power of
/// `7 - k`, taken modulo 2.
pub proof fn lemma_byte_bit_is_quotient(b: u8, k: int)
    requires
        0 <= k < 8,
    ensures
        byte_bit(b, k) == (b as nat / pow2((7 - k) as nat)) % 2,
        bit_weight(k) == pow2((7 - k) as nat),
{
    lemma2_to64();
}

/// The eight bits of a byte as text, most significant first.
pub open spec fn bits_text(b: u8) -> Seq<char> {
    Seq::new(8, |k: int| digit_char(byte_bit(b, k) as nat))
}

/// The coins of a run of keystream bytes: the eight bits of each byte in
/// turn, most significant first.
pub open spec fn tape_coins(bytes: Seq<u8>) -> Seq<u32> {
    Seq::new(8 * bytes.len(), |i: int| byte_bit(bytes[i / 8], i % 8))
}

/// The number whose binary digits, most significant first, are `coins`.
pub open spec fn packed(coins: Seq<u32>) -> nat
    decreases coins.len(),
{
    if coins.len() == 0 {
        0
    } else {
        2 * packed(coins.drop_last()) + coins.last() as nat
    }
}

/// The bytes of a block, each as a sequence of its own.
pub fn generate_bytes(data: &[u8; 16]) -> (bin: [Vec<u8>; 16])
    ensures
        forall|i: int| 0 <= i < 16 ==> (#[trigger] bin@[i])@ == seq![data@[i]],
{
    let mut bin: [Vec<u8>; 16] = [
        Vec::new(),
        Vec::new(),
        Vec::new(),
        Vec::new(),
        Vec::new(),
        Vec::new(),
        Vec::new(),
        Vec::new(),
        Vec::new(),
        Vec::new(),
        Vec::new(),
        Vec::new(),
        Vec::new(),
        Vec::new(),
        Vec::new(),
        Vec::new(),
    ];
    let mut i: usize = 0;
    while i < 16
        invariant
            i <= 16,
            forall|j: int| 0 <= j < i ==> (#[trigger] bin@[j])@ == seq![data@[j]],
        decreases 16 - i,
    {
        let mut one: Vec<u8> = Vec::new();
        one.push(data[i]);
        assert(one@ =~= seq![data@[i as int]]);
        bin[i] = one;
        i = i + 1;
    }
    bin
}

/// The eight bits of the first byte of `byte` as text, most significant
/// first.
pub fn byte_to_bits(byte: &Vec<u8>) -> (bits: String)
    requires
        byte@.len() >= 1,
    ensures
        bits@ == bits_text(byte@[0]),
{
    let b: u8 = byte[0];
    let mut bits = String::new();
    let mut k: usize = 0;
    let mut weight: u8 = 128;
    while k < 8
        invariant
            k <= 8,
            k < 8 ==> weight == bit_weight(k as int),
            bits@ == bits_text(b).take(k as int),
        decreases 8 - k,
    {
        let bit: u8 = (b / weight) % 2;
        assert(bit == byte_bit(b, k as int));
        bits.append(digit_str(bit));
        proof {
            assert(bits@ =~= bits_text(b).take(k + 1));
        }
        weight = weight / 2;
        k = k + 1;
    }
    assert(bits_text(b).take(8) =~= bits_text(b));
    bits
}

/// Reads a 16-byte keystream block as its 128 coins: the eight bits of each
/// byte in turn, most significant first.
pub fn convert_bitstring(data: [u8; 16]) -> (ret: [u32; 128])
    ensures
        ret@ == tape_coins(data@),
        forall|i: int, k: int|
            0 <= i < 16 && 0 <= k < 8 ==> ret@[8 * i + k] == #[trigger] byte_bit(data@[i], k),
        forall|j: int|
            0 <= j < 128 ==> #[trigger] ret@[j] == (data@[j / 8] as nat / pow2(
                (7 - j % 8) as nat,
            )) % 2,
        forall|i: int| 0 <= i < 128 ==> #[trigger] ret@[i] <= 1,
{
    let bytes = generate_bytes(&data);
    let mut ret: [u32; 128] = [0u32; 128];
    let mut j: usize = 0;
    while j < 16
        invariant
            j <= 16,
            forall|i: int| 0 <= i < 16 ==> (#[trigger] bytes@[i])@ == seq![data@[i]],
            forall|i: int| 0 <= i < 8 * j ==> #[trigger] ret@[i] == byte_bit(data@[i / 8], i % 8),
        decreases 16 - j,
    {
        let bit = byte_to_bits(&bytes[j]);
        assert(bytes@[j as int]@[0] == data@[j as int]);
        let mut k: usize = 0;
        while k < 8
            invariant
                k <= 8,
                j < 16,
                bit@ == bits_text(data@[j as int]),
                forall|i: int|
                    0 <= i < 8 * j + k ==> #[trigger] ret@[i] == byte_bit(data@[i / 8], i % 8),
            decreases 8 - k,
        {
            let c = bit.as_str().get_char(k);
            let coin: u32 = if c == '1' {
                1
            } else {
                0
            };
            assert(coin == byte_bit(data@[j as int], k as int));
            ret[8 * j + k] = coin;
            k = k + 1;
        }
        j = j + 1;
    }
    proof {
        assert(ret@ =~= tape_coins(data@));
        assert forall|i: int, k: int| 0 <= i < 16 && 0 <= k < 8 implies ret@[8 * i + k]
            == #[trigger] byte_bit(data@[i], k) by {
            assert((8 * i + k) / 8 == i && (8 * i + k) % 8 == k);
        }
        assert forall|j: int| 0 <= j < 128 implies #[trigger] ret@[j] == (data@[j / 8] as nat
            / pow2((7 - j % 8) as nat)) % 2 by {
            lemma_byte_bit_is_quotient(data@[j / 8], j % 8);
        }
    }
    ret
}

/// A number between 0 and 1: the numerator over the denominator.
#[derive(Clone, Copy, Debug, PartialEq, Eq, Structural)]
pub struct Fraction {
    pub numerator: u32,
    pub denominator: u32,
}

/// A source of pseudo-random numbers: the keystream read as coins.
#[derive(Clone, Copy, Debug)]
pub struct PRNG {
    pub cipher: Keystream,
}

impl PRNG {
    /// The 128 coins that are read next.
    pub open spec fn spec_tape(&self) -> Seq<u32> {
        tape_coins(self.cipher.spec_block())
    }

    /// The state after one reading.
    pub open spec fn spec_advance(&self) -> PRNG {
        PRNG { cipher: self.cipher.spec_advance() }
    }

    /// The number that is drawn next: the first 32 coins of the next reading,
    /// most significant first.
    pub open spec fn spec_draw(&self) -> nat {
        packed(self.spec_tape().take(32))
    }

    /// Draws the next number between 0 and 1: a fresh reading of the tape, of
    /// which the first 32 coins are packed most significant first, over the
    /// largest number of 32 bits.
    pub fn draw(&mut self) -> (u: Fraction)
        ensures
            u.numerator == old(self).spec_draw(),
            u.denominator == u32::MAX,
            *final(self) == old(self).spec_advance(),
    {
        let tape = generate_tape(self);
        let mut tmp: u64 = 0;
        let mut i: usize = 0;
        proof {
            lemma2_to64();
        }
        while i < 32
            invariant
                i <= 32,
                forall|k: int| 0 <= k < 128 ==> #[trigger] tape@[k] <= 1,
                tmp == packed(tape@.take(i as int)),
                tmp < pow2(i as nat),
            decreases 32 - i,
        {
            proof {
                lemma2_to64();
                lemma_pow2_unfold((i + 1) as nat);
                lemma_pow2_strictly_increases(i as nat, 33);
                assert(tape@.take(i + 1).drop_last() =~= tape@.take(i as int));
            }
            tmp = tmp * 2 + tape[i] as u64;
            i = i + 1;
        }
        proof {
            lemma2_to64();
        }
        Fraction { numerator: tmp as u32, denominator: u32::MAX }
    }
}

/// Reads the next 16 bytes of keystream as 128 coins.
pub fn generate_tape(prng: &mut PRNG) -> (tape: [u32; 128])
    ensures
        tape@ == old(prng).spec_tape(),
        forall|i: int| 0 <= i < 128 ==> #[trigger] tape@[i] <= 1,
        *final(prng) == old(prng).spec_advance(),
{
    let block = prng.cipher.next_block();
    convert_bitstring(block)
}

} // verus!
