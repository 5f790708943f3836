//! Order-preserving encryption of the integers of an input interval by the
//! integers of a larger output interval.
//!
//! Both directions descend through nested pairs of intervals. The output
//! interval is halved at its middle; a hypergeometric sample, drawn from a tape
//! that is seeded by that middle, says how many elements of the input interval
//! are mapped to the lower half. A single input element is mapped to an element
//! of the output interval that is left, selected from a tape seeded by the
//! element.

use crate::ope::hgd::{
    accepts_populations, hypergeo_outcome, hypergeo_sample, in_support, single_valued,
};
use crate::ope::range::Range;
use crate::ope::stats::{uniform_sample, uniform_walk};
use crate::ope::tape::{
    aes256_block, aes_init, be_bytes, hmac_sha256, hmac_sha256_tag, tape_coins, PRNG,
};
use crate::text::{decimal, decimal_string};
use vstd::prelude::*;
use vstd::utf8::encode_utf8;

verus! {

/// Why a plaintext has no ciphertext, or a ciphertext no plaintext.
#[derive(Clone, Copy, Debug, PartialEq, Eq, Structural)]
pub enum OpeError {
    /// The plaintext is outside the input interval, or the ciphertext outside
    /// the output interval.
    OutOfRange,
    /// No plaintext is mapped to the ciphertext.
    NotFound,
    /// The descent reached an input interval with more elements than the
    /// output interval that belongs to it can take.
    Misfit,
}

/// An order-preserving cipher: a key, the interval of the plaintexts, the
/// interval of the ciphertexts, and the hypergeometric variate function.
pub struct OPE<S> {
    pub key: String,
    pub in_range: Range,
    pub out_range: Range,
    pub sampler: S,
}

/// The key of the tape that belongs to `data`: the keyed hash of the decimal
/// numeral of `data`.
pub open spec fn tape_seed(key: Seq<char>, data: u64) -> Seq<u8> {
    hmac_sha256_tag(encode_utf8(key), encode_utf8(decimal(data as nat)))
}

/// `prng` is the unread tape that belongs to `data`.
pub open spec fn is_tape(key: Seq<char>, data: u64, prng: PRNG) -> bool {
    prng.cipher.key@ == tape_seed(key, data) && prng.cipher.counter == 0
}

/// The first 128 coins of the tape that belongs to `data`.
pub open spec fn first_coins(key: Seq<char>, data: u64) -> Seq<u32> {
    tape_coins(aes256_block(tape_seed(key, data), be_bytes(0, 16)))
}

/// The last element of the lower half of an interval. Of an odd number of
/// elements the larger half is the lower one.
pub open spec fn midpoint(outs: Range) -> u64 {
    (outs.start + (outs.end - outs.start) / 2) as u64
}

/// The elements of `outs` up to its midpoint.
pub open spec fn lower_half(outs: Range) -> Range {
    Range { start: outs.start, end: midpoint(outs) }
}

/// The elements of `outs` above its midpoint.
pub open spec fn upper_half(outs: Range) -> Range {
    Range { start: (midpoint(outs) + 1) as u64, end: outs.end }
}

/// The elements of `ins` up to `x`.
pub open spec fn lower_part(ins: Range, x: u64) -> Range {
    Range { start: ins.start, end: x }
}

/// The elements of `ins` above `x`.
pub open spec fn upper_part(ins: Range, x: u64) -> Range {
    Range { start: (x + 1) as u64, end: ins.end }
}

impl<S: Fn(u64, u64, u64, PRNG) -> u64> OPE<S> {
    /// The cipher can be used: both intervals are well formed and the variate
    /// function can be called.
    pub open spec fn ready(&self) -> bool {
        &&& self.in_range.wf()
        &&& self.out_range.wf()
        &&& accepts_populations(&self.sampler)
    }

    /// The cipher is valid: it can be used, the input interval is not larger
    /// than the output interval, and the variate function is a hypergeometric
    /// variate, which answers each question in one way only and within the
    /// support of the distribution.
    pub open spec fn wf(&self) -> bool {
        &&& self.ready()
        &&& self.in_range.spec_size() <= self.out_range.spec_size()
        &&& single_valued(&self.sampler)
        &&& in_support(&self.sampler)
    }

    /// The variate function answers each question in one way only.
    pub open spec fn deterministic(&self) -> bool {
        single_valued(&self.sampler)
    }

    /// `x` is a point at which the variate function may split `ins` when
    /// `outs` is halved.
    pub open spec fn splits(&self, ins: Range, outs: Range, x: u64) -> bool {
        exists|coins: PRNG|
            is_tape(self.key@, midpoint(outs), coins) && #[trigger] hypergeo_outcome(
                &self.sampler,
                ins,
                outs,
                midpoint(outs),
                coins,
                x,
            )
    }

    /// `r` is a result of encrypting `p` as an element of `ins` by an element
    /// of `outs`. A plaintext outside `ins` is out of range, and an `ins` with
    /// more elements than `outs` is a misfit. A single element is encrypted by
    /// the element of `outs` that the tape of the plaintext selects. Otherwise
    /// `ins` is split: a plaintext up to the split is encrypted within the
    /// lower part of `ins` and the lower half of `outs`, a plaintext above it
    /// within the upper part and the upper half.
    pub open spec fn encrypts_to(
        &self,
        p: u64,
        ins: Range,
        outs: Range,
        r: Result<u64, OpeError>,
    ) -> bool
        decreases outs.end - outs.start,
    {
        if !ins.spec_contains(p) {
            r == Err::<u64, OpeError>(OpeError::OutOfRange)
        } else if ins.end - ins.start > outs.end - outs.start {
            r == Err::<u64, OpeError>(OpeError::Misfit)
        } else if ins.start == ins.end {
            r == Ok::<u64, OpeError>(uniform_walk(outs, first_coins(self.key@, p), 0))
        } else {
            exists|x: u64|
                #[trigger] self.splits(ins, outs, x) && if p <= x {
                    self.encrypts_to(p, lower_part(ins, x), lower_half(outs), r)
                } else {
                    self.encrypts_to(p, upper_part(ins, x), upper_half(outs), r)
                }
        }
    }

    /// `r` is a result of decrypting `c` as an element of `outs` to an element
    /// of `ins`. A ciphertext outside `outs` is out of range, and an `ins` with
    /// more elements than `outs` is a misfit. A single element is found if the
    /// tape of the element selects `c` from `outs`, and nothing is found
    /// otherwise. Otherwise `ins` is split: a ciphertext up to the midpoint of
    /// `outs` is decrypted within the lower part of `ins` and the lower half of
    /// `outs`, a ciphertext above it within the upper part and the upper half,
    /// where nothing is found if the upper part is empty.
    pub open spec fn decrypts_to(
        &self,
        c: u64,
        ins: Range,
        outs: Range,
        r: Result<u64, OpeError>,
    ) -> bool
        decreases outs.end - outs.start,
    {
        if !outs.spec_contains(c) {
            r == Err::<u64, OpeError>(OpeError::OutOfRange)
        } else if ins.end - ins.start > outs.end - outs.start {
            r == Err::<u64, OpeError>(OpeError::Misfit)
        } else if ins.start >= ins.end {
            if uniform_walk(outs, first_coins(self.key@, ins.start), 0) == c {
                r == Ok::<u64, OpeError>(ins.start)
            } else {
                r == Err::<u64, OpeError>(OpeError::NotFound)
            }
        } else {
            exists|x: u64|
                #[trigger] self.splits(ins, outs, x) && if c <= midpoint(outs) {
                    self.decrypts_to(c, lower_part(ins, x), lower_half(outs), r)
                } else if x >= ins.end {
                    r == Err::<u64, OpeError>(OpeError::NotFound)
                } else {
                    self.decrypts_to(c, upper_part(ins, x), upper_half(outs), r)
                }
        }
    }

    /// The unread tape that belongs to `data`: a keystream under the keyed
    /// hash of the decimal numeral of `data`.
    pub fn tape_gen(&self, data: u64) -> (prng: PRNG)
        ensures
            is_tape(self.key@, data, prng),
    {
        let data_str = decimal_string(data);
        let hmac_res = hmac_sha256(self.key.as_str().as_bytes(), data_str.as_str().as_bytes());
        let cipher = aes_init(&hmac_res);
        PRNG { cipher }
    }

    /// Encrypts `plaintext`. A plaintext outside the input interval is out of
    /// range. A plaintext of an input interval that is not larger than the
    /// output interval is encrypted, provided that the variate function answers
    /// within the support of the distribution.
    pub fn encrypt(&self, plaintext: u64) -> (r: Result<u64, OpeError>)
        requires
            self.ready(),
        ensures
            self.encrypts_to(plaintext, self.in_range, self.out_range, r),
            !self.in_range.spec_contains(plaintext) ==> r == Err::<u64, OpeError>(
                OpeError::OutOfRange,
            ),
            self.in_range.spec_contains(plaintext) && self.in_range.spec_size()
                <= self.out_range.spec_size() && in_support(&self.sampler) ==> r is Ok,
            r matches Ok(c) ==> self.out_range.spec_contains(c),
    {
        if !self.in_range.contains(plaintext) {
            return Err(OpeError::OutOfRange);
        }
        let r = self.recursive_encrypt(
            plaintext,
            self.in_range.start,
            self.in_range.end,
            self.out_range.start,
            self.out_range.end,
        );
        proof {
            if self.in_range.spec_size() <= self.out_range.spec_size() && in_support(
                &self.sampler,
            ) {
                self.lemma_encrypt_succeeds(plaintext, self.in_range, self.out_range, r);
            }
        }
        r
    }

    /// Encrypts `plaintext` as an element of `[in_start, in_end]` by an element
    /// of `[out_start, out_end]`.
    pub fn recursive_encrypt(
        &self,
        plaintext: u64,
        in_start: u64,
        in_end: u64,
        out_start: u64,
        out_end: u64,
    ) -> (r: Result<u64, OpeError>)
        requires
            (Range { start: in_start, end: in_end }).wf(),
            (Range { start: out_start, end: out_end }).wf(),
            accepts_populations(&self.sampler),
        ensures
            self.encrypts_to(
                plaintext,
                Range { start: in_start, end: in_end },
                Range { start: out_start, end: out_end },
                r,
            ),
            r matches Ok(c) ==> out_start <= c <= out_end,
        decreases out_end - out_start,
    {
        let in_range = Range { start: in_start, end: in_end };
        let out_range = Range { start: out_start, end: out_end };
        if !in_range.contains(plaintext) {
            return Err(OpeError::OutOfRange);
        }
        if in_end - in_start > out_end - out_start {
            return Err(OpeError::Misfit);
        }
        if in_start == in_end {
            let output = self.tape_gen(plaintext);
            let ciphertext = uniform_sample(out_range, output);
            return Ok(ciphertext);
        }
        let mid = out_start + (out_end - out_start) / 2;
        let output = self.tape_gen(mid);
        let samples = hypergeo_sample(
            in_start,
            in_end,
            out_start,
            out_end,
            mid,
            output,
            &self.sampler,
        );
        assert(mid == midpoint(out_range));
        assert(self.splits(in_range, out_range, samples));
        if plaintext <= samples {
            self.recursive_encrypt(plaintext, in_start, samples, out_start, mid)
        } else {
            self.recursive_encrypt(plaintext, samples + 1, in_end, mid + 1, out_end)
        }
    }

    /// Decrypts `ciphertext`.
    pub fn decrypt(&self, ciphertext: u64) -> (r: Result<u64, OpeError>)
        requires
            self.ready(),
        ensures
            self.decrypts_to(ciphertext, self.in_range, self.out_range, r),
            !self.out_range.spec_contains(ciphertext) ==> r == Err::<u64, OpeError>(
                OpeError::OutOfRange,
            ),
            r matches Ok(p) ==> self.in_range.spec_contains(p),
    {
        if !self.out_range.contains(ciphertext) {
            return Err(OpeError::OutOfRange);
        }
        self.recursive_decrypt(
            ciphertext,
            self.in_range.start,
            self.in_range.end,
            self.out_range.start,
            self.out_range.end,
        )
    }

    /// Decrypts `ciphertext` as an element of `[out_start, out_end]` to an
    /// element of `[in_start, in_end]`.
    pub fn recursive_decrypt(
        &self,
        ciphertext: u64,
        in_start: u64,
        in_end: u64,
        out_start: u64,
        out_end: u64,
    ) -> (r: Result<u64, OpeError>)
        requires
            (Range { start: in_start, end: in_end }).wf(),
            (Range { start: out_start, end: out_end }).wf(),
            accepts_populations(&self.sampler),
        ensures
            self.decrypts_to(
                ciphertext,
                Range { start: in_start, end: in_end },
                Range { start: out_start, end: out_end },
                r,
            ),
            r matches Ok(p) ==> in_start <= p <= in_end,
        decreases out_end - out_start,
    {
        let in_range = Range { start: in_start, end: in_end };
        let out_range = Range { start: out_start, end: out_end };
        if !out_range.contains(ciphertext) {
            return Err(OpeError::OutOfRange);
        }
        if in_end - in_start > out_end - out_start {
            return Err(OpeError::Misfit);
        }
        if in_start == in_end {
            let output = self.tape_gen(in_start);
            let sampled = uniform_sample(out_range, output);
            if sampled == ciphertext {
                return Ok(in_start);
            }
            return Err(OpeError::NotFound);
        }
        let mid = out_start + (out_end - out_start) / 2;
        let output = self.tape_gen(mid);
        let samples = hypergeo_sample(
            in_start,
            in_end,
            out_start,
            out_end,
            mid,
            output,
            &self.sampler,
        );
        assert(mid == midpoint(out_range));
        assert(self.splits(in_range, out_range, samples));
        if ciphertext <= mid {
            self.recursive_decrypt(ciphertext, in_start, samples, out_start, mid)
        } else if samples >= in_end {
            Err(OpeError::NotFound)
        } else {
            self.recursive_decrypt(ciphertext, samples + 1, in_end, mid + 1, out_end)
        }
    }
}

} // verus!
