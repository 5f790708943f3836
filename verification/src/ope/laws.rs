//! What holds of the cipher whose variate function answers each question in
//! one way only: encryption is a function, it preserves the order of the
//! plaintexts, and decryption undoes it.

use crate::ope::engine::{
    first_coins, is_tape, lower_half, lower_part, midpoint, upper_half, upper_part, OPE,
    OpeError,
};
use crate::ope::hgd::{hypergeo_outcome, in_support, split_point};
use crate::ope::range::Range;
use crate::ope::stats::lemma_uniform_walk_in_range;
use crate::ope::tape::PRNG;
use vstd::prelude::*;

verus! {

impl<S: Fn(u64, u64, u64, PRNG) -> u64> OPE<S> {
    /// A pair of intervals is split at one point only.
    pub proof fn lemma_split_unique(&self, other: &OPE<S>, ins: Range, outs: Range, x: u64, y: u64)
        requires
            self.deterministic(),
            self.key@ == other.key@,
            self.sampler == other.sampler,
            self.splits(ins, outs, x),
            other.splits(ins, outs, y),
        ensures
            x == y,
    {
        let mid = midpoint(outs);
        let a = choose|coins: PRNG|
            is_tape(self.key@, mid, coins) && #[trigger] hypergeo_outcome(
                &self.sampler,
                ins,
                outs,
                mid,
                coins,
                x,
            );
        let b = choose|coins: PRNG|
            is_tape(other.key@, mid, coins) && #[trigger] hypergeo_outcome(
                &other.sampler,
                ins,
                outs,
                mid,
                coins,
                y,
            );
        assert(a.cipher.key =~= b.cipher.key);
        assert(a == b);
        if ins.spec_size() != outs.spec_size() {
            let marked = ins.spec_size() as u64;
            let population = outs.spec_size() as u64;
            let draws = (mid - outs.start + 1) as u64;
            let m = choose|count: u64|
                #[trigger] call_ensures(self.sampler, (marked, population, draws, a), count) && x
                    == split_point(ins, count);
            let n = choose|count: u64|
                #[trigger] call_ensures(other.sampler, (marked, population, draws, b), count) && y
                    == split_point(ins, count);
            assert(m == n);
        }
    }

    /// A ciphertext lies in the output interval.
    pub proof fn lemma_ciphertext_in_range(&self, p: u64, ins: Range, outs: Range, c: u64)
        requires
            outs.start <= outs.end,
            self.encrypts_to(p, ins, outs, Ok(c)),
        ensures
            outs.spec_contains(c),
        decreases outs.end - outs.start,
    {
        if ins.start == ins.end {
            lemma_uniform_walk_in_range(outs, first_coins(self.key@, p), 0);
        } else {
            let x = choose|x: u64|
                #[trigger] self.splits(ins, outs, x) && if p <= x {
                    self.encrypts_to(p, lower_part(ins, x), lower_half(outs), Ok(c))
                } else {
                    self.encrypts_to(p, upper_part(ins, x), upper_half(outs), Ok(c))
                };
            if p <= x {
                self.lemma_ciphertext_in_range(p, lower_part(ins, x), lower_half(outs), c);
            } else {
                self.lemma_ciphertext_in_range(p, upper_part(ins, x), upper_half(outs), c);
            }
        }
    }

    /// Two ciphers with one key and one variate function encrypt alike.
    pub proof fn lemma_encrypt_unique(
        &self,
        other: &OPE<S>,
        p: u64,
        ins: Range,
        outs: Range,
        r1: Result<u64, OpeError>,
        r2: Result<u64, OpeError>,
    )
        requires
            self.deterministic(),
            self.key@ == other.key@,
            self.sampler == other.sampler,
            self.encrypts_to(p, ins, outs, r1),
            other.encrypts_to(p, ins, outs, r2),
        ensures
            r1 == r2,
        decreases outs.end - outs.start,
    {
        if ins.spec_contains(p) && ins.end - ins.start <= outs.end - outs.start && ins.start
            != ins.end {
            let x = choose|x: u64|
                #[trigger] self.splits(ins, outs, x) && if p <= x {
                    self.encrypts_to(p, lower_part(ins, x), lower_half(outs), r1)
                } else {
                    self.encrypts_to(p, upper_part(ins, x), upper_half(outs), r1)
                };
            let y = choose|y: u64|
                #[trigger] other.splits(ins, outs, y) && if p <= y {
                    other.encrypts_to(p, lower_part(ins, y), lower_half(outs), r2)
                } else {
                    other.encrypts_to(p, upper_part(ins, y), upper_half(outs), r2)
                };
            self.lemma_split_unique(other, ins, outs, x, y);
            if p <= x {
                self.lemma_encrypt_unique(other, p, lower_part(ins, x), lower_half(outs), r1, r2);
            } else {
                self.lemma_encrypt_unique(other, p, upper_part(ins, x), upper_half(outs), r1, r2);
            }
        }
    }

    /// Within a pair of intervals, the smaller of two plaintexts has the
    /// smaller ciphertext.
    pub proof fn lemma_order_preserved(
        &self,
        lesser: u64,
        greater: u64,
        ins: Range,
        outs: Range,
        c1: u64,
        c2: u64,
    )
        requires
            self.deterministic(),
            outs.start <= outs.end,
            lesser < greater,
            self.encrypts_to(lesser, ins, outs, Ok(c1)),
            self.encrypts_to(greater, ins, outs, Ok(c2)),
        ensures
            c1 < c2,
        decreases outs.end - outs.start,
    {
        let x = choose|x: u64|
            #[trigger] self.splits(ins, outs, x) && if lesser <= x {
                self.encrypts_to(lesser, lower_part(ins, x), lower_half(outs), Ok(c1))
            } else {
                self.encrypts_to(lesser, upper_part(ins, x), upper_half(outs), Ok(c1))
            };
        let y = choose|y: u64|
            #[trigger] self.splits(ins, outs, y) && if greater <= y {
                self.encrypts_to(greater, lower_part(ins, y), lower_half(outs), Ok(c2))
            } else {
                self.encrypts_to(greater, upper_part(ins, y), upper_half(outs), Ok(c2))
            };
        self.lemma_split_unique(self, ins, outs, x, y);
        if greater <= x {
            self.lemma_order_preserved(lesser, greater, lower_part(ins, x), lower_half(outs), c1, c2);
        } else if lesser > x {
            self.lemma_order_preserved(lesser, greater, upper_part(ins, x), upper_half(outs), c1, c2);
        } else {
            self.lemma_ciphertext_in_range(lesser, lower_part(ins, x), lower_half(outs), c1);
            self.lemma_ciphertext_in_range(greater, upper_part(ins, x), upper_half(outs), c2);
        }
    }

    /// Within a pair of intervals, a ciphertext decrypts to its plaintext.
    pub proof fn lemma_decrypt_inverts(
        &self,
        p: u64,
        c: u64,
        ins: Range,
        outs: Range,
        r: Result<u64, OpeError>,
    )
        requires
            self.deterministic(),
            outs.start <= outs.end,
            self.encrypts_to(p, ins, outs, Ok(c)),
            self.decrypts_to(c, ins, outs, r),
        ensures
            r == Ok::<u64, OpeError>(p),
        decreases outs.end - outs.start,
    {
        self.lemma_ciphertext_in_range(p, ins, outs, c);
        if ins.start != ins.end {
            let x = choose|x: u64|
                #[trigger] self.splits(ins, outs, x) && if p <= x {
                    self.encrypts_to(p, lower_part(ins, x), lower_half(outs), Ok(c))
                } else {
                    self.encrypts_to(p, upper_part(ins, x), upper_half(outs), Ok(c))
                };
            let y = choose|y: u64|
                #[trigger] self.splits(ins, outs, y) && if c <= midpoint(outs) {
                    self.decrypts_to(c, lower_part(ins, y), lower_half(outs), r)
                } else if y >= ins.end {
                    r == Err::<u64, OpeError>(OpeError::NotFound)
                } else {
                    self.decrypts_to(c, upper_part(ins, y), upper_half(outs), r)
                };
            self.lemma_split_unique(self, ins, outs, x, y);
            if p <= x {
                self.lemma_ciphertext_in_range(p, lower_part(ins, x), lower_half(outs), c);
                self.lemma_decrypt_inverts(p, c, lower_part(ins, x), lower_half(outs), r);
            } else {
                self.lemma_ciphertext_in_range(p, upper_part(ins, x), upper_half(outs), c);
                self.lemma_decrypt_inverts(p, c, upper_part(ins, x), upper_half(outs), r);
            }
        }
    }

    /// Within a pair of intervals of which the input interval is not the
    /// larger, an element of the input interval is encrypted, provided that
    /// the variate function answers within the support of the distribution.
    pub proof fn lemma_encrypt_succeeds(
        &self,
        p: u64,
        ins: Range,
        outs: Range,
        r: Result<u64, OpeError>,
    )
        requires
            in_support(&self.sampler),
            ins.wf(),
            outs.wf(),
            ins.spec_contains(p),
            ins.spec_size() <= outs.spec_size(),
            self.encrypts_to(p, ins, outs, r),
        ensures
            r is Ok,
        decreases outs.end - outs.start,
    {
        if ins.start != ins.end {
            let mid = midpoint(outs);
            let x = choose|x: u64|
                #[trigger] self.splits(ins, outs, x) && if p <= x {
                    self.encrypts_to(p, lower_part(ins, x), lower_half(outs), r)
                } else {
                    self.encrypts_to(p, upper_part(ins, x), upper_half(outs), r)
                };
            let coins = choose|coins: PRNG|
                is_tape(self.key@, mid, coins) && #[trigger] hypergeo_outcome(
                    &self.sampler,
                    ins,
                    outs,
                    mid,
                    coins,
                    x,
                );
            if ins.spec_size() != outs.spec_size() {
                let marked = ins.spec_size() as u64;
                let population = outs.spec_size() as u64;
                let draws = (mid - outs.start + 1) as u64;
                let count = choose|count: u64|
                    #[trigger] call_ensures(self.sampler, (marked, population, draws, coins), count)
                        && x == split_point(ins, count);
                assert(count <= marked && count <= draws && count + population >= draws + marked);
            }
            if p <= x {
                self.lemma_encrypt_succeeds(p, lower_part(ins, x), lower_half(outs), r);
            } else {
                self.lemma_encrypt_succeeds(p, upper_part(ins, x), upper_half(outs), r);
            }
        }
    }

    /// Within a pair of intervals, what decrypts to a plaintext is the
    /// ciphertext of the plaintext.
    pub proof fn lemma_decrypt_only_images(&self, c: u64, p: u64, ins: Range, outs: Range)
        requires
            ins.start <= ins.end,
            self.decrypts_to(c, ins, outs, Ok(p)),
        ensures
            self.encrypts_to(p, ins, outs, Ok(c)),
            ins.spec_contains(p),
        decreases outs.end - outs.start,
    {
        if ins.start != ins.end {
            let x = choose|x: u64|
                #[trigger] self.splits(ins, outs, x) && if c <= midpoint(outs) {
                    self.decrypts_to(c, lower_part(ins, x), lower_half(outs), Ok(p))
                } else if x >= ins.end {
                    false
                } else {
                    self.decrypts_to(c, upper_part(ins, x), upper_half(outs), Ok(p))
                };
            self.lemma_split_in_range(ins, outs, x);
            if c <= midpoint(outs) {
                self.lemma_decrypt_only_images(c, p, lower_part(ins, x), lower_half(outs));
            } else {
                self.lemma_decrypt_only_images(c, p, upper_part(ins, x), upper_half(outs));
            }
        }
    }

    /// An input interval that is not larger than its output interval is split
    /// at one of its elements.
    pub proof fn lemma_split_in_range(&self, ins: Range, outs: Range, x: u64)
        requires
            ins.start <= ins.end,
            outs.start < outs.end,
            ins.end - ins.start <= outs.end - outs.start,
            self.splits(ins, outs, x),
        ensures
            ins.spec_contains(x),
    {
    }

    /// Encryption succeeds: every element of the input interval of a valid
    /// cipher has a ciphertext.
    pub proof fn law_encrypt_succeeds(&self, p: u64, r: Result<u64, OpeError>)
        requires
            self.wf(),
            self.in_range.spec_contains(p),
            self.encrypts_to(p, self.in_range, self.out_range, r),
        ensures
            r is Ok,
    {
        self.lemma_encrypt_succeeds(p, self.in_range, self.out_range, r);
    }

    /// Decryption returns plaintexts only for their ciphertexts: what
    /// `decrypt` turns into a plaintext, `encrypt` returns for that plaintext.
    pub proof fn law_decrypt_only_images(&self, c: u64, p: u64)
        requires
            self.wf(),
            self.decrypts_to(c, self.in_range, self.out_range, Ok(p)),
        ensures
            self.encrypts_to(p, self.in_range, self.out_range, Ok(c)),
    {
        self.lemma_decrypt_only_images(c, p, self.in_range, self.out_range);
    }

    /// Decryption undoes encryption: every element of the input interval of a
    /// valid cipher is encrypted, and whatever `encrypt` returns for it,
    /// `decrypt` returns the element for that.
    pub proof fn law_round_trip(
        &self,
        p: u64,
        encrypted: Result<u64, OpeError>,
        decrypted: Result<u64, OpeError>,
    )
        requires
            self.wf(),
            self.in_range.spec_contains(p),
            self.encrypts_to(p, self.in_range, self.out_range, encrypted),
            encrypted matches Ok(c) ==> self.decrypts_to(
                c,
                self.in_range,
                self.out_range,
                decrypted,
            ),
        ensures
            encrypted is Ok,
            decrypted == Ok::<u64, OpeError>(p),
    {
        self.lemma_encrypt_succeeds(p, self.in_range, self.out_range, encrypted);
        self.lemma_decrypt_inverts(
            p,
            encrypted->Ok_0,
            self.in_range,
            self.out_range,
            decrypted,
        );
    }

    /// Encryption preserves order: of two elements of the input interval of a
    /// valid cipher both are encrypted, and the smaller has the smaller
    /// ciphertext.
    pub proof fn law_order_preserved(
        &self,
        lesser: u64,
        greater: u64,
        first: Result<u64, OpeError>,
        second: Result<u64, OpeError>,
    )
        requires
            self.wf(),
            self.in_range.spec_contains(lesser),
            self.in_range.spec_contains(greater),
            lesser < greater,
            self.encrypts_to(lesser, self.in_range, self.out_range, first),
            self.encrypts_to(greater, self.in_range, self.out_range, second),
        ensures
            first is Ok,
            second is Ok,
            first->Ok_0 < second->Ok_0,
    {
        self.lemma_encrypt_succeeds(lesser, self.in_range, self.out_range, first);
        self.lemma_encrypt_succeeds(greater, self.in_range, self.out_range, second);
        self.lemma_order_preserved(
            lesser,
            greater,
            self.in_range,
            self.out_range,
            first->Ok_0,
            second->Ok_0,
        );
    }

    /// Encryption is a function of the key, the intervals and the plaintext:
    /// two valid ciphers with the same key, intervals and variate function
    /// return the same for the same plaintext, and so does one cipher that is
    /// asked twice.
    pub proof fn law_same_key_same_ciphertext(
        &self,
        other: &OPE<S>,
        p: u64,
        r1: Result<u64, OpeError>,
        r2: Result<u64, OpeError>,
    )
        requires
            self.wf(),
            self.key@ == other.key@,
            self.in_range == other.in_range,
            self.out_range == other.out_range,
            self.sampler == other.sampler,
            self.encrypts_to(p, self.in_range, self.out_range, r1),
            other.encrypts_to(p, other.in_range, other.out_range, r2),
        ensures
            r1 == r2,
    {
        self.lemma_encrypt_unique(other, p, self.in_range, self.out_range, r1, r2);
    }
}

} // verus!
