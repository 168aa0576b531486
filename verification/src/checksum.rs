//! The Internet checksum: the one's complement of the one's-complement sum of
//! the 16-bit big-endian words of a byte span.

use vstd::arithmetic::div_mod::lemma_mod_multiples_vanish;
use vstd::prelude::*;

verus! {

/// The 16-bit big-endian word made of a high and a low byte.
pub open spec fn be_word(high: u8, low: u8) -> nat {
    (high as nat) * 256 + (low as nat)
}

/// The plain sum of the 16-bit big-endian words of `bytes`. A trailing odd
/// byte is the high byte of a last word whose low byte is zero.
pub open spec fn word_sum(bytes: Seq<u8>) -> nat
    decreases bytes.len(),
{
    if bytes.len() == 0 {
        0
    } else if bytes.len() == 1 {
        be_word(bytes[0], 0)
    } else {
        be_word(bytes[0], bytes[1]) + word_sum(bytes.skip(2))
    }
}

/// Folds every carry beyond 16 bits back into the low 16 bits, until none
/// remains.
pub open spec fn fold_carries(sum: nat) -> nat
    decreases sum,
{
    if sum < 0x1_0000 {
        sum
    } else {
        fold_carries(sum % 0x1_0000 + sum / 0x1_0000)
    }
}

/// The Internet checksum of `bytes`.
pub open spec fn internet_checksum(bytes: Seq<u8>) -> u16 {
    (0xffff - fold_carries(word_sum(bytes))) as u16
}

/// Folding leaves zero alone and takes every other sum to the one value in
/// `1..=0xffff` that is congruent to it modulo `0xffff`.
pub proof fn lemma_fold_carries_value(sum: nat)
    ensures
        fold_carries(sum) == if sum == 0 {
            0
        } else {
            ((sum - 1) % 0xffff + 1) as nat
        },
        fold_carries(sum) <= 0xffff,
    decreases sum,
{
    if sum >= 0x1_0000 {
        let next = sum % 0x1_0000 + sum / 0x1_0000;
        lemma_fold_carries_value(next);
        assert(sum - 1 == 0xffff * (sum / 0x1_0000) + (next - 1));
    }
}

/// A sum may be folded before a further term is added to it.
pub proof fn lemma_fold_carries_add(sum: nat, term: nat)
    ensures
        fold_carries(sum + term) == fold_carries(fold_carries(sum) + term),
{
    let folded = fold_carries(sum);
    lemma_fold_carries_value(sum);
    lemma_fold_carries_value(sum + term);
    lemma_fold_carries_value(folded + term);
    if sum > 0 {
        let wraps = (sum - 1) / 0xffff;
        assert(sum + term - 1 == 0xffff * wraps + (folded + term - 1));
        lemma_mod_multiples_vanish(wraps, folded + term - 1, 0xffff);
    }
}

/// After a whole number of words, the sum of a span is the sum of its two
/// parts.
pub proof fn lemma_word_sum_concat(front: Seq<u8>, back: Seq<u8>)
    requires
        front.len() % 2 == 0,
    ensures
        word_sum(front + back) == word_sum(front) + word_sum(back),
    decreases front.len(),
{
    if front.len() == 0 {
        assert(front + back =~= back);
    } else {
        let whole = front + back;
        assert(whole.skip(2) =~= front.skip(2) + back);
        lemma_word_sum_concat(front.skip(2), back);
    }
}

/// The checksum does not depend on the order of the words: two spans of
/// whole words may change places.
pub proof fn lemma_checksum_ignores_word_order(front: Seq<u8>, back: Seq<u8>)
    requires
        front.len() % 2 == 0,
        back.len() % 2 == 0,
    ensures
        internet_checksum(front + back) == internet_checksum(back + front),
{
    lemma_word_sum_concat(front, back);
    lemma_word_sum_concat(back, front);
}

/// The number of bytes of a span of `len` bytes that lie in whole words.
pub open spec fn whole_words_len(len: nat) -> int {
    len - len % 2
}

/// A running Internet checksum over the bytes added so far.
pub struct Checksum {
    /// The folded sum of the whole words added so far.
    sum: u32,
    /// The last byte added, while it still waits for the low byte of its word.
    pending: Option<u8>,
    /// Every byte added so far, in order.
    added: Ghost<Seq<u8>>,
}

impl Checksum {
    /// Every byte added so far, in order.
    pub closed spec fn view(&self) -> Seq<u8> {
        self.added@
    }

    #[verifier::type_invariant]
    spec fn well_formed(&self) -> bool {
        let whole = whole_words_len(self.added@.len());
        &&& self.sum == fold_carries(word_sum(self.added@.subrange(0, whole)))
        &&& self.pending == if self.added@.len() % 2 == 1 {
            Some(self.added@[whole])
        } else {
            None
        }
    }

    /// A checksum to which nothing has been added.
    pub fn new() -> (checksum: Checksum)
        ensures
            checksum@ == Seq::<u8>::empty(),
    {
        let ghost added = Seq::<u8>::empty();
        assert(added.subrange(0, 0) =~= added);
        Checksum { sum: 0, pending: None, added: Ghost(added) }
    }

    /// Adds `bytes` behind the bytes added so far. A byte left over from an
    /// earlier call is the high byte of the word that the first of `bytes`
    /// completes.
    pub fn add_bytes(&mut self, bytes: &[u8])
        ensures
            final(self)@ == old(self)@ + bytes@,
    {
        proof {
            use_type_invariant(&*self);
        }
        let ghost before = self.added@;
        let ghost after = before + bytes@;
        let n: usize = bytes.len();
        if n == 0 {
            assert(after =~= before);
            return ;
        }
        let mut sum: u32 = self.sum;
        let mut i: usize = 0;
        proof {
            lemma_fold_carries_value(word_sum(before.subrange(0, whole_words_len(before.len()))));
        }
        if let Some(high) = self.pending {
            proof {
                let whole = before.len() - 1;
                lemma_word_sum_push(after, whole);
                assert(after.subrange(0, whole) =~= before.subrange(0, whole));
                lemma_fold_carries_add(
                    word_sum(after.subrange(0, whole)),
                    be_word(high, bytes[0]),
                );
            }
            sum = fold_in(sum, high, bytes[0]);
            i = 1;
        } else {
            assert(after.subrange(0, before.len() as int) =~= before.subrange(
                0,
                before.len() as int,
            ));
        }
        while n - i >= 2
            invariant
                i <= n,
                n == bytes@.len(),
                after == before + bytes@,
                (before.len() + i) % 2 == 0,
                sum <= 0xffff,
                sum == fold_carries(word_sum(after.subrange(0, before.len() + i))),
            decreases n - i,
        {
            proof {
                let whole = before.len() + i;
                lemma_word_sum_push(after, whole);
                lemma_fold_carries_add(
                    word_sum(after.subrange(0, whole)),
                    be_word(bytes[i as int], bytes[i + 1]),
                );
            }
            sum = fold_in(sum, bytes[i], bytes[i + 1]);
            i = i + 2;
        }
        let pending = if i < n {
            Some(bytes[i])
        } else {
            None
        };
        *self = Checksum { sum, pending, added: Ghost(after) };
    }

    /// The Internet checksum of the bytes added so far.
    pub fn checksum(&self) -> (value: u16)
        ensures
            value == internet_checksum(self@),
    {
        proof {
            use_type_invariant(self);
        }
        let ghost added = self.added@;
        let ghost whole = whole_words_len(added.len());
        proof {
            lemma_fold_carries_value(word_sum(added.subrange(0, whole)));
            lemma_fold_carries_value(word_sum(added));
        }
        let folded: u32 = match self.pending {
            Some(high) => {
                proof {
                    assert(added =~= added.subrange(0, whole) + seq![high]);
                    lemma_word_sum_concat(added.subrange(0, whole), seq![high]);
                    lemma_fold_carries_add(
                        word_sum(added.subrange(0, whole)),
                        be_word(high, 0),
                    );
                }
                fold_in(self.sum, high, 0)
            },
            None => {
                assert(added.subrange(0, whole) =~= added);
                self.sum
            },
        };
        (0xffff - folded) as u16
    }
}

/// The Internet checksum of `bytes`.
pub fn compute(bytes: &[u8]) -> (value: u16)
    ensures
        value == internet_checksum(bytes@),
{
    let mut checksum = Checksum::new();
    checksum.add_bytes(bytes);
    assert(Seq::<u8>::empty() + bytes@ =~= bytes@);
    checksum.checksum()
}

/// Adds the word `high`, `low` to a folded sum and folds the carry back.
fn fold_in(sum: u32, high: u8, low: u8) -> (folded: u32)
    requires
        sum <= 0xffff,
    ensures
        folded == fold_carries(sum as nat + be_word(high, low)),
        folded <= 0xffff,
{
    let total: u32 = sum + (high as u32) * 256 + (low as u32);
    proof {
        lemma_fold_carries_value(total as nat);
    }
    if total > 0xffff {
        total % 0x1_0000 + total / 0x1_0000
    } else {
        total
    }
}

/// Extending a span of whole words by one more word adds that word to the sum.
proof fn lemma_word_sum_push(bytes: Seq<u8>, at: int)
    requires
        0 <= at,
        at % 2 == 0,
        at + 2 <= bytes.len(),
    ensures
        word_sum(bytes.subrange(0, at + 2)) == word_sum(bytes.subrange(0, at)) + be_word(
            bytes[at],
            bytes[at + 1],
        ),
{
    let word = bytes.subrange(at, at + 2);
    assert(bytes.subrange(0, at + 2) =~= bytes.subrange(0, at) + word);
    lemma_word_sum_concat(bytes.subrange(0, at), word);
    assert(word_sum(word) == be_word(bytes[at], bytes[at + 1])) by {
        assert(word.skip(2).len() == 0);
        assert(word_sum(word.skip(2)) == 0);
    }
}

} // verus!
