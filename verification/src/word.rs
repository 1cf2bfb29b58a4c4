//! The secret word of a turn and the mask of letters disclosed so far.

use vstd::prelude::*;

verus! {

/// Mathematical model of a [`Word`]: the secret and the reveal mask.
#[verifier::ext_equal]
pub struct WordV {
    pub secret: Seq<char>,
    pub letters: Seq<Option<char>>,
}

/// How many positions of a mask are revealed.
pub open spec fn count_revealed(letters: Seq<Option<char>>) -> int
    decreases letters.len(),
{
    if letters.len() == 0 {
        0
    } else {
        count_revealed(letters.drop_last()) + (if letters.last() is Some {
            1int
        } else {
            0int
        })
    }
}

impl WordV {
    /// The mask is as long as the secret and reveals only secret letters.
    pub open spec fn wf(self) -> bool {
        &&& self.letters.len() == self.secret.len()
        &&& forall|i: int|
            0 <= i < self.letters.len() && self.letters[i] is Some ==> self.letters[i] == Some(
                self.secret[i],
            )
    }

    pub open spec fn revealed_count(self) -> int {
        count_revealed(self.letters)
    }

    /// Position `i` of the mask after disclosing up to `count` more letters,
    /// lowest hidden indices first: a hidden position is revealed exactly
    /// when fewer than `count` hidden positions lie before it.
    pub open spec fn reveal_at(self, count: int, i: int) -> Option<char> {
        if self.letters[i] is Some {
            self.letters[i]
        } else if i - count_revealed(self.letters.take(i)) < count {
            Some(self.secret[i])
        } else {
            None
        }
    }

    /// The whole word after disclosing up to `count` more letters.
    pub open spec fn reveal_spec(self, count: int) -> WordV {
        WordV {
            secret: self.secret,
            letters: Seq::new(self.letters.len(), |i: int| self.reveal_at(count, i)),
        }
    }
}

pub broadcast proof fn lemma_count_revealed_bounds(letters: Seq<Option<char>>)
    ensures
        0 <= #[trigger] count_revealed(letters) <= letters.len(),
    decreases letters.len(),
{
    if letters.len() > 0 {
        lemma_count_revealed_bounds(letters.drop_last());
    }
}

/// Counting revealed positions in a prefix, one position at a time.
pub proof fn lemma_count_revealed_take_succ(letters: Seq<Option<char>>, i: int)
    requires
        0 <= i < letters.len(),
    ensures
        count_revealed(letters.take(i + 1)) == count_revealed(letters.take(i)) + (
        if letters[i] is Some {
            1int
        } else {
            0int
        }),
{
    assert(letters.take(i + 1).drop_last() =~= letters.take(i));
    assert(letters.take(i + 1).last() == letters[i]);
}

/// The empty reveal request: every word was constructed empty of the
/// reveal history, so a turn starts from an all-hidden mask.
pub open spec fn all_hidden(len: nat) -> Seq<Option<char>> {
    Seq::new(len, |i: int| None::<char>)
}

/// Returned by [`Word::new`] when the secret is empty: empty words must
/// never reach the constructor.
#[derive(Debug, Clone, Copy, PartialEq, Eq)]
pub struct InvalidWordError;

/// A secret string together with the positions already disclosed to
/// observers. The secret never changes; the mask only grows.
pub struct Word {
    val: String,
    letters: Vec<Option<char>>,
}

impl View for Word {
    type V = WordV;

    closed spec fn view(&self) -> WordV {
        WordV { secret: self.val@, letters: self.letters@ }
    }
}

impl Word {
    #[verifier::type_invariant]
    spec fn inv(self) -> bool {
        self@.wf()
    }

    /// Builds a word with every position hidden. Rejects an empty secret.
    pub fn new(val: &str) -> (r: Result<Word, InvalidWordError>)
        ensures
            r is Ok <==> val@.len() > 0,
            r matches Ok(w) ==> w@.secret == val@ && w@.letters == all_hidden(val@.len()),
    {
        let n = val.unicode_len();
        if n == 0 {
            return Err(InvalidWordError);
        }
        let mut letters: Vec<Option<char>> = Vec::new();
        let mut i: usize = 0;
        while i < n
            invariant
                i <= n,
                n == val@.len(),
                letters@ =~= all_hidden(i as nat),
            decreases n - i,
        {
            letters.push(None);
            i += 1;
        }
        assert(letters@ =~= all_hidden(val@.len()));
        Ok(Word { val: val.to_owned(), letters })
    }

    /// A copy of the reveal mask, the only externally visible face of the
    /// word: revealed positions carry their secret letter, hidden ones
    /// carry nothing.
    pub fn letters(&self) -> (r: Vec<Option<char>>)
        ensures
            r@ == self@.letters,
            self@.wf(),
    {
        proof {
            use_type_invariant(&*self);
        }
        let n = self.letters.len();
        let mut out: Vec<Option<char>> = Vec::new();
        let mut i: usize = 0;
        while i < n
            invariant
                i <= n,
                n == self@.letters.len(),
                out@ =~= self@.letters.take(i as int),
            decreases n - i,
        {
            out.push(self.letters[i]);
            i += 1;
        }
        assert(out@ =~= self@.letters);
        out
    }

    /// Discloses up to `count` additional positions, the lowest hidden
    /// indices first. Revealing past the end of the word is a no-op; a
    /// non-positive `count` reveals nothing.
    pub fn disclose(&mut self, count: i32)
        ensures
            final(self)@ == old(self)@.reveal_spec(count as int),
            final(self)@.wf(),
    {
        proof {
            use_type_invariant(&*self);
        }
        let ghost w0 = self@;
        let n = self.letters.len();
        let mut out: Vec<Option<char>> = Vec::new();
        let mut c: i32 = count;
        let mut i: usize = 0;
        while i < n
            invariant
                i <= n,
                self@ == w0,
                w0.wf(),
                n == w0.letters.len(),
                out@.len() == i,
                forall|j: int| 0 <= j < i ==> out@[j] == w0.reveal_at(count as int, j),
                count <= 0 ==> c == count,
                count > 0 ==> c == vstd::math::max(
                    count as int - (i - count_revealed(w0.letters.take(i as int))),
                    0,
                ),
            decreases n - i,
        {
            proof {
                lemma_count_revealed_take_succ(w0.letters, i as int);
                lemma_count_revealed_bounds(w0.letters.take(i as int));
            }
            let cur = self.letters[i];
            if cur.is_none() && c > 0 {
                out.push(Some(self.val.as_str().get_char(i)));
                c = c - 1;
            } else {
                out.push(cur);
            }
            i += 1;
        }
        proof {
            assert(w0.letters.take(n as int) =~= w0.letters);
        }
        self.letters = out;
        proof {
            assert(self@ =~= w0.reveal_spec(count as int));
        }
    }

    /// How many positions are revealed so far.
    pub fn revealed_len(&self) -> (r: usize)
        ensures
            r as int == self@.revealed_count(),
            self@.wf(),
    {
        proof {
            use_type_invariant(&*self);
        }
        let n = self.letters.len();
        let mut cnt: usize = 0;
        let mut i: usize = 0;
        while i < n
            invariant
                i <= n,
                cnt <= i,
                n == self@.letters.len(),
                cnt as int == count_revealed(self@.letters.take(i as int)),
            decreases n - i,
        {
            proof {
                lemma_count_revealed_take_succ(self@.letters, i as int);
            }
            if self.letters[i].is_some() {
                cnt += 1;
            }
            i += 1;
        }
        proof {
            assert(self@.letters.take(n as int) =~= self@.letters);
        }
        cnt
    }

    /// The secret's length in characters, which is also the mask's length.
    pub fn secret_len(&self) -> (r: usize)
        ensures
            r == self@.secret.len(),
            self@.wf(),
    {
        proof {
            use_type_invariant(&*self);
        }
        self.letters.len()
    }

    /// Exact, case-sensitive comparison of a guess against the secret.
    pub fn matches(&self, candidate: &str) -> (r: bool)
        ensures
            r == (candidate@ == self@.secret),
    {
        let c: String = candidate.to_owned();
        self.val == c
    }
}

} // verus!
