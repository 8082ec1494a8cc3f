//! The score of the current life, the best score ever, and how the best
//! score is written down between sessions.

use vstd::prelude::*;

verus! {

/// The key under which the best score is kept in the key-value store.
pub const HIGH_SCORE_KEY: &'static str = "highscore";

/// Current score, best score, and whether this life has beaten the best.
#[derive(Clone, Copy, Debug, PartialEq, Eq, Structural)]
pub struct ScoreBoard {
    pub score: u32,
    pub high_score: u32,
    pub beaten: bool,
}

impl ScoreBoard {
    /// The current score never exceeds the best score.
    pub open spec fn wf(self) -> bool {
        self.score <= self.high_score
    }

    /// The board after one hit worth `points`: the score grows by `points`,
    /// stopping at the largest value it can hold, and a score above the best
    /// becomes the new best.
    pub open spec fn award(self, points: u32) -> ScoreBoard {
        let score = if self.score + points > u32::MAX {
            u32::MAX
        } else {
            (self.score + points) as u32
        };
        if score > self.high_score {
            ScoreBoard { score, high_score: score, beaten: true }
        } else {
            ScoreBoard { score, ..self }
        }
    }

    /// The board after `hits` hits worth `total` points together.
    pub open spec fn after_hits(self, total: int, hits: int) -> ScoreBoard {
        if hits <= 0 {
            self
        } else {
            let score = if self.score + total > u32::MAX {
                u32::MAX
            } else {
                (self.score + total) as u32
            };
            if score > self.high_score {
                ScoreBoard { score, high_score: score, beaten: true }
            } else {
                ScoreBoard { score, ..self }
            }
        }
    }

    /// The board at the start of a life.
    pub open spec fn fresh(self) -> ScoreBoard {
        ScoreBoard { score: 0, beaten: false, ..self }
    }

    /// What has to be written to the store when a life ends: the score, if it
    /// ties the best score.
    pub open spec fn record(self) -> Option<u32> {
        if self.score == self.high_score {
            Some(self.score)
        } else {
            None
        }
    }

    /// A board for a new session, given the best score of earlier sessions.
    pub fn new(high_score: u32) -> (b: ScoreBoard)
        ensures
            b == (ScoreBoard { score: 0, high_score, beaten: false }),
            b.wf(),
    {
        ScoreBoard { score: 0, high_score, beaten: false }
    }

    /// Counts one hit worth `points`.
    pub fn add_points(&mut self, points: u32)
        ensures
            *final(self) == old(self).award(points),
            final(self).score >= old(self).score,
            final(self).high_score >= old(self).high_score,
            old(self).wf() ==> final(self).wf(),
    {
        self.score = self.score.saturating_add(points);
        if self.score > self.high_score {
            self.beaten = true;
            self.high_score = self.score;
        }
    }

    /// Starts a new life: the score returns to zero, the best score stays.
    pub fn reset(&mut self)
        ensures
            *final(self) == old(self).fresh(),
            final(self).wf(),
    {
        self.score = 0;
        self.beaten = false;
    }

    /// Executable form of [`ScoreBoard::record`].
    pub fn to_record(&self) -> (r: Option<u32>)
        ensures
            r == self.record(),
    {
        if self.score == self.high_score {
            Some(self.score)
        } else {
            None
        }
    }
}

/// One more hit on a board that has taken some hits already.
pub proof fn lemma_award_after_hits(b: ScoreBoard, total: int, hits: int, points: u32)
    requires
        total >= 0,
        hits >= 0,
        hits == 0 ==> total == 0,
    ensures
        b.after_hits(total, hits).award(points) == b.after_hits(total + points, hits + 1),
{
}

/// Within a life the score never goes down, and the best score never goes
/// down at all: not by a hit, and not by the start of a new life.
pub proof fn lemma_scores_monotonic(b: ScoreBoard, total: int, hits: int)
    requires
        total >= 0,
    ensures
        b.after_hits(total, hits).score >= b.score,
        b.after_hits(total, hits).high_score >= b.high_score,
        b.fresh().high_score == b.high_score,
        b.wf() ==> b.after_hits(total, hits).wf(),
        b.wf() && hits > 0 ==> b.after_hits(total, hits).score == crate::units::clamp_u32(
            b.score + total,
        ),
        b.wf() ==> b.after_hits(total, hits).beaten == (b.beaten || b.after_hits(
            total,
            hits,
        ).score > b.high_score),
{
}

/// The value of a string of decimal digits, most significant first.
pub open spec fn digits_value(s: Seq<u8>) -> int
    decreases s.len(),
{
    if s.len() == 0 {
        0
    } else {
        digits_value(s.drop_last()) * 10 + (s.last() - 48)
    }
}

/// Every byte is one of the characters `0` to `9`.
pub open spec fn all_digits(s: Seq<u8>) -> bool {
    forall|i: int| 0 <= i < s.len() ==> 48 <= #[trigger] s[i] <= 57
}

/// The decimal digits of `n`, most significant first, without leading zeros.
pub open spec fn decimal(n: nat) -> Seq<u8>
    decreases n,
{
    if n < 10 {
        seq![(48 + n) as u8]
    } else {
        decimal(n / 10).push((48 + n % 10) as u8)
    }
}

/// The score that a stored string stands for: the string must be one or more
/// decimal digits whose value fits in a `u32`.
pub open spec fn parsed(s: Seq<u8>) -> Option<u32> {
    if s.len() > 0 && all_digits(s) && digits_value(s) <= u32::MAX {
        Some(digits_value(s) as u32)
    } else {
        None
    }
}

/// The best score of earlier sessions, given what the store holds under
/// [`HIGH_SCORE_KEY`]: zero if it holds nothing or something unreadable.
pub open spec fn loaded(stored: Option<Seq<u8>>) -> u32 {
    match stored {
        Some(s) => match parsed(s) {
            Some(n) => n,
            None => 0,
        },
        None => 0,
    }
}

/// Reading back what was written gives the score that was written.
pub proof fn lemma_round_trip(n: u32)
    ensures
        decimal(n as nat).len() > 0,
        all_digits(decimal(n as nat)),
        digits_value(decimal(n as nat)) == n,
        parsed(decimal(n as nat)) == Some(n),
        loaded(Some(decimal(n as nat))) == n,
{
    lemma_decimal(n as nat);
}

proof fn lemma_decimal(n: nat)
    ensures
        decimal(n).len() > 0,
        all_digits(decimal(n)),
        digits_value(decimal(n)) == n,
    decreases n,
{
    if n < 10 {
        let s = decimal(n);
        assert(s.drop_last() =~= Seq::<u8>::empty());
        assert(digits_value(s.drop_last()) == 0);
    } else {
        lemma_decimal(n / 10);
        let s = decimal(n);
        assert(s.drop_last() =~= decimal(n / 10));
    }
}

proof fn lemma_digits_value_grows(s: Seq<u8>, k: int)
    requires
        all_digits(s),
        0 <= k <= s.len(),
    ensures
        0 <= digits_value(s.take(k)) <= digits_value(s),
    decreases s.len() - k,
{
    if k == s.len() {
        assert(s.take(k) =~= s);
        lemma_digits_value_nonnegative(s);
    } else {
        lemma_digits_value_grows(s, k + 1);
        let longer = s.take(k + 1);
        assert(longer.drop_last() =~= s.take(k));
        assert(longer.last() == s[k]);
        lemma_digits_value_nonnegative(s.take(k));
    }
}

proof fn lemma_digits_value_nonnegative(s: Seq<u8>)
    requires
        all_digits(s),
    ensures
        digits_value(s) >= 0,
    decreases s.len(),
{
    if s.len() > 0 {
        lemma_digits_value_nonnegative(s.drop_last());
    }
}

/// Writes a score as decimal digits.
pub fn encode_high_score(score: u32) -> (bytes: Vec<u8>)
    ensures
        bytes@ == decimal(score as nat),
        parsed(bytes@) == Some(score),
    decreases score,
{
    proof {
        lemma_round_trip(score);
    }
    if score < 10 {
        let mut bytes: Vec<u8> = Vec::new();
        bytes.push(48 + score as u8);
        assert(bytes@ =~= decimal(score as nat));
        bytes
    } else {
        let mut bytes: Vec<u8> = encode_high_score(score / 10);
        bytes.push(48 + (score % 10) as u8);
        bytes
    }
}

/// Reads a score written as decimal digits; anything else is refused.
pub fn decode_high_score(bytes: &[u8]) -> (r: Option<u32>)
    ensures
        r == parsed(bytes@),
{
    if bytes.len() == 0 {
        return None;
    }
    let mut value: u64 = 0;
    let mut i: usize = 0;
    while i < bytes.len()
        invariant
            0 <= i <= bytes.len(),
            all_digits(bytes@.take(i as int)),
            value == digits_value(bytes@.take(i as int)),
            value <= u32::MAX,
        decreases bytes.len() - i,
    {
        let b: u8 = bytes[i];
        if b < 48 || b > 57 {
            return None;
        }
        proof {
            let longer = bytes@.take(i + 1);
            assert(longer.drop_last() =~= bytes@.take(i as int));
            assert(longer.last() == b);
            assert forall|k: int| 0 <= k < longer.len() implies 48 <= #[trigger] longer[k]
                <= 57 by {
                if k < i {
                    assert(longer[k] == bytes@.take(i as int)[k]);
                }
            }
        }
        value = value * 10 + (b - 48) as u64;
        if value > 0xffff_ffff {
            proof {
                if all_digits(bytes@) {
                    lemma_digits_value_grows(bytes@, i + 1);
                }
            }
            return None;
        }
        i += 1;
    }
    assert(bytes@.take(i as int) =~= bytes@);
    Some(value as u32)
}

/// The best score of earlier sessions, given what the store holds.
pub fn load_high_score(stored: Option<&[u8]>) -> (high_score: u32)
    ensures
        high_score == loaded(
            match stored {
                Some(s) => Some(s@),
                None => None,
            },
        ),
{
    match stored {
        Some(bytes) => match decode_high_score(bytes) {
            Some(n) => n,
            None => 0,
        },
        None => 0,
    }
}

} // verus!
