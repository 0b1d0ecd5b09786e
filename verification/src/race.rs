use crate::db::Text;
use crate::words::{word_count, word_count_spec};
use vstd::prelude::*;
use vstd::string::StrSliceExecFns;

verus! {

/// One round of typing practice: the target line, the input typed so far, and
/// the two timestamps (milliseconds of wall-clock time) that bound the round.
#[derive(Debug, Clone)]
pub struct Race {
    pub line: String,
    pub source: String,
    pub input: String,
    pub start: Option<u64>,
    pub end: Option<u64>,
}

/// Relies on `std::time::SystemTime::now` and
/// `SystemTime::duration_since(UNIX_EPOCH)`: the wall clock as milliseconds
/// since the epoch. Nothing is assumed of the value; the clock may regress.
#[verifier::external_body]
fn now_millis() -> u64 {
    match std::time::SystemTime::now().duration_since(std::time::UNIX_EPOCH) {
        Ok(d) => d.as_millis() as u64,
        Err(_) => 0,
    }
}

/// The completion timestamp: `now`, clamped so it never precedes the start.
pub open spec fn clamped_end(start: u64, now: u64) -> u64 {
    if now >= start {
        now
    } else {
        start
    }
}

impl Race {
    /// The session invariant: the input is a prefix of the target line, the
    /// start timestamp is set exactly while input exists, the end timestamp is
    /// set exactly once a nonempty line has been fully typed, and the end
    /// never precedes the start.
    pub open spec fn wf(self) -> bool {
        &&& self.input@.len() <= self.line@.len()
        &&& self.input@ == self.line@.subrange(0, self.input@.len() as int)
        &&& (self.start is Some <==> self.input@.len() > 0)
        &&& (self.end is Some <==> (self.input@ == self.line@ && self.line@.len() > 0))
        &&& (self.start is Some && self.end is Some ==> self.start->0 <= self.end->0)
    }

    /// The input reproduces the whole target line.
    pub open spec fn completed(self) -> bool {
        self.input@ == self.line@
    }

    /// `c` is the next expected character: the line has one left, and it is `c`.
    pub open spec fn accepts(self, c: char) -> bool {
        &&& self.input@.len() < self.line@.len()
        &&& self.line@[self.input@.len() as int] == c
    }

    /// The state after an accepted character `c` at wall-clock `now_ms`: the
    /// character is appended, the start is recorded on the first acceptance,
    /// and the end is recorded exactly when the line is completed.
    pub open spec fn inserted(pre: Race, post: Race, c: char, now_ms: u64) -> bool {
        &&& post.line@ == pre.line@
        &&& post.source@ == pre.source@
        &&& post.input@ == pre.input@.push(c)
        &&& post.start == (if pre.start is Some {
            pre.start
        } else {
            Some(now_ms)
        })
        &&& (post.completed() ==> post.end == Some(clamped_end(post.start->0, now_ms)))
        &&& (!post.completed() ==> post.end is None)
    }

    /// Milliseconds from the start to the end (or to `now_ms` while running),
    /// clamped at zero; zero before the round has started.
    pub open spec fn elapsed_ms(self, now_ms: u64) -> int {
        if self.start is None {
            0
        } else {
            let s = self.start->0 as int;
            let e = if self.end is Some {
                self.end->0 as int
            } else {
                now_ms as int
            };
            if e >= s {
                e - s
            } else {
                0
            }
        }
    }

    /// The session's rate value, scaled by 1000: word count times elapsed
    /// milliseconds. Note that the game's rate multiplies the word count by
    /// the elapsed seconds rather than dividing by minutes — not a true
    /// per-minute rate, and it grows while a round stays open — but it is the
    /// value the game has always scored by, so it stays.
    pub open spec fn wpm_ms(self, now_ms: u64) -> int {
        word_count_spec(self.input@) * self.elapsed_ms(now_ms)
    }

    /// The score: the rate value times 20, truncated to a whole number, capped
    /// at the largest representable score.
    pub open spec fn score_spec(self, now_ms: u64) -> int {
        let q = self.wpm_ms(now_ms) / 50;
        if q > u64::MAX {
            u64::MAX as int
        } else {
            q
        }
    }

    /// Begins a fresh session over the given text: nothing typed, no
    /// timestamps.
    pub fn with_line(line: Text) -> (r: Self)
        ensures
            r.line@ == line.text@,
            r.source@ == line.source@,
            r.input@ == Seq::<char>::empty(),
            r.start is None,
            r.end is None,
            r.wf(),
    {
        let r = Self { line: line.text, source: line.source, input: String::new(), start: None, end: None };
        proof {
            assert(r.input@ =~= r.line@.subrange(0, 0));
            if r.line@.len() > 0 {
                assert(r.input@.len() != r.line@.len());
            }
        }
        r
    }

    /// Whether `character` is the next one the target line expects. A session
    /// whose line is fully typed (or empty) expects nothing.
    pub fn is_next(&self, character: char) -> (r: bool)
        ensures
            r == self.accepts(character),
    {
        let ilen = self.input.as_str().unicode_len();
        let tlen = self.line.as_str().unicode_len();
        if ilen >= tlen {
            return false;
        }
        let expected = self.line.as_str().get_char(ilen);
        expected == character
    }

    /// One keystroke against the session, at wall-clock `now_ms`: a matching
    /// character is appended (recording the start on the first acceptance and
    /// the end on completion) and acknowledged with `true`; any other
    /// character leaves the session untouched and yields `false`.
    pub fn insert_char_at(&mut self, character: char, now_ms: u64) -> (accepted: bool)
        requires
            old(self).wf(),
        ensures
            final(self).wf(),
            accepted == old(self).accepts(character),
            !accepted ==> *final(self) == *old(self),
            accepted ==> Race::inserted(*old(self), *final(self), character, now_ms),
    {
        if !self.is_next(character) {
            return false;
        }
        if self.start.is_none() {
            self.start = Some(now_ms);
        }
        let ghost pre = *old(self);
        crate::words::push_char(&mut self.input, character);
        proof {
            let n = pre.input@.len() as int;
            assert(self.input@ =~= self.line@.subrange(0, n + 1)) by {
                assert(self.line@.subrange(0, n + 1) =~= self.line@.subrange(0, n).push(
                    self.line@[n],
                ));
            }
        }
        let done = self.input == self.line;
        if done {
            let s = self.start.unwrap();
            self.end = Some(if now_ms >= s {
                now_ms
            } else {
                s
            });
        } else {
            proof {
                if self.input@.len() == self.line@.len() {
                    assert(self.line@.subrange(0, self.line@.len() as int) =~= self.line@);
                }
                assert(pre.input@ != pre.line@);
            }
        }
        true
    }

    /// One keystroke against the session, timed by the wall clock. The
    /// timestamp the clock handed back is existentially quantified: everything
    /// else about the transition is exact.
    pub fn insert_char(&mut self, character: char) -> (accepted: bool)
        requires
            old(self).wf(),
        ensures
            final(self).wf(),
            accepted == old(self).accepts(character),
            !accepted ==> *final(self) == *old(self),
            accepted ==> exists|now_ms: u64|
                Race::inserted(*old(self), *final(self), character, now_ms),
    {
        let ghost pre = *old(self);
        let t = now_millis();
        let accepted = self.insert_char_at(character, t);
        proof {
            if accepted {
                assert(Race::inserted(pre, *self, character, t));
            }
        }
        accepted
    }

    /// Whether the round is complete: the input equals the target line.
    pub fn is_completed(&self) -> (r: bool)
        ensures
            r == self.completed(),
    {
        self.input == self.line
    }

    /// Milliseconds elapsed so far, against the given wall-clock reading.
    pub fn elapsed_millis_at(&self, now_ms: u64) -> (r: u64)
        ensures
            r == self.elapsed_ms(now_ms),
    {
        match self.start {
            None => 0,
            Some(s) => {
                let e = match self.end {
                    Some(e) => e,
                    None => now_ms,
                };
                if e >= s {
                    e - s
                } else {
                    0
                }
            },
        }
    }

    /// The rate value scaled by 1000 (word count times elapsed milliseconds),
    /// against the given wall-clock reading: zero before the round has
    /// started, frozen once it is complete, growing live in between.
    pub fn words_per_minute_millis_at(&self, now_ms: u64) -> (r: u128)
        ensures
            r == self.wpm_ms(now_ms),
    {
        let wc = word_count(self.input.as_str());
        let el = self.elapsed_millis_at(now_ms);
        proof {
            assert((wc as int) * (el as int) <= (u64::MAX as int) * (u64::MAX as int)
                && (u64::MAX as int) * (u64::MAX as int) < 0x100000000000000000000000000000000int)
                by (nonlinear_arith)
                requires
                    0 <= wc as int <= u64::MAX as int,
                    0 <= el as int <= u64::MAX as int,
            ;
        }
        (wc as u128) * (el as u128)
    }

    /// The rate value scaled by 1000, timed by the wall clock: zero before the
    /// round has started, a fixed value once it is complete, and otherwise the
    /// value at whatever instant the clock handed back.
    pub fn words_per_minute_millis(&self) -> (r: u128)
        ensures
            exists|now_ms: u64| r == self.wpm_ms(now_ms),
            self.start is None ==> r == 0,
            self.end is Some ==> r == self.wpm_ms(0),
    {
        let t = now_millis();
        let r = self.words_per_minute_millis_at(t);
        proof {
            assert(r == self.wpm_ms(t));
        }
        r
    }

    /// The score at the given wall-clock reading: the rate value times 20,
    /// truncated (one point per 50 word-milliseconds), capped at `u64::MAX`.
    pub fn score_at(&self, now_ms: u64) -> (r: u64)
        ensures
            r as int == self.score_spec(now_ms),
    {
        let q = self.words_per_minute_millis_at(now_ms) / 50;
        if q > u64::MAX as u128 {
            u64::MAX
        } else {
            q as u64
        }
    }

    /// The score, timed by the wall clock: zero before the round has started,
    /// a fixed value once it is complete, and otherwise the score at whatever
    /// instant the clock handed back.
    pub fn score(&self) -> (r: u64)
        ensures
            exists|now_ms: u64| r as int == self.score_spec(now_ms),
            self.start is None ==> r == 0,
            self.end is Some ==> r as int == self.score_spec(0),
    {
        let t = now_millis();
        let r = self.score_at(t);
        proof {
            assert(r as int == self.score_spec(t));
        }
        r
    }
}

/// The input never diverges from the target: in every well-formed session it
/// is an exact prefix of the line.
pub proof fn lemma_typed_is_prefix(r: Race)
    requires
        r.wf(),
    ensures
        r.input@.len() <= r.line@.len(),
        r.input@ == r.line@.subrange(0, r.input@.len() as int),
{
}

/// Completion is exact: a well-formed session is complete if and only if its
/// end timestamp is set, except over an empty line, which counts as complete
/// from the outset though no keystroke ever ends it.
pub proof fn lemma_completed_iff_ended(r: Race)
    requires
        r.wf(),
    ensures
        r.completed() <==> (r.end is Some || r.line@.len() == 0),
{
    if r.line@.len() == 0 {
        assert(r.input@ =~= r.line@);
    }
}

/// Past completion nothing moves: a complete session accepts no character,
/// so every further keystroke is refused and leaves the session unchanged.
pub proof fn lemma_no_mutation_past_completion(r: Race, c: char)
    requires
        r.wf(),
        r.completed(),
    ensures
        !r.accepts(c),
{
}

/// The start timestamp moves from `None` to `Some` exactly once: an accepted
/// keystroke keeps an existing start and sets one only on the very first
/// acceptance, when nothing has been typed yet.
pub proof fn lemma_start_set_once(pre: Race, post: Race, c: char, now_ms: u64)
    requires
        pre.wf(),
        Race::inserted(pre, post, c, now_ms),
    ensures
        pre.start is Some ==> post.start == pre.start,
        pre.start is None ==> post.start == Some(now_ms) && pre.input@.len() == 0,
{
}

/// The score is the rate value times twenty, truncated to a whole number
/// (and capped): dividing the millisecond-scaled rate by fifty is the same as
/// scaling it by twenty over a thousand.
pub proof fn lemma_score_is_rate_times_twenty(r: Race, now_ms: u64)
    ensures
        r.score_spec(now_ms) == (if r.wpm_ms(now_ms) * 20 / 1000 > u64::MAX {
            u64::MAX as int
        } else {
            r.wpm_ms(now_ms) * 20 / 1000
        }),
{
    let q = r.wpm_ms(now_ms);
    assert(q >= 0) by (nonlinear_arith)
        requires
            q == word_count_spec(r.input@) * r.elapsed_ms(now_ms),
            word_count_spec(r.input@) >= 0,
            r.elapsed_ms(now_ms) >= 0,
    ;
    assert(q * 20 / 1000 == q / 50) by (nonlinear_arith)
        requires
            q >= 0,
    ;
}

/// While the round is running, the rate value is evaluated live: with at
/// least one word typed, a later clock reading yields a strictly larger value.
pub proof fn lemma_live_rate_increases(r: Race, now1: u64, now2: u64)
    requires
        r.start is Some,
        r.end is None,
        r.start->0 <= now1 < now2,
        word_count_spec(r.input@) > 0,
    ensures
        r.wpm_ms(now1) < r.wpm_ms(now2),
{
    let wc = word_count_spec(r.input@) as int;
    let e1 = r.elapsed_ms(now1);
    let e2 = r.elapsed_ms(now2);
    assert(wc * e1 < wc * e2) by (nonlinear_arith)
        requires
            wc > 0,
            0 <= e1 < e2,
    ;
}

} // verus!
