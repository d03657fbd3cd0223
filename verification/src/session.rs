//! The typing session: what is shown, what is typed, and how it is scored.

use crate::pace::Pace;
use crate::shuffle::{lemma_permutes_len, permutes, shuffle};
use crate::text::{
    eq_ignore_ascii_case, parse_words, same_ignoring_ascii_case, texts, trim, trimmed, words_of,
};
use vstd::prelude::*;

verus! {

/// What a session is, as plain mathematics.
pub struct SessionState {
    /// The words to draw from, in the order they were given.
    pub pool: Seq<Seq<char>>,
    /// The words of the current challenge, in the order to type them.
    pub challenge: Seq<Seq<char>>,
    /// How many words of the challenge have been typed; the next one expected
    /// stands at this index.
    pub progress: nat,
    /// The text typed so far for the next word.
    pub input: Seq<char>,
    /// When the running challenge began, in nanoseconds; `None` while idle.
    pub started: Option<u64>,
    /// The score of the last challenge that was completed.
    pub last_result: Option<Pace>,
}

impl SessionState {
    /// What holds of every session: progress stays within the challenge, a
    /// challenge that runs still has a word to type, and a challenge is a
    /// reordering of the pool (or empty, before the first start).
    pub open spec fn wf(self) -> bool {
        &&& self.progress <= self.challenge.len()
        &&& self.started is Some ==> self.progress < self.challenge.len()
        &&& self.challenge.len() == 0 || permutes(self.challenge, self.pool)
    }

    /// The input, trimmed, is the expected word, whatever the case of its
    /// ASCII letters.
    pub open spec fn matched(self) -> bool {
        &&& self.progress < self.challenge.len()
        &&& same_ignoring_ascii_case(trimmed(self.input), self.challenge[self.progress as int])
    }
}

/// The nanoseconds from `start` to `now`; none where the clock stepped back.
pub open spec fn elapsed(start: u64, now: u64) -> u64 {
    if now >= start {
        (now - start) as u64
    } else {
        0
    }
}

/// How a word of the challenge is to be shown.
#[derive(Clone, Copy, Debug, PartialEq, Eq, Structural)]
pub enum Emphasis {
    /// Typed already.
    Weak,
    /// The word to type next.
    Underlined,
    /// Still to come.
    Plain,
}

/// A typing session over a pool of words.
pub struct WordsPerMinute {
    words: Vec<String>,
    current: Vec<String>,
    current_ind: usize,
    current_word: String,
    started: Option<u64>,
    wpm: Option<Pace>,
}

impl View for WordsPerMinute {
    type V = SessionState;

    closed spec fn view(&self) -> SessionState {
        SessionState {
            pool: texts(self.words@),
            challenge: texts(self.current@),
            progress: self.current_ind as nat,
            input: self.current_word@,
            started: self.started,
            last_result: self.wpm,
        }
    }
}

impl WordsPerMinute {
    #[verifier::type_invariant]
    spec fn inv(&self) -> bool {
        self@.wf()
    }

    /// An idle session over the given pool.
    pub fn with_words(words: Vec<String>) -> (s: Self)
        ensures
            s@ == (SessionState {
                pool: texts(words@),
                challenge: Seq::empty(),
                progress: 0,
                input: Seq::empty(),
                started: None,
                last_result: None,
            }),
            s@.wf(),
    {
        let s = WordsPerMinute {
            words,
            current: Vec::new(),
            current_ind: 0,
            current_word: String::new(),
            started: None,
            wpm: None,
        };
        assert(texts(s.current@) =~= Seq::empty());
        s
    }

    /// An idle session over the word list that `text` holds, one word per line.
    pub fn new(text: &str) -> (s: Self)
        ensures
            s@ == (SessionState {
                pool: words_of(text@),
                challenge: Seq::empty(),
                progress: 0,
                input: Seq::empty(),
                started: None,
                last_result: None,
            }),
            s@.wf(),
    {
        Self::with_words(parse_words(text))
    }

    /// A fresh random order of the pool.
    pub fn generate(&self) -> (order: Vec<String>)
        ensures
            permutes(texts(order@), self@.pool),
    {
        let mut order = self.words.clone();
        let mut rng = rand::thread_rng();
        shuffle(&mut order, &mut rng);
        order
    }

    /// Starts a challenge with the words in the given order, at the time
    /// `now`. Any challenge that was running is dropped; the input and the
    /// last score stay. A challenge without words has nothing to type, so it
    /// does not run.
    pub fn start_with(&mut self, order: Vec<String>, now: u64)
        requires
            permutes(texts(order@), old(self)@.pool),
        ensures
            final(self)@ == (SessionState {
                challenge: texts(order@),
                progress: 0,
                started: if order@.len() > 0 {
                    Some(now)
                } else {
                    None
                },
                ..old(self)@
            }),
            final(self)@.wf(),
    {
        proof {
            use_type_invariant(&*self);
        }
        self.started = None;
        self.current_ind = 0;
        self.current = order;
        if self.current.len() > 0 {
            self.started = Some(now);
        }
    }

    /// Starts a challenge at the time `now`: the words of the pool in a fresh
    /// random order, none of them typed yet.
    pub fn start_challenge(&mut self, now: u64)
        ensures
            permutes(final(self)@.challenge, old(self)@.pool),
            final(self)@.challenge.len() == old(self)@.pool.len(),
            final(self)@ == (SessionState {
                challenge: final(self)@.challenge,
                progress: 0,
                started: if old(self)@.pool.len() > 0 {
                    Some(now)
                } else {
                    None
                },
                ..old(self)@
            }),
            final(self)@.wf(),
    {
        let order = self.generate();
        proof {
            lemma_permutes_len(texts(order@), self@.pool);
        }
        self.start_with(order, now);
    }

    /// Whether the input is taken for the expected word: trimmed, it is that
    /// word, whatever the case of its ASCII letters. Nothing is expected once
    /// every word of the challenge is typed.
    pub fn intake(&self) -> (taken: bool)
        ensures
            taken == self@.matched(),
    {
        if self.current_ind < self.current.len() {
            let typed = trim(self.current_word.as_str());
            eq_ignore_ascii_case(typed.as_str(), self.current[self.current_ind].as_str())
        } else {
            false
        }
    }

    /// Submits the input at the time `now`.
    ///
    /// While no challenge runs, nothing happens. Else the input is compared
    /// with the expected word and then cleared; on a match the session moves
    /// on to the next word, and after the last word the challenge ends: the
    /// session is idle again and the score is the number of words of the
    /// challenge over the time since it began.
    pub fn submit_word(&mut self, now: u64)
        ensures
            // The pool and the challenge are never touched.
            final(self)@.pool == old(self)@.pool,
            final(self)@.challenge == old(self)@.challenge,
            // Idle: nothing at all changes.
            old(self)@.started is None ==> *final(self) == *old(self),
            // Running: the input is cleared, match or not.
            old(self)@.started is Some ==> final(self)@.input == Seq::<char>::empty(),
            // A match moves on by exactly one word.
            old(self)@.started is Some && old(self)@.matched() ==> final(self)@.progress
                == old(self)@.progress + 1,
            // Anything else stays where it was.
            old(self)@.started is Some && !old(self)@.matched() ==> final(self)@.progress
                == old(self)@.progress,
            // After the last word the challenge ends and is scored.
            old(self)@.started is Some && final(self)@.progress == old(self)@.challenge.len() ==> {
                &&& final(self)@.started is None
                &&& final(self)@.last_result == Some(
                    Pace {
                        words: old(self)@.challenge.len() as usize,
                        nanos: elapsed(old(self)@.started->0, now),
                    },
                )
            },
            // Before that it runs on, and the last score stays.
            old(self)@.started is Some && final(self)@.progress < old(self)@.challenge.len() ==> {
                &&& final(self)@.started == old(self)@.started
                &&& final(self)@.last_result == old(self)@.last_result
            },
            final(self)@.wf(),
    {
        proof {
            use_type_invariant(&*self);
        }
        if let Some(start) = self.started {
            let taken = self.intake();
            let words: usize = self.current.len();
            self.current_word = String::new();
            if taken {
                let typed: usize = self.current_ind + 1;
                if typed >= words {
                    let nanos: u64 = if now >= start {
                        now - start
                    } else {
                        0
                    };
                    self.wpm = Some(Pace { words, nanos });
                    self.started = None;
                }
                self.current_ind = typed;
            }
        }
    }

    /// How the word at `ind` of the challenge is to be shown: weak once it is
    /// typed, underlined while it is the one expected, plain until then.
    pub fn emphasis(&self, ind: usize) -> (e: Emphasis)
        ensures
            e == if ind < self@.progress {
                Emphasis::Weak
            } else if ind == self@.progress {
                Emphasis::Underlined
            } else {
                Emphasis::Plain
            },
    {
        if ind < self.current_ind {
            Emphasis::Weak
        } else if ind == self.current_ind {
            Emphasis::Underlined
        } else {
            Emphasis::Plain
        }
    }

    /// The score to display, in hundredths of a word per minute: that of the
    /// last completed challenge, and 0 where there is none or it took no time.
    pub fn displayed_hundredths(&self) -> (shown: u128)
        ensures
            shown == match self@.last_result {
                Some(pace) if pace.nanos > 0 => pace.hundredths() as u128,
                _ => 0,
            },
    {
        match self.wpm {
            Some(pace) => match pace.hundredths_per_minute() {
                Some(rate) => rate,
                None => 0,
            },
            None => 0,
        }
    }

    /// The words of the pool.
    pub fn words(&self) -> (words: &Vec<String>)
        ensures
            texts(words@) == self@.pool,
    {
        &self.words
    }

    /// The words of the challenge, in the order to type them.
    pub fn challenge(&self) -> (words: &Vec<String>)
        ensures
            texts(words@) == self@.challenge,
    {
        &self.current
    }

    /// How many words of the challenge have been typed.
    pub fn progress(&self) -> (typed: usize)
        ensures
            typed == self@.progress,
            typed <= self@.challenge.len(),
    {
        proof {
            use_type_invariant(self);
        }
        self.current_ind
    }

    /// The text typed so far.
    pub fn input(&self) -> (input: &str)
        ensures
            input@ == self@.input,
    {
        self.current_word.as_str()
    }

    /// Replaces the text typed so far.
    pub fn set_input(&mut self, input: String)
        ensures
            final(self)@ == (SessionState { input: input@, ..old(self)@ }),
            final(self)@.wf(),
    {
        proof {
            use_type_invariant(&*self);
        }
        self.current_word = input;
    }

    /// Whether a challenge runs.
    pub fn is_active(&self) -> (active: bool)
        ensures
            active == self@.started is Some,
    {
        self.started.is_some()
    }

    /// When the running challenge began; `None` while idle.
    pub fn started(&self) -> (started: Option<u64>)
        ensures
            started == self@.started,
    {
        self.started
    }

    /// The score of the last completed challenge.
    pub fn last_result(&self) -> (pace: Option<Pace>)
        ensures
            pace == self@.last_result,
    {
        self.wpm
    }
}

} // verus!
