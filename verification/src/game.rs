//! The game state machine: owns the secret code, the rules, the turn history
//! and the remaining attempts, and advances on each submitted guess.

use vstd::prelude::*;
use crate::feedback::{exact_count, misplaced_count, Feedback};
use crate::rules::{Limit, Rules};

verus! {

/// A code: an ordered sequence of symbols drawn from a bounded alphabet.
pub type Code = Vec<u8>;

/// Phase of a game: still accepting guesses, won, or lost.
#[derive(Debug, Clone, Copy, PartialEq, Eq, Structural)]
pub enum Status {
    InProgress,
    Won,
    Lost,
}

/// One accepted guess together with the feedback it earned.
pub struct Turn {
    guess: Code,
    feedback: Feedback,
}

impl Turn {
    pub closed spec fn spec_guess(&self) -> Seq<u8> {
        self.guess@
    }

    pub closed spec fn spec_feedback(&self) -> (nat, nat) {
        self.feedback@
    }

    /// The guess this turn recorded.
    pub fn guess(&self) -> (r: &Code)
        ensures
            r@ == self.spec_guess(),
    {
        &self.guess
    }

    /// The feedback this turn earned.
    pub fn feedback(&self) -> (r: &Feedback)
        ensures
            r@ == self.spec_feedback(),
    {
        &self.feedback
    }
}

/// A recorded turn is faithful for a given secret when its guess has the
/// configured length and its feedback is exactly the feedback of that guess
/// against that secret.
pub open spec fn turn_wf(t: Turn, secret: Seq<u8>, code_len: u8) -> bool {
    &&& t.spec_guess().len() == code_len
    &&& t.spec_feedback() == (exact_count(secret, t.spec_guess()), misplaced_count(
        secret,
        t.spec_guess(),
    ))
}

/// The mutable part of a game: the turn history, the phase, and the attempts
/// remaining under an attempt-limited policy.
pub struct GameState {
    history: Vec<Turn>,
    status: Status,
    attempts_left: Option<u16>,
}

impl GameState {
    pub closed spec fn spec_history(&self) -> Seq<Turn> {
        self.history@
    }

    pub closed spec fn spec_status(&self) -> Status {
        self.status
    }

    pub closed spec fn spec_attempts_left(&self) -> Option<u16> {
        self.attempts_left
    }

    /// The feedback of the most recent accepted guess, or `None` when no
    /// guess has been accepted yet.
    pub fn last_feedback(&self) -> (r: Option<&Feedback>)
        ensures
            r is Some <==> self.spec_history().len() > 0,
            r matches Some(fb) ==> fb@ == self.spec_history().last().spec_feedback(),
    {
        if self.history.len() == 0 {
            None
        } else {
            Some(&self.history[self.history.len() - 1].feedback)
        }
    }

    /// The full turn history, oldest first.
    pub fn history(&self) -> (r: &Vec<Turn>)
        ensures
            r@ == self.spec_history(),
    {
        &self.history
    }

    /// The current phase of the game.
    pub fn status(&self) -> (r: Status)
        ensures
            r == self.spec_status(),
    {
        self.status
    }

    /// Attempts remaining; `None` unless the limit policy is attempt-based.
    pub fn attempts_left(&self) -> (r: Option<u16>)
        ensures
            r == self.spec_attempts_left(),
    {
        self.attempts_left
    }
}

/// Opaque handle to the thread-local generator of the rand crate.
#[verifier::external_type_specification]
#[verifier::external_body]
pub struct ExThreadRng(rand::rngs::ThreadRng);

/// Relies on rand::rng: obtains the thread-local random generator.
#[verifier::external_body]
fn fresh_rng() -> rand::rngs::ThreadRng {
    rand::rng()
}

/// Relies on Rng::random_range over `0..bound`: the sample lies in the
/// range, and the call panics exactly when the range is empty.
#[verifier::external_body]
fn random_below(rng: &mut rand::rngs::ThreadRng, bound: u8) -> (r: u8)
    requires
        bound >= 1,
    ensures
        r < bound,
{
    rand::Rng::random_range(rng, 0..bound)
}

/// A running game: the secret, the rules it was started with, and its state.
pub struct Game {
    secret_code: Code,
    rules: Rules,
    state: GameState,
}

impl Game {
    pub closed spec fn spec_secret(&self) -> Seq<u8> {
        self.secret_code@
    }

    pub closed spec fn spec_rules(&self) -> Rules {
        self.rules
    }

    pub closed spec fn spec_state(&self) -> GameState {
        self.state
    }

    pub open spec fn spec_history(&self) -> Seq<Turn> {
        self.spec_state().spec_history()
    }

    pub open spec fn spec_status(&self) -> Status {
        self.spec_state().spec_status()
    }

    pub open spec fn spec_attempts_left(&self) -> Option<u16> {
        self.spec_state().spec_attempts_left()
    }

    /// Invariant of every reachable game.
    ///
    /// The secret has the configured length over the configured alphabet;
    /// every recorded turn is a faithful record against the secret; and
    /// under an attempt-limited policy the attempts remaining are exactly
    /// the budget minus the accepted non-winning guesses, the game is lost
    /// exactly when they reach zero, and losing is possible under no other
    /// policy.
    pub open spec fn wf(&self) -> bool {
        let rules = self.spec_rules();
        let secret = self.spec_secret();
        let hist = self.spec_history();
        &&& rules.wf()
        &&& secret.len() == rules.spec_code_len()
        &&& forall|i: int| 0 <= i < secret.len() ==> secret[i] < rules.spec_available_symbols()
        &&& forall|i: int|
            0 <= i < hist.len() ==> turn_wf(#[trigger] hist[i], secret, rules.spec_code_len())
        &&& match rules.spec_limit() {
            Limit::Attempts { count } => {
                &&& self.spec_attempts_left() matches Some(a)
                &&& a as int == count - hist.len() + (if self.spec_status() is Won {
                    1int
                } else {
                    0int
                })
                &&& a <= count
                &&& (self.spec_status() is InProgress ==> a >= 1)
                &&& (self.spec_status() is Lost ==> a == 0)
                &&& (self.spec_status() is Won ==> a >= 1)
            },
            _ => {
                &&& self.spec_attempts_left() is None
                &&& self.spec_status() !is Lost
            },
        }
        &&& (self.spec_status() is Won ==> hist.len() >= 1 && hist.last().spec_feedback().0
            == rules.spec_code_len())
        &&& (self.spec_status() is Lost ==> hist.len() >= 1)
    }

    /// Law: under an attempt-limited policy, once the history holds as many
    /// accepted guesses as the budget allows without a win, the game is
    /// lost.
    pub proof fn lemma_loss_on_exhausted_budget(self)
        requires
            self.wf(),
            self.spec_status() !is Won,
            self.spec_rules().spec_limit() matches Limit::Attempts { count }
                && self.spec_history().len() >= count,
        ensures
            self.spec_status() is Lost,
    {
    }

    /// Law (history integrity): every recorded turn holds a guess of the
    /// configured length, and its feedback is exactly what the feedback
    /// engine computes for that guess against the secret.
    pub proof fn lemma_history_integrity(self, i: int)
        requires
            self.wf(),
            0 <= i < self.spec_history().len(),
        ensures
            self.spec_history()[i].spec_guess().len() == self.spec_rules().spec_code_len(),
            self.spec_history()[i].spec_feedback() == (
                exact_count(self.spec_secret(), self.spec_history()[i].spec_guess()),
                misplaced_count(self.spec_secret(), self.spec_history()[i].spec_guess()),
            ),
    {
    }

    /// Generate the secret code for the game according to the rules: each
    /// symbol drawn independently from the configured alphabet.
    fn generate_secret_code(rules: &Rules) -> (r: Code)
        ensures
            r@.len() == rules.spec_code_len(),
            forall|i: int| 0 <= i < r@.len() ==> r@[i] < rules.spec_available_symbols(),
            rules.spec_code_len() >= 1,
            rules.spec_available_symbols() >= 1,
    {
        let mut secret_code: Code = Vec::new();
        let mut rng = fresh_rng();
        let code_len = rules.code_len();
        let available_symbols = rules.available_symbols();
        let mut k: u8 = 0;
        while k < code_len
            invariant
                k <= code_len,
                code_len == rules.spec_code_len(),
                available_symbols == rules.spec_available_symbols(),
                available_symbols >= 1,
                secret_code@.len() == k,
                forall|i: int|
                    0 <= i < secret_code@.len() ==> secret_code@[i] < available_symbols,
            decreases code_len - k,
        {
            let s = random_below(&mut rng, available_symbols);
            secret_code.push(s);
            k = k + 1;
        }
        secret_code
    }

    /// Start a game: a fresh secret of the configured length over the
    /// configured alphabet, an empty history, and the full attempt budget
    /// when the limit policy is attempt-based.
    pub fn new(rules: Rules) -> (r: Self)
        ensures
            r.wf(),
            r.spec_rules() == rules,
            r.spec_history().len() == 0,
            r.spec_status() is InProgress,
            r.spec_secret().len() == rules.spec_code_len(),
            forall|i: int|
                0 <= i < r.spec_secret().len() ==> r.spec_secret()[i]
                    < rules.spec_available_symbols(),
            r.spec_attempts_left() == (match rules.spec_limit() {
                Limit::Attempts { count } => Some(count),
                _ => None::<u16>,
            }),
    {
        let secret_code = Self::generate_secret_code(&rules);
        let attempts_left = match rules.limit() {
            Limit::Attempts { count } => Some(*count),
            _ => None,
        };
        Self {
            secret_code,
            rules,
            state: GameState { history: Vec::new(), status: Status::InProgress, attempts_left },
        }
    }

    /// Submit one guess.
    ///
    /// In a terminal state the call is a no-op returning the feedback of the
    /// final turn. Otherwise a guess of the wrong length is rejected with
    /// `None` and changes nothing — no attempt is consumed. An accepted
    /// guess is scored against the secret, recorded in the history, and
    /// drives the state: a full exact count wins regardless of the attempts
    /// remaining; under an attempt-limited policy any other guess consumes
    /// one attempt and loses the game when the budget runs out.
    pub fn guess(&mut self, guess: Code) -> (r: Option<Feedback>)
        requires
            old(self).wf(),
        ensures
            final(self).wf(),
            final(self).spec_secret() == old(self).spec_secret(),
            final(self).spec_rules() == old(self).spec_rules(),
            old(self).spec_status() !is InProgress ==> {
                &&& final(self).spec_state() == old(self).spec_state()
                &&& r matches Some(fb) && fb@ == old(self).spec_history().last().spec_feedback()
            },
            old(self).spec_status() is InProgress && guess@.len() != old(
                self,
            ).spec_rules().spec_code_len() ==> {
                &&& final(self).spec_state() == old(self).spec_state()
                &&& r is None
            },
            old(self).spec_status() is InProgress && guess@.len() == old(
                self,
            ).spec_rules().spec_code_len() ==> {
                let secret = old(self).spec_secret();
                let e = exact_count(secret, guess@);
                let m = misplaced_count(secret, guess@);
                &&& r matches Some(fb) && fb@ == (e, m)
                &&& final(self).spec_history().len() == old(self).spec_history().len() + 1
                &&& final(self).spec_history() == old(self).spec_history().push(
                    final(self).spec_history().last(),
                )
                &&& final(self).spec_history().last().spec_guess() == guess@
                &&& final(self).spec_history().last().spec_feedback() == (e, m)
                &&& (e == old(self).spec_rules().spec_code_len() ==> final(self).spec_status() is Won
                    && final(self).spec_attempts_left() == old(self).spec_attempts_left())
                &&& (e != old(self).spec_rules().spec_code_len() ==> (match old(
                    self,
                ).spec_rules().spec_limit() {
                    Limit::Attempts { count } => {
                        &&& old(self).spec_attempts_left() matches Some(a)
                        &&& final(self).spec_attempts_left() == Some((a - 1) as u16)
                        &&& (a == 1 ==> final(self).spec_status() is Lost)
                        &&& (a != 1 ==> final(self).spec_status() is InProgress)
                    },
                    _ => final(self).spec_status() is InProgress && final(self).spec_attempts_left() is None,
                }))
            },
    {
        match self.state.status {
            Status::InProgress => {},
            _ => {
                let fb = self.state.history[self.state.history.len() - 1].feedback;
                return Some(fb);
            },
        }

        if guess.len() != (self.rules.code_len() as usize) {
            return None;
        }

        let feedback = Feedback::new(&self.secret_code, &guess);
        self.state.history.push(Turn { guess, feedback });

        if feedback.exact() == self.rules.code_len() {
            self.state.status = Status::Won;
        } else {
            let lim = *self.rules.limit();
            match lim {
                Limit::Attempts { .. } => {
                    if let Some(a) = self.state.attempts_left {
                        let a2 = a - 1;
                        self.state.attempts_left = Some(a2);
                        if a2 == 0 {
                            self.state.status = Status::Lost;
                        }
                    }
                },
                _ => {},
            }
        }

        proof {
            let oldh = old(self).spec_history();
            let hist = self.spec_history();
            let secret = self.spec_secret();
            let cl = self.spec_rules().spec_code_len();
            assert forall|i: int| 0 <= i < hist.len() implies turn_wf(
                #[trigger] hist[i],
                secret,
                cl,
            ) by {
                if i < hist.len() - 1 {
                    assert(hist[i] == oldh[i]);
                } else {
                    assert(hist[i] == hist.last());
                }
            }
        }

        Some(feedback)
    }

    /// The secret code, exposed only once the game has reached a terminal
    /// state, for display purposes.
    pub fn secret_code(&self) -> (r: Option<&Code>)
        ensures
            r is Some <==> self.spec_status() !is InProgress,
            r matches Some(c) ==> c@ == self.spec_secret(),
    {
        match self.state.status {
            Status::InProgress => None,
            _ => Some(&self.secret_code),
        }
    }

    /// Read access to the running state: history, status and attempts.
    pub fn state(&self) -> (r: &GameState)
        ensures
            *r == self.spec_state(),
    {
        &self.state
    }
}

} // verus!
