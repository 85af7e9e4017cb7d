//! The quiz session driver: one state machine over a quiz run. It owns the
//! loaded set, tracks the presentation order and the running score, and
//! takes every decision — what to present next, whether a submission is
//! correct, when the run is done. The console adapter only performs the
//! actions and hands back what the user typed.

use vstd::prelude::*;

use crate::aggregate::{aggregate, seq_has_text, valid_candidates, CandidateAnswers};
use crate::errors::AskmeError;
use crate::matcher::spec_matches;
use crate::rng::{rand_below, shuffle_arr};
use crate::types::{distinct_text_count, AskmeSet, Question, Settings};

verus! {

/// Where one quiz run stands.
pub enum Phase {
    /// Not started yet.
    Idle,
    /// A question is being presented: `cursor` names the slot of `order`
    /// whose question awaits an answer.
    Presenting,
    /// The run is over; only the score remains to report.
    Done,
}

/// One quiz run over one loaded set.
pub struct App {
    pub set: AskmeSet,
    pub settings: Settings,
    pub correct_count: i32,
    /// The presentation order of the current round: indices into
    /// `set.questions`, one per question, shuffled when so configured.
    pub order: Vec<usize>,
    /// The slot of `order` currently presented.
    pub cursor: usize,
    pub phase: Phase,
}

/// The identity order `0, 1, .., n-1`.
pub open spec fn identity_order(n: nat) -> Seq<usize> {
    Seq::new(n, |i: int| i as usize)
}

/// A round order is a permutation of the question indices.
pub open spec fn order_wf(order: Seq<usize>, n: nat) -> bool {
    &&& order.len() == n
    &&& forall|i: int| 0 <= i < order.len() ==> order[i] < n
    &&& order.to_multiset() == identity_order(n).to_multiset()
}

impl App {
    /// The state invariant of a run.
    pub open spec fn wf(self) -> bool {
        &&& self.correct_count >= 0
        &&& self.phase is Presenting ==> {
            &&& order_wf(self.order@, self.set.questions@.len())
            &&& self.cursor < self.order@.len()
        }
    }

    /// The question currently presented.
    pub open spec fn current_question_spec(self) -> Question {
        self.set.questions@[self.order@[self.cursor as int] as int]
    }

    /// Builds a run over the given set, not yet started.
    pub fn new(set: AskmeSet, settings: Settings) -> (r: App)
        ensures
            r.set == set,
            r.settings == settings,
            r.correct_count == 0,
            r.phase is Idle,
            r.wf(),
    {
        App {
            set,
            settings,
            correct_count: 0,
            order: Vec::new(),
            cursor: 0,
            phase: Phase::Idle,
        }
    }

    /// Starts the run: fails exactly when the set holds no questions, and
    /// otherwise lays out the first round's presentation order.
    pub fn start(&mut self) -> (r: Result<(), AskmeError>)
        requires
            old(self).phase is Idle,
        ensures
            final(self).set == old(self).set,
            final(self).settings == old(self).settings,
            final(self).correct_count == old(self).correct_count,
            r is Err <==> old(self).set.questions@.len() == 0,
            r is Err ==> final(self).phase is Idle,
            r is Ok ==> final(self).phase is Presenting && final(self).cursor == 0,
            r is Ok && !old(self).settings.shuffle ==> final(self).order@ == identity_order(
                old(self).set.questions@.len(),
            ),
            old(self).wf() ==> final(self).wf(),
    {
        if self.set.questions.len() == 0 {
            return Err(AskmeError::new("no questions provided!".to_owned(), None));
        }
        let order = build_order(self.set.questions.len(), self.settings.shuffle);
        self.order = order;
        self.cursor = 0;
        self.phase = Phase::Presenting;
        Ok(())
    }

    /// The question currently awaiting an answer.
    pub fn current_question(&self) -> (r: &Question)
        requires
            self.wf(),
            self.phase is Presenting,
        ensures
            *r == self.current_question_spec(),
    {
        &self.set.questions[self.order[self.cursor]]
    }

    /// Scores one free-text submission against the current question:
    /// the trimmed text must match an accepted answer under the configured
    /// case policy. The score rises exactly on a correct submission.
    pub fn check_answer(&mut self, user_answer: &str) -> (correct: bool)
        requires
            old(self).wf(),
            old(self).phase is Presenting,
            old(self).correct_count < i32::MAX,
        ensures
            correct == spec_matches(
                user_answer@,
                old(self).current_question_spec().answers.deep_view(),
                old(self).settings.case_sensitive,
            ),
            final(self).correct_count == old(self).correct_count + if correct {
                1int
            } else {
                0int
            },
            final(self).set == old(self).set,
            final(self).settings == old(self).settings,
            final(self).order == old(self).order,
            final(self).cursor == old(self).cursor,
            final(self).phase == old(self).phase,
            final(self).wf(),
    {
        let q = &self.set.questions[self.order[self.cursor]];
        let correct = crate::matcher::matches(user_answer, &q.answers, self.settings.case_sensitive);
        if correct {
            self.correct_count = self.correct_count + 1;
        }
        correct
    }

    /// Scores one multiple-choice submission: the pick is correct exactly
    /// when its text equals the text at the correct slot.
    pub fn check_choice(&mut self, choices: &Vec<String>, correct_index: usize, chosen: &String) -> (correct:
        bool)
        requires
            old(self).wf(),
            old(self).phase is Presenting,
            old(self).correct_count < i32::MAX,
            correct_index < choices@.len(),
        ensures
            correct == (choices@[correct_index as int]@ == chosen@),
            final(self).correct_count == old(self).correct_count + if correct {
                1int
            } else {
                0int
            },
            final(self).set == old(self).set,
            final(self).settings == old(self).settings,
            final(self).order == old(self).order,
            final(self).cursor == old(self).cursor,
            final(self).phase == old(self).phase,
            final(self).wf(),
    {
        let correct = choices[correct_index] == *chosen;
        if correct {
            self.correct_count = self.correct_count + 1;
        }
        correct
    }

    /// Scores one true/false submission: a shown answer was claimed to
    /// belong to the current question, the user said yes or no, and the
    /// submission is correct when the claim's truth agrees with the answer.
    pub fn check_true_false(&mut self, shown_answer: &String, user_says_yes: bool) -> (correct:
        bool)
        requires
            old(self).wf(),
            old(self).phase is Presenting,
            old(self).correct_count < i32::MAX,
        ensures
            correct == (seq_has_text(old(self).current_question_spec().answers@, shown_answer@)
                == user_says_yes),
            final(self).correct_count == old(self).correct_count + if correct {
                1int
            } else {
                0int
            },
            final(self).set == old(self).set,
            final(self).settings == old(self).settings,
            final(self).order == old(self).order,
            final(self).cursor == old(self).cursor,
            final(self).phase == old(self).phase,
            final(self).wf(),
    {
        let q = &self.set.questions[self.order[self.cursor]];
        let shown_is_accepted = crate::aggregate::contains_text(&q.answers, shown_answer);
        let correct = shown_is_accepted == user_says_yes;
        if correct {
            self.correct_count = self.correct_count + 1;
        }
        correct
    }

    /// Builds the candidate answer list for the given question out of the
    /// given pool.
    pub fn aggregate_answers(&self, curr_question: &Question, questions: &Vec<Question>, len: usize) -> (r:
        Result<CandidateAnswers, AskmeError>)
        requires
            len >= 1,
        ensures
            r is Err <==> (questions@.len() == 0 || distinct_text_count(questions@) == 0
                || curr_question.answers@.len() == 0),
            r matches Ok(out) ==> {
                &&& out.choices@.len() == vstd::math::min(
                    len as int,
                    distinct_text_count(questions@) as int,
                )
                &&& out.clamped == (len > distinct_text_count(questions@))
                &&& out.correct_index < out.choices@.len()
                &&& valid_candidates(
                    out.choices@,
                    out.correct_index as int,
                    *curr_question,
                    questions@,
                )
            },
    {
        aggregate(curr_question, questions, len)
    }

    /// Moves past the scored question: to the next slot of the round, or —
    /// at the round's end — into a fresh round when the run is configured
    /// to loop, and to done otherwise.
    pub fn advance(&mut self) -> (done: bool)
        requires
            old(self).wf(),
            old(self).phase is Presenting,
        ensures
            final(self).set == old(self).set,
            final(self).settings == old(self).settings,
            final(self).correct_count == old(self).correct_count,
            final(self).wf(),
            done == (old(self).cursor + 1 == old(self).order@.len()
                && !old(self).settings.loop_questions),
            done ==> final(self).phase is Done,
            !done ==> final(self).phase is Presenting,
            old(self).cursor + 1 < old(self).order@.len() ==> final(self).cursor == old(
                self,
            ).cursor + 1 && final(self).order == old(self).order,
            old(self).cursor + 1 == old(self).order@.len() && old(self).settings.loop_questions
                ==> final(self).cursor == 0,
            old(self).cursor + 1 == old(self).order@.len() && old(self).settings.loop_questions
                && !old(self).settings.shuffle ==> final(self).order@ == identity_order(
                old(self).set.questions@.len(),
            ),
    {
        let round_len = self.order.len();
        if self.cursor + 1 < round_len {
            self.cursor = self.cursor + 1;
            false
        } else if self.settings.loop_questions {
            let order = build_order(self.set.questions.len(), self.settings.shuffle);
            self.order = order;
            self.cursor = 0;
            false
        } else {
            self.phase = Phase::Done;
            true
        }
    }

    /// The final report: how many submissions were correct, out of how
    /// many questions the set holds.
    pub fn score(&self) -> (r: (i32, usize))
        ensures
            r.0 == self.correct_count,
            r.1 == self.set.questions@.len(),
    {
        (self.correct_count, self.set.questions.len())
    }

    /// Picks a random answer out of the whole set, skipping the questions
    /// whose answer list equals, text for text, that of the excluded
    /// question.
    pub fn get_random_answer_from_set(&self, exclude_question_ans: Option<&Question>) -> (r:
        &String)
        requires
            exists|i: int, j: int|
                eligible_answer(self.set.questions@, exclude_question_ans, i, j),
        ensures
            from_eligible(self.set.questions@, exclude_question_ans, r@),
    {
        let questions = &self.set.questions;
        let mut flat: Vec<&String> = Vec::new();
        let mut qi: usize = 0;
        while qi < questions.len()
            invariant
                qi <= questions@.len(),
                forall|k: int|
                    0 <= k < flat@.len() ==> from_eligible(
                        questions@,
                        exclude_question_ans,
                        (#[trigger] flat@[k])@,
                    ),
                forall|i: int, j: int|
                    #![trigger questions@[i].answers@[j]]
                    0 <= i < qi && eligible_answer(questions@, exclude_question_ans, i, j)
                        ==> flat_has_text(flat@, questions@[i].answers@[j]@),
            decreases questions@.len() - qi,
        {
            let skip = match exclude_question_ans {
                Some(q) => answers_equal(&questions[qi].answers, &q.answers),
                None => false,
            };
            if !skip {
                let q = &questions[qi];
                let mut aj: usize = 0;
                while aj < q.answers.len()
                    invariant
                        qi < questions@.len(),
                        q == &questions@[qi as int],
                        aj <= q.answers@.len(),
                        !match (exclude_question_ans) {
                            Some(e) => questions@[qi as int].answers.deep_view()
                                == e.answers.deep_view(),
                            None => false,
                        },
                        forall|k: int|
                            0 <= k < flat@.len() ==> from_eligible(
                                questions@,
                                exclude_question_ans,
                                (#[trigger] flat@[k])@,
                            ),
                        forall|i: int, j: int|
                            #![trigger questions@[i].answers@[j]]
                            0 <= i < qi && eligible_answer(questions@, exclude_question_ans, i, j)
                                ==> flat_has_text(flat@, questions@[i].answers@[j]@),
                        forall|j: int|
                            0 <= j < aj ==> flat_has_text(
                                flat@,
                                (#[trigger] questions@[qi as int].answers@[j])@,
                            ),
                    decreases q.answers@.len() - aj,
                {
                    let a = &q.answers[aj];
                    let ghost old_flat = flat@;
                    flat.push(a);
                    proof {
                        let last = old_flat.len() as int;
                        assert(flat@[last]@ == questions@[qi as int].answers@[aj as int]@);
                        assert(eligible_answer(
                            questions@,
                            exclude_question_ans,
                            qi as int,
                            aj as int,
                        ));
                        assert(from_eligible(questions@, exclude_question_ans, flat@[last]@));
                        assert forall|t: Seq<char>| flat_has_text(old_flat, t) implies flat_has_text(
                            flat@,
                            t,
                        ) by {
                            let k = choose|k: int| 0 <= k < old_flat.len() && old_flat[k]@ == t;
                            assert(flat@[k]@ == t);
                        }
                        assert(flat_has_text(flat@, flat@[last]@));
                    }
                    aj = aj + 1;
                }
            }
            qi = qi + 1;
        }
        proof {
            let (i, j): (int, int) = choose|i: int, j: int|
                eligible_answer(self.set.questions@, exclude_question_ans, i, j);
            assert(flat_has_text(flat@, questions@[i].answers@[j]@));
            assert(flat@.len() > 0);
        }
        let idx = rand_below(flat.len());
        flat[idx]
    }
}

/// Whether some entry of `flat` carries the text `t`.
pub open spec fn flat_has_text(flat: Seq<&String>, t: Seq<char>) -> bool {
    exists|k: int| 0 <= k < flat.len() && flat[k]@ == t
}

/// Whether `t` is the text of some answer of `pool` that the exclusion
/// leaves eligible.
pub open spec fn from_eligible(
    pool: Seq<Question>,
    excl: Option<&Question>,
    t: Seq<char>,
) -> bool {
    exists|i: int, j: int|
        eligible_answer(pool, excl, i, j) && pool[i].answers@[j]@ == t
}

/// Whether the answer at `(i, j)` of `pool` may be shown: the pair is in
/// range and its question's answers differ, as texts, from those of the
/// excluded question.
pub open spec fn eligible_answer(
    pool: Seq<Question>,
    excl: Option<&Question>,
    i: int,
    j: int,
) -> bool {
    &&& 0 <= i < pool.len()
    &&& 0 <= j < pool[i].answers@.len()
    &&& !match excl {
        Some(e) => pool[i].answers.deep_view() == e.answers.deep_view(),
        None => false,
    }
}

/// Whether two answer lists hold the same texts in the same order.
fn answers_equal(a: &Vec<String>, b: &Vec<String>) -> (r: bool)
    ensures
        r == (a.deep_view() == b.deep_view()),
{
    if a.len() != b.len() {
        assert(a.deep_view().len() != b.deep_view().len());
        return false;
    }
    let mut i: usize = 0;
    while i < a.len()
        invariant
            a@.len() == b@.len(),
            i <= a@.len(),
            forall|j: int| 0 <= j < i ==> a.deep_view()[j] == b.deep_view()[j],
        decreases a@.len() - i,
    {
        if a[i] != b[i] {
            assert(a.deep_view()[i as int] != b.deep_view()[i as int]);
            return false;
        }
        assert(a.deep_view()[i as int] == b.deep_view()[i as int]);
        i = i + 1;
    }
    proof {
        assert(a.deep_view() =~= b.deep_view());
    }
    true
}

/// Lays out one round: the question indices in their stored order, or a
/// random permutation of them when shuffling is on.
fn build_order(n: usize, shuffle: bool) -> (r: Vec<usize>)
    ensures
        order_wf(r@, n as nat),
        !shuffle ==> r@ == identity_order(n as nat),
{
    let mut base: Vec<usize> = Vec::new();
    let mut i: usize = 0;
    while i < n
        invariant
            i <= n,
            base@.len() == i,
            forall|j: int| 0 <= j < i ==> base@[j] == j as usize,
        decreases n - i,
    {
        base.push(i);
        i = i + 1;
    }
    proof {
        assert(base@ =~= identity_order(n as nat));
    }
    if !shuffle {
        assert(order_wf(base@, n as nat)) by {
            assert(forall|i: int| 0 <= i < base@.len() ==> base@[i] < n);
        }
        return base;
    }
    let ghost base_view = base@;
    let shuffled = shuffle_arr(base);
    proof {
        base_view.to_multiset_ensures();
        shuffled@.to_multiset_ensures();
        assert(shuffled@.len() == shuffled@.to_multiset().len());
        assert(base_view.len() == base_view.to_multiset().len());
        assert forall|i: int| 0 <= i < shuffled@.len() implies shuffled@[i] < n by {
            assert(shuffled@.contains(shuffled@[i]));
            assert(shuffled@.to_multiset().count(shuffled@[i]) > 0);
            assert(base_view.to_multiset().count(shuffled@[i]) > 0);
            assert(base_view.contains(shuffled@[i]));
            let j = choose|j: int| 0 <= j < base_view.len() && base_view[j] == shuffled@[i];
            assert(base_view[j] < n);
        }
    }
    shuffled
}

} // verus!
