//! The data model: questions, question sets, and the run configuration,
//! together with the spec-level vocabulary the contracts are written in.

use vstd::prelude::*;

verus! {

/// One prompt paired with its accepted answer texts.
pub struct Question {
    pub title: String,
    pub answers: Vec<String>,
}

impl Clone for Question {
    fn clone(&self) -> (r: Self)
        ensures
            r.title == self.title,
            r.answers@ == self.answers@,
    {
        let r = Question { title: self.title.clone(), answers: self.answers.clone() };
        proof {
            assert(r.answers@ =~= self.answers@);
        }
        r
    }
}

/// An ordered question collection plus its display metadata.
pub struct AskmeSet {
    pub title: String,
    pub subtitle: String,
    pub questions: Vec<Question>,
}

/// Behaviour switches for one quiz run, shared by all modes.
///
/// The inter-question delay is held in milliseconds so that the whole
/// configuration is made of plain values; the console adapter turns it into
/// a sleep of fractional seconds.
pub struct Settings {
    pub shuffle: bool,
    pub loop_questions: bool,
    pub case_sensitive: bool,
    pub show_correct: bool,
    pub wait_millis: u64,
    pub max_choices: usize,
}

/// A question is usable when it accepts at least one answer.
pub open spec fn question_wf(q: Question) -> bool {
    q.answers@.len() > 0
}

/// `t` occurs, by text value, somewhere among the answers of `pool`.
pub open spec fn pool_has_text(pool: Seq<Question>, t: Seq<char>) -> bool {
    exists|i: int, j: int|
        0 <= i < pool.len() && 0 <= j < pool[i].answers@.len() && pool[i].answers@[j]@ == t
}

/// The set of distinct answer texts available anywhere in `pool`.
pub open spec fn pool_text_set(pool: Seq<Question>) -> Set<Seq<char>> {
    Set::new(|t: Seq<char>| pool_has_text(pool, t))
}

/// How many distinct answer texts `pool` offers in all.
pub open spec fn distinct_text_count(pool: Seq<Question>) -> nat {
    pool_text_set(pool).len()
}

} // verus!
