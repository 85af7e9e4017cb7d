//! The multiple-choice distractor aggregator: from a target question and the
//! full question pool it builds a fixed-size candidate answer list holding
//! exactly one correct answer at a randomly chosen position, every other
//! entry being a pool answer distinct, by text value, from the correct text
//! and from each other.

use vstd::prelude::*;

use crate::errors::AskmeError;
use crate::rng::rand_below;
use crate::types::{distinct_text_count, pool_has_text, pool_text_set, Question};

verus! {

/// A candidate answer list built for one question presentation.
pub struct CandidateAnswers {
    /// The texts offered to the user, in presentation order.
    pub choices: Vec<String>,
    /// The slot of `choices` holding the correct answer.
    pub correct_index: usize,
    /// Whether the requested size exceeded the distinct answers available,
    /// so that the list was built at the reduced size. The caller is
    /// expected to surface a warning when this is set.
    pub clamped: bool,
}

/// What a well-built candidate list promises: the slot at `ci` carries an
/// answer of `target`; every other slot carries a pool answer text that
/// differs from the correct text and from every other non-correct slot.
pub open spec fn valid_candidates(
    choices: Seq<String>,
    ci: int,
    target: Question,
    pool: Seq<Question>,
) -> bool {
    &&& 0 <= ci < choices.len()
    &&& exists|j: int|
        0 <= j < target.answers@.len() && target.answers@[j]@ == choices[ci]@
    &&& forall|i: int|
        0 <= i < choices.len() && i != ci ==> pool_has_text(pool, #[trigger] choices[i]@)
    &&& forall|i: int| 0 <= i < choices.len() && i != ci ==> #[trigger] choices[i]@ != choices[ci]@
    &&& forall|i: int, j: int|
        0 <= i < j < choices.len() && i != ci && j != ci ==> choices[i]@ != choices[j]@
}

/// Whether `t` occurs, by text value, among the entries of `r`.
pub open spec fn seq_has_text(r: Seq<String>, t: Seq<char>) -> bool {
    exists|i: int| 0 <= i < r.len() && r[i]@ == t
}

/// Whether some entry of `v` equals `s` by text value.
pub(crate) fn contains_text(v: &Vec<String>, s: &String) -> (r: bool)
    ensures
        r == seq_has_text(v@, s@),
{
    let mut k: usize = 0;
    while k < v.len()
        invariant
            k <= v@.len(),
            forall|i: int| 0 <= i < k ==> v@[i]@ != s@,
        decreases v@.len() - k,
    {
        if v[k] == *s {
            assert(v@[k as int]@ == s@);
            return true;
        }
        k = k + 1;
    }
    false
}

/// Collects the distinct answer texts of `questions`, in order of first
/// occurrence: the result has no duplicate texts, every entry occurs in the
/// pool, and every pool answer text occurs in the result.
pub fn distinct_answers(questions: &Vec<Question>) -> (r: Vec<String>)
    ensures
        forall|i: int, j: int| 0 <= i < j < r@.len() ==> r@[i]@ != r@[j]@,
        forall|i: int| 0 <= i < r@.len() ==> pool_has_text(questions@, #[trigger] r@[i]@),
        forall|t: Seq<char>| pool_has_text(questions@, t) ==> seq_has_text(r@, t),
        r@.len() == distinct_text_count(questions@),
{
    let mut r: Vec<String> = Vec::new();
    let mut qi: usize = 0;
    while qi < questions.len()
        invariant
            qi <= questions@.len(),
            forall|i: int, j: int| 0 <= i < j < r@.len() ==> r@[i]@ != r@[j]@,
            forall|i: int| 0 <= i < r@.len() ==> pool_has_text(questions@, #[trigger] r@[i]@),
            forall|a: int, b: int|
                #![trigger questions@[a].answers@[b]]
                0 <= a < qi && 0 <= b < questions@[a].answers@.len() ==> seq_has_text(
                    r@,
                    questions@[a].answers@[b]@,
                ),
        decreases questions@.len() - qi,
    {
        let q = &questions[qi];
        let mut aj: usize = 0;
        while aj < q.answers.len()
            invariant
                qi < questions@.len(),
                q == &questions@[qi as int],
                aj <= q.answers@.len(),
                forall|i: int, j: int| 0 <= i < j < r@.len() ==> r@[i]@ != r@[j]@,
                forall|i: int| 0 <= i < r@.len() ==> pool_has_text(questions@, #[trigger] r@[i]@),
                forall|a: int, b: int|
                    #![trigger questions@[a].answers@[b]]
                    0 <= a < qi && 0 <= b < questions@[a].answers@.len() ==> seq_has_text(
                        r@,
                        questions@[a].answers@[b]@,
                    ),
                forall|b: int|
                    0 <= b < aj ==> seq_has_text(r@, #[trigger] questions@[qi as int].answers@[b]@),
            decreases q.answers@.len() - aj,
        {
            let a = &q.answers[aj];
            if !contains_text(&r, a) {
                proof {
                    assert(pool_has_text(questions@, a@)) by {
                        assert(questions@[qi as int].answers@[aj as int]@ == a@);
                    }
                }
                let ghost old_r = r@;
                r.push(a.clone());
                proof {
                    let last = old_r.len() as int;
                    assert(r@[last]@ == a@);
                    assert forall|i: int| 0 <= i < last implies r@[i]@ != a@ by {
                        assert(!seq_has_text(old_r, a@));
                        assert(old_r[i]@ != a@);
                    }
                    assert forall|t: Seq<char>| seq_has_text(old_r, t) implies seq_has_text(
                        r@,
                        t,
                    ) by {
                        let i = choose|i: int| 0 <= i < old_r.len() && old_r[i]@ == t;
                        assert(r@[i]@ == t);
                    }
                }
            }
            assert(seq_has_text(r@, a@));
            aj = aj + 1;
        }
        qi = qi + 1;
    }
    proof {
        lemma_distinct_len(questions@, r@);
    }
    r
}

/// A list of pairwise-distinct texts that covers exactly the answer texts of
/// a pool has the pool's distinct text count as its length.
proof fn lemma_distinct_len(questions: Seq<Question>, r: Seq<String>)
    requires
        forall|i: int, j: int| 0 <= i < j < r.len() ==> r[i]@ != r[j]@,
        forall|i: int| 0 <= i < r.len() ==> pool_has_text(questions, #[trigger] r[i]@),
        forall|t: Seq<char>| pool_has_text(questions, t) ==> seq_has_text(r, t),
    ensures
        r.len() == distinct_text_count(questions),
{
    let views = r.map_values(|s: String| s@);
    assert(views.no_duplicates()) by {
        assert forall|i: int, j: int|
            0 <= i < views.len() && 0 <= j < views.len() && i != j implies views[i]
            != views[j] by {
            if i < j {
                assert(r[i]@ != r[j]@);
            } else {
                assert(r[j]@ != r[i]@);
            }
        }
    }
    views.unique_seq_to_set();
    assert(views.to_set() =~= pool_text_set(questions)) by {
        assert forall|t: Seq<char>| views.to_set().contains(t) implies pool_text_set(
            questions,
        ).contains(t) by {
            let i = choose|i: int| 0 <= i < views.len() && views[i] == t;
            assert(pool_has_text(questions, r[i]@));
        }
        assert forall|t: Seq<char>| pool_text_set(questions).contains(t) implies views.to_set()
            .contains(t) by {
            let i = choose|i: int| 0 <= i < r.len() && r[i]@ == t;
            assert(views[i] == t);
            assert(views.contains(t));
        }
    }
}

/// Builds a candidate answer list for `curr_question` out of `questions`.
///
/// The requested size is clamped to the number of distinct answer texts the
/// pool offers; the `clamped` flag of the result records that this happened
/// so the caller can warn. One answer of `curr_question` is placed at a
/// random slot; every other slot holds a pool answer text distinct from the
/// correct text and from the other slots.
///
/// Fails exactly when the pool is empty, when no question of the pool has
/// any answer, or when `curr_question` itself has no answers: these are
/// content errors of the loaded set, surfaced rather than retried.
pub fn aggregate(curr_question: &Question, questions: &Vec<Question>, len: usize) -> (r: Result<
    CandidateAnswers,
    AskmeError,
>)
    requires
        len >= 1,
    ensures
        r is Err <==> (questions@.len() == 0 || distinct_text_count(questions@) == 0
            || curr_question.answers@.len() == 0),
        r matches Ok(out) ==> {
            &&& out.choices@.len() == vstd::math::min(
                len as int,
                distinct_text_count(questions@) as int,
            )
            &&& out.clamped == (len > distinct_text_count(questions@))
            &&& out.correct_index < out.choices@.len()
            &&& valid_candidates(
                out.choices@,
                out.correct_index as int,
                *curr_question,
                questions@,
            )
        },
{
    if questions.len() == 0 {
        return Err(AskmeError::new("no questions provided!".to_owned(), None));
    }
    let distinct = distinct_answers(questions);
    if distinct.len() == 0 {
        return Err(AskmeError::new("no answers available in the question pool!".to_owned(), None));
    }
    if curr_question.answers.len() == 0 {
        return Err(AskmeError::new("the current question has no answers!".to_owned(), None));
    }
    let total = distinct.len();
    let clamped = len > total;
    let eff: usize = if clamped {
        total
    } else {
        len
    };

    // Pick the correct answer uniformly among the target's answers.
    let correct_src = rand_below(curr_question.answers.len());
    let correct: String = curr_question.answers[correct_src].clone();

    // Every distinct pool text other than the correct text is an eligible
    // distractor.
    let mut eligible: Vec<String> = Vec::new();
    let mut k: usize = 0;
    while k < distinct.len()
        invariant
            k <= distinct@.len(),
            forall|i: int, j: int| 0 <= i < j < distinct@.len() ==> distinct@[i]@ != distinct@[j]@,
            forall|i: int| 0 <= i < distinct@.len() ==> pool_has_text(questions@, #[trigger] distinct@[i]@),
            forall|i: int, j: int| 0 <= i < j < eligible@.len() ==> eligible@[i]@ != eligible@[j]@,
            forall|i: int| 0 <= i < eligible@.len() ==> pool_has_text(questions@, #[trigger] eligible@[i]@),
            forall|i: int| 0 <= i < eligible@.len() ==> #[trigger] eligible@[i]@ != correct@,
            forall|i: int|
                0 <= i < eligible@.len() ==> exists|d: int|
                    0 <= d < k && distinct@[d]@ == #[trigger] eligible@[i]@,
            eligible@.len() == k || (eligible@.len() == k - 1 && exists|i: int|
                0 <= i < k && distinct@[i]@ == correct@),
        decreases distinct@.len() - k,
    {
        if distinct[k] == correct {
            proof {
                if eligible@.len() != k {
                    let i = choose|i: int| 0 <= i < k && distinct@[i]@ == correct@;
                    assert(distinct@[i]@ != distinct@[k as int]@);
                    assert(false);
                }
            }
        } else {
            proof {
                let ghost dk = distinct@[k as int]@;
                assert forall|i: int| 0 <= i < eligible@.len() implies eligible@[i]@ != dk by {
                    let d = choose|d: int| 0 <= d < k && distinct@[d]@ == eligible@[i]@;
                    assert(distinct@[d]@ != distinct@[k as int]@);
                }
            }
            eligible.push(distinct[k].clone());
        }
        k = k + 1;
    }
    assert(eligible@.len() >= distinct@.len() - 1);
    assert(eligible@.len() >= eff - 1);

    // Draw the distractors without replacement, so no retry loop is needed
    // and no duplicate can slip in.
    let needed: usize = eff - 1;
    let mut chosen: Vec<String> = Vec::new();
    let mut avail = eligible;
    while chosen.len() < needed
        invariant
            chosen@.len() <= needed,
            avail@.len() + chosen@.len() >= needed,
            forall|i: int, j: int| 0 <= i < j < chosen@.len() ==> chosen@[i]@ != chosen@[j]@,
            forall|i: int| 0 <= i < chosen@.len() ==> pool_has_text(questions@, #[trigger] chosen@[i]@),
            forall|i: int| 0 <= i < chosen@.len() ==> #[trigger] chosen@[i]@ != correct@,
            forall|i: int, j: int| 0 <= i < j < avail@.len() ==> avail@[i]@ != avail@[j]@,
            forall|i: int| 0 <= i < avail@.len() ==> pool_has_text(questions@, #[trigger] avail@[i]@),
            forall|i: int| 0 <= i < avail@.len() ==> #[trigger] avail@[i]@ != correct@,
            forall|i: int, j: int|
                0 <= i < chosen@.len() && 0 <= j < avail@.len() ==> chosen@[i]@ != avail@[j]@,
        decreases needed - chosen@.len(),
    {
        let k = rand_below(avail.len());
        let picked = avail.swap_remove(k);
        chosen.push(picked);
    }

    // Insert the correct answer at a random slot, shifting the rest right.
    let pos = rand_below(eff);
    let ghost before = chosen@;
    chosen.insert(pos, correct);
    proof {
        before.insert_ensures(pos as int, correct);
        assert(chosen@[pos as int]@ == curr_question.answers@[correct_src as int]@);
    }

    Ok(CandidateAnswers { choices: chosen, correct_index: pos, clamped })
}

/// No two non-correct entries of a valid candidate list are equal to each
/// other or to the correct answer text: uniqueness is by text value.
pub proof fn lemma_distractors_unique(
    choices: Seq<String>,
    ci: int,
    target: Question,
    pool: Seq<Question>,
)
    requires
        valid_candidates(choices, ci, target, pool),
    ensures
        forall|i: int, j: int|
            0 <= i < j < choices.len() && i != ci && j != ci ==> choices[i]@ != choices[j]@,
        forall|i: int| 0 <= i < choices.len() && i != ci ==> #[trigger] choices[i]@ != choices[ci]@,
{
}

/// For a target whose accepted answers all carry one and the same text, a
/// valid candidate list holds exactly one entry equal to an answer of the
/// target, and `correct_index` points at it.
///
/// The restriction on the target is needed: a pool may offer a second
/// answer text of a many-answered target, and a distractor equal to that
/// text is rejected only when it equals the drawn correct text.
pub proof fn lemma_single_correct_occurrence(
    choices: Seq<String>,
    ci: int,
    target: Question,
    pool: Seq<Question>,
)
    requires
        valid_candidates(choices, ci, target, pool),
        forall|j: int, k: int|
            0 <= j < target.answers@.len() && 0 <= k < target.answers@.len()
                ==> target.answers@[j]@ == target.answers@[k]@,
    ensures
        forall|i: int|
            0 <= i < choices.len() ==> ((exists|j: int|
                0 <= j < target.answers@.len() && target.answers@[j]@ == #[trigger] choices[i]@)
                <==> i == ci),
{
    assert forall|i: int| 0 <= i < choices.len() implies ((exists|j: int|
        0 <= j < target.answers@.len() && target.answers@[j]@ == #[trigger] choices[i]@) <==> i
        == ci) by {
        if i != ci {
            if exists|j: int|
                0 <= j < target.answers@.len() && target.answers@[j]@ == choices[i]@ {
                let j = choose|j: int|
                    0 <= j < target.answers@.len() && target.answers@[j]@ == choices[i]@;
                let j0 = choose|j0: int|
                    0 <= j0 < target.answers@.len() && target.answers@[j0]@ == choices[ci]@;
                assert(target.answers@[j]@ == target.answers@[j0]@);
                assert(choices[i]@ != choices[ci]@);
                assert(false);
            }
        }
    }
}

} // verus!
