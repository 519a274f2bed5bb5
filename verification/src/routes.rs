use vstd::prelude::*;
use vstd::string::StrSliceExecFns;
use vstd::string::StringExecFns;

use crate::answer::{Answer, AnswerId, Answerx, answer_view};
use crate::errors::Error;
use crate::digits::{dec_val, valid_count};
use crate::pagination::{extract_pagination, spec_param};
use crate::question::{Question, QuestionId};
use crate::store::{Store, has_key, key_index, record_list, upsert, value_at};

verus! {

/// Relies on uuid::Uuid::new_v4 and the Display form of a Uuid: a random
/// version-4 UUID rendered in its hyphenated form, which is 36 characters.
#[verifier::external_body]
fn fresh_token() -> (r: String)
    ensures
        r@.len() == 36,
{
    uuid::Uuid::new_v4().to_string()
}

/// An id absent from a store whose question keys are all non-empty, in
/// particular the empty id, is stored nowhere.
proof fn lemma_empty_id_absent(store: Store, id: Seq<char>)
    requires
        store.wf(),
        id.len() == 0,
    ensures
        !has_key(store@.questions, id),
{
    if has_key(store@.questions, id) {
        let i = key_index(store@.questions, id);
        assert(0 <= i < store@.questions.len() && store@.questions[i].0 == id);
    }
}

/// Lists questions: the full snapshot when no query parameters are given;
/// with parameters, the `[start, end)` slice of the snapshot, after the
/// pagination parameters resolve and the range fits the snapshot.
pub fn get_questions(params: &Vec<(String, String)>, store: &Store) -> (r: Result<
    Vec<Question>,
    Error,
>)
    requires
        store.wf(),
    ensures
        ({
            let qs = record_list(store@.questions);
            let sp = spec_param(params@, "start"@);
            let ep = spec_param(params@, "end"@);
            match r {
                Ok(v) => {
                    if params@.len() == 0 {
                        v@.map_values(|q: Question| q@) == qs
                    } else {
                        sp matches Some(sv) && ep matches Some(ev) && valid_count(sv)
                            && valid_count(ev) && dec_val(sv) <= dec_val(ev) && dec_val(ev)
                            <= qs.len() && v@.map_values(|q: Question| q@) == qs.subrange(
                            dec_val(sv) as int,
                            dec_val(ev) as int,
                        )
                    }
                },
                Err(e) => params@.len() != 0 && match e {
                    Error::MissingParameters => sp is None || ep is None,
                    Error::ParseError(bad) => sp matches Some(sv) && ep matches Some(ev) && ((
                    !valid_count(sv) && bad@ == sv) || (valid_count(sv) && !valid_count(ev)
                        && bad@ == ev)),
                    Error::RangeError { start, end, len } => sp matches Some(sv)
                        && ep matches Some(ev) && valid_count(sv) && valid_count(ev) && start
                        == dec_val(sv) && end == dec_val(ev) && len == qs.len() && (start > end
                        || end > len),
                    Error::QuestionNotFound => false,
                },
            }
        }),
{
    if params.len() == 0 {
        Ok(store.list_questions())
    } else {
        match extract_pagination(params) {
            Err(e) => Err(e),
            Ok(p) => {
                let all = store.list_questions();
                proof {
                    assert(all@.map_values(|q: Question| q@).len() == all@.len());
                }
                if p.start <= p.end && p.end <= all.len() {
                    let mut out: Vec<Question> = Vec::new();
                    let mut i: usize = p.start;
                    while i < p.end
                        invariant
                            p.start <= i <= p.end,
                            p.end <= all@.len(),
                            out@.len() == i - p.start,
                            forall|j: int|
                                0 <= j < out@.len() ==> out@[j]@ == all@[p.start + j]@,
                        decreases p.end - i,
                    {
                        out.push(all[i].clone());
                        i = i + 1;
                    }
                    proof {
                        let qs = record_list(store@.questions);
                        assert(out@.map_values(|q: Question| q@) =~= qs.subrange(
                            p.start as int,
                            p.end as int,
                        ));
                    }
                    Ok(out)
                } else {
                    Err(Error::RangeError { start: p.start, end: p.end, len: all.len() })
                }
            },
        }
    }
}

/// Looks a single question up by its raw path id.
pub fn get_question(id: &String, store: &Store) -> (r: Result<Question, Error>)
    requires
        store.wf(),
    ensures
        match r {
            Ok(q) => has_key(store@.questions, id@) && q@ == value_at(store@.questions, id@),
            Err(e) => e == Error::QuestionNotFound && !has_key(store@.questions, id@),
        },
{
    match QuestionId::new(id.clone()) {
        None => {
            proof {
                lemma_empty_id_absent(*store, id@);
            }
            Err(Error::QuestionNotFound)
        },
        Some(qid) => store.get_question(&qid),
    }
}

/// Creates a question, or replaces the one already stored under its id.
pub fn add_question(question: Question, store: &mut Store)
    requires
        old(store).wf(),
    ensures
        final(store).wf(),
        final(store)@.questions == upsert(old(store)@.questions, question@.id, question@),
        final(store)@.answers == old(store)@.answers,
{
    store.put_question(question);
}

/// Replaces the question stored at the raw path id, failing when no record
/// is there.
pub fn update_question(id: &String, question: Question, store: &mut Store) -> (r: Result<
    (),
    Error,
>)
    requires
        old(store).wf(),
    ensures
        final(store).wf(),
        final(store)@.answers == old(store)@.answers,
        has_key(old(store)@.questions, id@) ==> r is Ok && final(store)@.questions == old(
            store,
        )@.questions.update(key_index(old(store)@.questions, id@), (id@, question@)),
        !has_key(old(store)@.questions, id@) ==> r == Err::<(), Error>(Error::QuestionNotFound)
            && final(store)@ == old(store)@,
{
    match QuestionId::new(id.clone()) {
        None => {
            proof {
                lemma_empty_id_absent(*store, id@);
            }
            Err(Error::QuestionNotFound)
        },
        Some(qid) => store.update_question(&qid, question),
    }
}

/// Deletes the question stored at the raw path id, failing when no record
/// is there. Answers referencing the question are kept.
pub fn delete_question(id: &String, store: &mut Store) -> (r: Result<(), Error>)
    requires
        old(store).wf(),
    ensures
        final(store).wf(),
        final(store)@.answers == old(store)@.answers,
        has_key(old(store)@.questions, id@) ==> r is Ok && final(store)@.questions == old(
            store,
        )@.questions.remove(key_index(old(store)@.questions, id@)),
        !has_key(old(store)@.questions, id@) ==> r == Err::<(), Error>(Error::QuestionNotFound)
            && final(store)@ == old(store)@,
{
    match QuestionId::new(id.clone()) {
        None => {
            proof {
                lemma_empty_id_absent(*store, id@);
            }
            Err(Error::QuestionNotFound)
        },
        Some(qid) => store.delete_question(&qid),
    }
}

/// Creates an answer to the question at the raw path id: checks that the
/// question exists before any mutation, then inserts the answer under a
/// freshly generated id, which is returned.
pub fn add_answer(question_id: &String, answer: Answerx, store: &mut Store) -> (r: Result<
    AnswerId,
    Error,
>)
    requires
        old(store).wf(),
    ensures
        final(store).wf(),
        !has_key(old(store)@.questions, question_id@) ==> r == Err::<AnswerId, Error>(
            Error::QuestionNotFound,
        ) && final(store)@ == old(store)@,
        has_key(old(store)@.questions, question_id@) ==> (r matches Ok(aid)
            && !has_key(old(store)@.answers, aid@)
            && final(store)@.questions == old(store)@.questions
            && final(store)@.answers == old(store)@.answers.push(
            (aid@, answer_view(aid@, answer.content@, question_id@)),
        )),
{
    match QuestionId::new(question_id.clone()) {
        None => {
            proof {
                lemma_empty_id_absent(*store, question_id@);
            }
            Err(Error::QuestionNotFound)
        },
        Some(qid) => {
            if !store.question_exists(&qid) {
                Err(Error::QuestionNotFound)
            } else {
                let aid = fresh_answer_id(store);
                let ans = Answer { id: aid.clone(), content: answer.content, question_id: qid };
                store.put_answer(ans);
                Ok(aid)
            }
        },
    }
}

/// Generates an answer id that is certainly absent from the store: a random
/// token, lengthened past every stored key length in the (for generated ids
/// never observed) event of a collision.
fn fresh_answer_id(store: &Store) -> (r: AnswerId)
    ensures
        !has_key(store@.answers, r@),
{
    let aid = AnswerId(fresh_token());
    if !store.answer_exists(&aid) {
        return aid;
    }
    let bound = store.answer_key_len_bound();
    let mut token = aid.0;
    while token.as_str().unicode_len() <= bound
        invariant
            forall|i: int| 0 <= i < store@.answers.len() ==> store@.answers[i].0.len() <= bound,
        decreases bound + 37 - token@.len(),
    {
        token = token.concat(fresh_token().as_str());
    }
    let fresh = AnswerId(token);
    proof {
        if has_key(store@.answers, fresh@) {
            let i = key_index(store@.answers, fresh@);
            assert(0 <= i < store@.answers.len() && store@.answers[i].0 == fresh@);
        }
    }
    fresh
}

} // verus!
