use vstd::prelude::*;
use vstd::string::StrSliceExecFns;

use crate::answer::{Answer, AnswerId, AnswerView};
use crate::errors::Error;
use crate::question::{Question, QuestionId, QuestionView};

verus! {

/// Is `key` among the keys of the keyed sequence `s`?
pub open spec fn has_key<T>(s: Seq<(Seq<char>, T)>, key: Seq<char>) -> bool {
    exists|i: int| 0 <= i < s.len() && s[i].0 == key
}

/// The index at which `key` is stored; meaningful when `has_key` holds and
/// the keys are unique.
pub open spec fn key_index<T>(s: Seq<(Seq<char>, T)>, key: Seq<char>) -> int {
    choose|i: int| 0 <= i < s.len() && s[i].0 == key
}

/// The record stored under `key`.
pub open spec fn value_at<T>(s: Seq<(Seq<char>, T)>, key: Seq<char>) -> T {
    s[key_index(s, key)].1
}

/// No two entries share a key.
pub open spec fn keys_unique<T>(s: Seq<(Seq<char>, T)>) -> bool {
    forall|i: int, j: int| 0 <= i < j < s.len() ==> s[i].0 != s[j].0
}

/// Insert-or-replace by key: replaces the record under `key` when present,
/// appends a new entry otherwise.
pub open spec fn upsert<T>(s: Seq<(Seq<char>, T)>, key: Seq<char>, v: T) -> Seq<(Seq<char>, T)> {
    if has_key(s, key) {
        s.update(key_index(s, key), (key, v))
    } else {
        s.push((key, v))
    }
}

/// The stored records without their keys, in storage order.
pub open spec fn record_list<T>(s: Seq<(Seq<char>, T)>) -> Seq<T> {
    s.map_values(|p: (Seq<char>, T)| p.1)
}

/// When keys are unique, an entry's index is the one `key_index` denotes.
pub proof fn lemma_key_index<T>(s: Seq<(Seq<char>, T)>, key: Seq<char>, i: int)
    requires
        keys_unique(s),
        0 <= i < s.len(),
        s[i].0 == key,
    ensures
        has_key(s, key),
        key_index(s, key) == i,
        value_at(s, key) == s[i].1,
{
    assert(has_key(s, key));
    let j = key_index(s, key);
    assert(0 <= j < s.len() && s[j].0 == key);
    if j < i {
        assert(s[j].0 != s[i].0);
    } else if i < j {
        assert(s[i].0 != s[j].0);
    }
}

/// Mathematical image of the [`Store`]: two keyed sequences of records.
pub struct StoreView {
    pub questions: Seq<(Seq<char>, QuestionView)>,
    pub answers: Seq<(Seq<char>, AnswerView)>,
}

/// The in-memory repository owning all entity state: questions and answers,
/// each keyed by their identifier.
pub struct Store {
    questions: Vec<(QuestionId, Question)>,
    answers: Vec<(AnswerId, Answer)>,
}

impl View for Store {
    type V = StoreView;

    closed spec fn view(&self) -> StoreView {
        StoreView {
            questions: self.questions@.map_values(|p: (QuestionId, Question)| (p.0@, p.1@)),
            answers: self.answers@.map_values(|p: (AnswerId, Answer)| (p.0@, p.1@)),
        }
    }
}

impl Store {
    /// Well-formedness: both collections are keyed uniquely, and question
    /// keys are never empty.
    pub open spec fn wf(self) -> bool {
        &&& keys_unique(self@.questions)
        &&& keys_unique(self@.answers)
        &&& forall|i: int| 0 <= i < self@.questions.len() ==> self@.questions[i].0.len() > 0
    }

    /// Creates an empty store.
    pub fn new() -> (r: Store)
        ensures
            r.wf(),
            r@.questions == Seq::<(Seq<char>, QuestionView)>::empty(),
            r@.answers == Seq::<(Seq<char>, AnswerView)>::empty(),
    {
        let r = Store { questions: Vec::new(), answers: Vec::new() };
        proof {
            assert(r@.questions =~= Seq::<(Seq<char>, QuestionView)>::empty());
            assert(r@.answers =~= Seq::<(Seq<char>, AnswerView)>::empty());
        }
        r
    }

    /// The position of `id` among the stored questions, if present.
    fn find_question_index(&self, id: &QuestionId) -> (r: Option<usize>)
        ensures
            match r {
                Some(i) => i < self@.questions.len() && self@.questions[i as int].0 == id@,
                None => !has_key(self@.questions, id@),
            },
    {
        let mut i: usize = 0;
        while i < self.questions.len()
            invariant
                0 <= i <= self@.questions.len(),
                self@.questions.len() == self.questions@.len(),
                forall|j: int| 0 <= j < i as int ==> self@.questions[j].0 != id@,
            decreases self.questions@.len() - i,
        {
            if self.questions[i].0.same_as(id) {
                return Some(i);
            }
            i = i + 1;
        }
        None
    }

    /// The position of `id` among the stored answers, if present.
    fn find_answer_index(&self, id: &AnswerId) -> (r: Option<usize>)
        ensures
            match r {
                Some(i) => i < self@.answers.len() && self@.answers[i as int].0 == id@,
                None => !has_key(self@.answers, id@),
            },
    {
        let mut i: usize = 0;
        while i < self.answers.len()
            invariant
                0 <= i <= self@.answers.len(),
                self@.answers.len() == self.answers@.len(),
                forall|j: int| 0 <= j < i as int ==> self@.answers[j].0 != id@,
            decreases self.answers@.len() - i,
        {
            if self.answers[i].0.0 == id.0 {
                return Some(i);
            }
            i = i + 1;
        }
        None
    }

    /// A snapshot of all stored questions, in storage order.
    pub fn list_questions(&self) -> (r: Vec<Question>)
        ensures
            r@.map_values(|q: Question| q@) == record_list(self@.questions),
    {
        let mut out: Vec<Question> = Vec::new();
        let mut i: usize = 0;
        while i < self.questions.len()
            invariant
                0 <= i <= self@.questions.len(),
                self@.questions.len() == self.questions@.len(),
                out@.len() == i as int,
                forall|j: int| 0 <= j < i as int ==> out@[j]@ == self@.questions[j].1,
            decreases self.questions@.len() - i,
        {
            out.push(self.questions[i].1.clone());
            i = i + 1;
        }
        proof {
            assert(out@.map_values(|q: Question| q@) =~= record_list(self@.questions));
        }
        out
    }

    /// A snapshot of all stored answers, in storage order.
    pub fn list_answers(&self) -> (r: Vec<Answer>)
        ensures
            r@.map_values(|a: Answer| a@) == record_list(self@.answers),
    {
        let mut out: Vec<Answer> = Vec::new();
        let mut i: usize = 0;
        while i < self.answers.len()
            invariant
                0 <= i <= self@.answers.len(),
                self@.answers.len() == self.answers@.len(),
                out@.len() == i as int,
                forall|j: int| 0 <= j < i as int ==> out@[j]@ == self@.answers[j].1,
            decreases self.answers@.len() - i,
        {
            out.push(self.answers[i].1.clone());
            i = i + 1;
        }
        proof {
            assert(out@.map_values(|a: Answer| a@) =~= record_list(self@.answers));
        }
        out
    }

    /// How many answers the store holds.
    pub fn answers_count(&self) -> (r: usize)
        ensures
            r == self@.answers.len(),
    {
        self.answers.len()
    }

    /// Looks a question up by id.
    pub fn get_question(&self, id: &QuestionId) -> (r: Result<Question, Error>)
        requires
            self.wf(),
        ensures
            match r {
                Ok(q) => has_key(self@.questions, id@) && q@ == value_at(self@.questions, id@),
                Err(e) => e == Error::QuestionNotFound && !has_key(self@.questions, id@),
            },
    {
        match self.find_question_index(id) {
            Some(i) => {
                proof {
                    lemma_key_index(self@.questions, id@, i as int);
                }
                Ok(self.questions[i].1.clone())
            },
            None => Err(Error::QuestionNotFound),
        }
    }

    /// Is a question with this id present?
    pub fn question_exists(&self, id: &QuestionId) -> (r: bool)
        ensures
            r == has_key(self@.questions, id@),
    {
        match self.find_question_index(id) {
            Some(i) => {
                proof {
                    assert(has_key(self@.questions, id@));
                }
                true
            },
            None => false,
        }
    }

    /// Inserts the question, or replaces the record stored under its id.
    pub fn put_question(&mut self, question: Question)
        requires
            old(self).wf(),
        ensures
            final(self).wf(),
            final(self)@.questions == upsert(old(self)@.questions, question@.id, question@),
            final(self)@.answers == old(self)@.answers,
    {
        proof {
            use_type_invariant(&question.id);
        }
        let key = question.id.clone();
        match self.find_question_index(&key) {
            Some(i) => {
                proof {
                    lemma_key_index(self@.questions, key@, i as int);
                }
                self.questions.set(i, (key, question));
                proof {
                    assert(self@.questions =~= upsert(
                        old(self)@.questions,
                        question@.id,
                        question@,
                    ));
                    assert(forall|j: int|
                        0 <= j < self@.questions.len() ==> self@.questions[j].0
                            == old(self)@.questions[j].0);
                    assert(self@.answers =~= old(self)@.answers);
                }
            },
            None => {
                self.questions.push((key, question));
                proof {
                    assert(self@.questions =~= upsert(
                        old(self)@.questions,
                        question@.id,
                        question@,
                    ));
                    assert(self@.answers =~= old(self)@.answers);
                }
            },
        }
    }

    /// Replaces the record stored at `id` with `question`, only if a record
    /// is already there; never creates.
    pub fn update_question(&mut self, id: &QuestionId, question: Question) -> (r: Result<
        (),
        Error,
    >)
        requires
            old(self).wf(),
        ensures
            final(self).wf(),
            final(self)@.answers == old(self)@.answers,
            has_key(old(self)@.questions, id@) ==> r is Ok && final(self)@.questions == old(
                self,
            )@.questions.update(key_index(old(self)@.questions, id@), (id@, question@)),
            !has_key(old(self)@.questions, id@) ==> r == Err::<(), Error>(Error::QuestionNotFound)
                && final(self)@ == old(self)@,
    {
        match self.find_question_index(id) {
            Some(i) => {
                proof {
                    lemma_key_index(self@.questions, id@, i as int);
                }
                self.questions.set(i, (id.clone(), question));
                proof {
                    assert(self@.questions =~= old(self)@.questions.update(
                        key_index(old(self)@.questions, id@),
                        (id@, question@),
                    ));
                    assert(forall|j: int|
                        0 <= j < self@.questions.len() ==> self@.questions[j].0
                            == old(self)@.questions[j].0);
                    assert(self@.answers =~= old(self)@.answers);
                }
                Ok(())
            },
            None => Err(Error::QuestionNotFound),
        }
    }

    /// Removes the record stored at `id`, if any.
    pub fn delete_question(&mut self, id: &QuestionId) -> (r: Result<(), Error>)
        requires
            old(self).wf(),
        ensures
            final(self).wf(),
            final(self)@.answers == old(self)@.answers,
            has_key(old(self)@.questions, id@) ==> r is Ok && final(self)@.questions == old(
                self,
            )@.questions.remove(key_index(old(self)@.questions, id@)),
            !has_key(old(self)@.questions, id@) ==> r == Err::<(), Error>(Error::QuestionNotFound)
                && final(self)@ == old(self)@,
    {
        match self.find_question_index(id) {
            Some(i) => {
                proof {
                    lemma_key_index(self@.questions, id@, i as int);
                }
                self.questions.remove(i);
                proof {
                    assert(self@.questions =~= old(self)@.questions.remove(
                        key_index(old(self)@.questions, id@),
                    ));
                    assert(self@.answers =~= old(self)@.answers);
                }
                Ok(())
            },
            None => Err(Error::QuestionNotFound),
        }
    }

    /// Inserts the answer under its id; a colliding id (treated as never
    /// happening for generated ids) replaces the record, as an upsert.
    pub fn put_answer(&mut self, answer: Answer)
        requires
            old(self).wf(),
        ensures
            final(self).wf(),
            final(self)@.questions == old(self)@.questions,
            final(self)@.answers == upsert(old(self)@.answers, answer@.id, answer@),
    {
        let key = answer.id.clone();
        match self.find_answer_index(&key) {
            Some(i) => {
                proof {
                    lemma_key_index(self@.answers, key@, i as int);
                }
                self.answers.set(i, (key, answer));
                proof {
                    assert(self@.answers =~= upsert(old(self)@.answers, answer@.id, answer@));
                    assert(forall|j: int|
                        0 <= j < self@.answers.len() ==> self@.answers[j].0 == old(
                            self,
                        )@.answers[j].0);
                    assert(self@.questions =~= old(self)@.questions);
                }
            },
            None => {
                self.answers.push((key, answer));
                proof {
                    assert(self@.answers =~= upsert(old(self)@.answers, answer@.id, answer@));
                    assert(self@.questions =~= old(self)@.questions);
                }
            },
        }
    }

    /// An upper bound on the length of every stored answer key; any longer
    /// id is certainly fresh.
    pub fn answer_key_len_bound(&self) -> (r: usize)
        ensures
            forall|i: int| 0 <= i < self@.answers.len() ==> self@.answers[i].0.len() <= r,
    {
        let mut bound: usize = 0;
        let mut i: usize = 0;
        while i < self.answers.len()
            invariant
                0 <= i <= self@.answers.len(),
                self@.answers.len() == self.answers@.len(),
                forall|j: int| 0 <= j < i as int ==> self@.answers[j].0.len() <= bound,
            decreases self.answers@.len() - i,
        {
            let l = self.answers[i].0.0.as_str().unicode_len();
            if l > bound {
                bound = l;
            }
            i = i + 1;
        }
        bound
    }

    /// Is an answer with this id present?
    pub fn answer_exists(&self, id: &AnswerId) -> (r: bool)
        ensures
            r == has_key(self@.answers, id@),
    {
        match self.find_answer_index(id) {
            Some(i) => {
                proof {
                    assert(has_key(self@.answers, id@));
                }
                true
            },
            None => false,
        }
    }
}

} // verus!
