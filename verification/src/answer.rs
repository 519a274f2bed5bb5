use vstd::prelude::*;

use crate::question::QuestionId;

verus! {

/// Mathematical image of an [`Answer`].
pub struct AnswerView {
    pub id: Seq<char>,
    pub content: Seq<char>,
    pub question_id: Seq<char>,
}

/// Builds the spec-level image of an answer from its parts.
pub open spec fn answer_view(id: Seq<char>, content: Seq<char>, question_id: Seq<char>) -> AnswerView {
    AnswerView { id, content, question_id }
}

/// Identifier of an answer, generated server-side as a random token.
pub struct AnswerId(pub String);

impl View for AnswerId {
    type V = Seq<char>;

    open spec fn view(&self) -> Seq<char> {
        self.0@
    }
}

impl Clone for AnswerId {
    fn clone(&self) -> (r: Self)
        ensures
            r == *self,
    {
        AnswerId(self.0.clone())
    }
}

/// An answer record: generated id, content, and the id of the question it
/// answers. The reference is checked only when the answer is created.
pub struct Answer {
    pub id: AnswerId,
    pub content: String,
    pub question_id: QuestionId,
}

impl View for Answer {
    type V = AnswerView;

    open spec fn view(&self) -> AnswerView {
        AnswerView {
            id: self.id@,
            content: self.content@,
            question_id: self.question_id@,
        }
    }
}

impl Clone for Answer {
    fn clone(&self) -> (r: Self)
        ensures
            r@ == self@,
    {
        Answer {
            id: self.id.clone(),
            content: self.content.clone(),
            question_id: self.question_id.clone(),
        }
    }
}

/// The payload of a create-answer request: the content alone; the answer id
/// is generated and the question id comes from the request path.
pub struct Answerx {
    pub content: String,
}

} // verus!
