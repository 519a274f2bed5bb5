use vstd::prelude::*;

verus! {

/// Mathematical image of a [`Question`]: every field as a spec-level value.
pub struct QuestionView {
    pub id: Seq<char>,
    pub title: Seq<char>,
    pub content: Seq<char>,
    pub tags: Option<Seq<Seq<char>>>,
}

/// Identifier of a question, supplied by the caller.
///
/// Invariant: the underlying string is never empty; construction through
/// [`QuestionId::new`] fails on the empty string and is the only way to
/// obtain a value.
pub struct QuestionId(String);

impl QuestionId {
    /// Type invariant: the identifier is never the empty string.
    #[verifier::type_invariant]
    pub open spec fn wf(self) -> bool {
        self@.len() > 0
    }

    /// Builds an identifier from a raw string; fails exactly on the empty string.
    pub fn new(s: String) -> (r: Option<QuestionId>)
        ensures
            r is Some <==> s@.len() > 0,
            r matches Some(id) ==> id@ == s@,
    {
        if s.as_str().is_empty() {
            None
        } else {
            Some(QuestionId(s))
        }
    }

    /// The raw string form of the identifier.
    pub fn as_str(&self) -> (r: &str)
        ensures
            r@ == self@,
    {
        self.0.as_str()
    }

    /// Whether two identifiers denote the same question.
    pub fn same_as(&self, other: &QuestionId) -> (r: bool)
        ensures
            r == (self@ == other@),
    {
        self.0 == other.0
    }
}

impl View for QuestionId {
    type V = Seq<char>;

    closed spec fn view(&self) -> Seq<char> {
        self.0@
    }
}

impl Clone for QuestionId {
    fn clone(&self) -> (r: Self)
        ensures
            r == *self,
    {
        proof {
            use_type_invariant(self);
        }
        QuestionId(self.0.clone())
    }
}

/// A question record: caller-supplied id, title, content and an optional
/// list of tags.
pub struct Question {
    pub id: QuestionId,
    pub title: String,
    pub content: String,
    pub tags: Option<Vec<String>>,
}

impl View for Question {
    type V = QuestionView;

    open spec fn view(&self) -> QuestionView {
        QuestionView {
            id: self.id@,
            title: self.title@,
            content: self.content@,
            tags: self.tags.deep_view(),
        }
    }
}

/// Copies an optional tag list, element by element.
fn clone_tags(tags: &Option<Vec<String>>) -> (r: Option<Vec<String>>)
    ensures
        r.deep_view() == tags.deep_view(),
{
    match tags {
        None => None,
        Some(v) => {
            let mut out: Vec<String> = Vec::new();
            let mut i: usize = 0;
            while i < v.len()
                invariant
                    i <= v@.len(),
                    out@.len() == i as int,
                    forall|j: int| 0 <= j < i as int ==> out@[j] == v@[j],
                decreases v@.len() - i,
            {
                out.push(v[i].clone());
                i = i + 1;
            }
            proof {
                assert(out.deep_view() =~= v.deep_view());
            }
            Some(out)
        },
    }
}

impl Clone for Question {
    fn clone(&self) -> (r: Self)
        ensures
            r@ == self@,
    {
        Question {
            id: self.id.clone(),
            title: self.title.clone(),
            content: self.content.clone(),
            tags: clone_tags(&self.tags),
        }
    }
}

} // verus!
