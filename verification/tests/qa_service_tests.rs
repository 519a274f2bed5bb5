use qa_service::answer::Answerx;
use qa_service::digits::fmt_usize;
use qa_service::errors::{return_error, Error, Failure, StatusClass};
use qa_service::pagination::extract_pagination;
use qa_service::question::{Question, QuestionId};
use qa_service::routes::{
    add_answer, add_question, delete_question, get_question, get_questions, update_question,
};
use qa_service::store::Store;

fn mk_question(id: &str, title: &str, content: &str, tags: Option<Vec<&str>>) -> Question {
    Question {
        id: QuestionId::new(id.to_string()).unwrap(),
        title: title.to_string(),
        content: content.to_string(),
        tags: tags.map(|v| v.into_iter().map(|s| s.to_string()).collect()),
    }
}

fn params(pairs: &[(&str, &str)]) -> Vec<(String, String)> {
    pairs
        .iter()
        .map(|(k, v)| (k.to_string(), v.to_string()))
        .collect()
}

fn titles(store: &Store) -> Vec<String> {
    store
        .list_questions()
        .into_iter()
        .map(|q| q.title)
        .collect::<Vec<_>>()
}

#[test]
fn question_id_valid_succeeds() {
    let id = QuestionId::new("q1".to_string());
    assert!(id.is_some());
    assert_eq!(id.unwrap().as_str(), "q1");
}

#[test]
fn question_id_empty_fails() {
    assert!(QuestionId::new(String::new()).is_none());
}

#[test]
fn upsert_replaces_entirely() {
    let mut store = Store::new();
    add_question(
        mk_question("a", "first title", "first content", Some(vec!["tag1", "tag2"])),
        &mut store,
    );
    add_question(mk_question("a", "second title", "second content", None), &mut store);
    let listed = store.list_questions();
    assert_eq!(listed.len(), 1);
    assert_eq!(listed[0].id.as_str(), "a");
    assert_eq!(listed[0].title, "second title");
    assert_eq!(listed[0].content, "second content");
    assert!(listed[0].tags.is_none());
}

#[test]
fn update_missing_reports_not_found() {
    let mut store = Store::new();
    add_question(mk_question("a", "t", "c", None), &mut store);
    let before = titles(&store);
    let r = update_question(&"zz".to_string(), mk_question("zz", "new", "new", None), &mut store);
    assert!(matches!(r, Err(Error::QuestionNotFound)));
    assert_eq!(titles(&store), before);
}

#[test]
fn update_existing_replaces() {
    let mut store = Store::new();
    add_question(mk_question("a", "t", "c", None), &mut store);
    let r = update_question(&"a".to_string(), mk_question("a", "t2", "c2", None), &mut store);
    assert!(r.is_ok());
    let listed = store.list_questions();
    assert_eq!(listed.len(), 1);
    assert_eq!(listed[0].title, "t2");
}

#[test]
fn delete_missing_reports_not_found() {
    let mut store = Store::new();
    add_question(mk_question("a", "t", "c", None), &mut store);
    let before = titles(&store);
    let r = delete_question(&"zz".to_string(), &mut store);
    assert!(matches!(r, Err(Error::QuestionNotFound)));
    assert_eq!(titles(&store), before);
}

#[test]
fn delete_existing_removes() {
    let mut store = Store::new();
    add_question(mk_question("a", "t", "c", None), &mut store);
    add_question(mk_question("b", "t2", "c2", None), &mut store);
    let r = delete_question(&"a".to_string(), &mut store);
    assert!(r.is_ok());
    let listed = store.list_questions();
    assert_eq!(listed.len(), 1);
    assert_eq!(listed[0].id.as_str(), "b");
}

#[test]
fn get_question_found_and_missing() {
    let mut store = Store::new();
    add_question(mk_question("a", "t", "c", None), &mut store);
    let found = get_question(&"a".to_string(), &store);
    assert!(found.is_ok());
    assert_eq!(found.unwrap().title, "t");
    let missing = get_question(&"b".to_string(), &store);
    assert!(matches!(missing, Err(Error::QuestionNotFound)));
    let empty = get_question(&String::new(), &store);
    assert!(matches!(empty, Err(Error::QuestionNotFound)));
}

#[test]
fn answer_for_missing_question_mutates_nothing() {
    let mut store = Store::new();
    add_question(mk_question("a", "t", "c", None), &mut store);
    let before = store.answers_count();
    let r = add_answer(&"nope".to_string(), Answerx { content: "hi".to_string() }, &mut store);
    assert!(matches!(r, Err(Error::QuestionNotFound)));
    assert_eq!(store.answers_count(), before);
    assert_eq!(titles(&store), vec!["t".to_string()]);
}

#[test]
fn answer_created_with_fresh_id() {
    let mut store = Store::new();
    add_question(mk_question("a", "t", "c", None), &mut store);
    let r1 = add_answer(&"a".to_string(), Answerx { content: "one".to_string() }, &mut store);
    assert!(r1.is_ok());
    assert_eq!(store.answers_count(), 1);
    let id1 = r1.unwrap();
    assert_eq!(id1.0.len(), 36);
    let r2 = add_answer(&"a".to_string(), Answerx { content: "two".to_string() }, &mut store);
    assert!(r2.is_ok());
    assert_eq!(store.answers_count(), 2);
    let id2 = r2.unwrap();
    assert_ne!(id1.0, id2.0);
    let answers = store.list_answers();
    assert_eq!(answers.len(), 2);
    assert_eq!(answers[0].content, "one");
    assert_eq!(answers[0].question_id.as_str(), "a");
}

#[test]
fn pagination_returns_first_two_in_order() {
    let mut store = Store::new();
    add_question(mk_question("q1", "t1", "c1", None), &mut store);
    add_question(mk_question("q2", "t2", "c2", None), &mut store);
    add_question(mk_question("q3", "t3", "c3", None), &mut store);
    let r = get_questions(&params(&[("start", "0"), ("end", "2")]), &store);
    assert!(r.is_ok());
    let page = r.unwrap();
    assert_eq!(page.len(), 2);
    assert_eq!(page[0].id.as_str(), "q1");
    assert_eq!(page[1].id.as_str(), "q2");
}

#[test]
fn pagination_only_start_is_missing_parameters() {
    let mut store = Store::new();
    add_question(mk_question("q1", "t1", "c1", None), &mut store);
    let r = get_questions(&params(&[("start", "0")]), &store);
    assert!(matches!(r, Err(Error::MissingParameters)));
}

#[test]
fn pagination_bad_start_is_parse_error() {
    let mut store = Store::new();
    add_question(mk_question("q1", "t1", "c1", None), &mut store);
    let r = get_questions(&params(&[("start", "abc"), ("end", "1")]), &store);
    match r {
        Err(Error::ParseError(v)) => assert_eq!(v, "abc"),
        other => panic!("expected ParseError, got {:?}", other.is_ok()),
    }
}

#[test]
fn extract_pagination_parses_both_bounds() {
    let r = extract_pagination(&params(&[("start", "007"), ("end", "010")]));
    assert!(r.is_ok());
    let p = r.unwrap();
    assert_eq!(p.start, 7);
    assert_eq!(p.end, 10);
}

#[test]
fn extract_pagination_rejects_overflow() {
    let r = extract_pagination(&params(&[
        ("start", "99999999999999999999999999999999"),
        ("end", "1"),
    ]));
    match r {
        Err(Error::ParseError(v)) => assert_eq!(v, "99999999999999999999999999999999"),
        _ => panic!("expected ParseError"),
    }
}

#[test]
fn extract_pagination_no_keys_is_missing_parameters() {
    let r = extract_pagination(&params(&[("limit", "3")]));
    assert!(matches!(r, Err(Error::MissingParameters)));
}

#[test]
fn listing_without_parameters_returns_everything() {
    let mut store = Store::new();
    let empty = get_questions(&params(&[]), &store).unwrap();
    assert_eq!(empty.len(), 0);
    for i in 0..5 {
        let id = format!("q{}", i);
        add_question(mk_question(&id, &id, "c", None), &mut store);
    }
    let all = get_questions(&params(&[]), &store).unwrap();
    assert_eq!(all.len(), 5);
    for (i, q) in all.iter().enumerate() {
        assert_eq!(q.id.as_str(), format!("q{}", i));
    }
}

#[test]
fn out_of_bounds_range_is_range_error() {
    let mut store = Store::new();
    add_question(mk_question("q1", "t1", "c1", None), &mut store);
    let r = get_questions(&params(&[("start", "0"), ("end", "5")]), &store);
    match r {
        Err(Error::RangeError { start, end, len }) => {
            assert_eq!(start, 0);
            assert_eq!(end, 5);
            assert_eq!(len, 1);
        }
        _ => panic!("expected RangeError"),
    }
    let inverted = get_questions(&params(&[("start", "1"), ("end", "0")]), &store);
    assert!(matches!(inverted, Err(Error::RangeError { .. })));
}

#[test]
fn creations_with_different_ids_keep_both() {
    let mut store = Store::new();
    add_question(mk_question("a", "ta", "ca", None), &mut store);
    add_question(mk_question("b", "tb", "cb", None), &mut store);
    let qa = get_question(&"a".to_string(), &store).unwrap();
    let qb = get_question(&"b".to_string(), &store).unwrap();
    assert_eq!(qa.title, "ta");
    assert_eq!(qb.title, "tb");
}

#[test]
fn error_messages_name_the_problem() {
    assert_eq!(
        Error::ParseError("abc".to_string()).message(),
        "Cannot parse parameter: abc"
    );
    assert_eq!(Error::MissingParameters.message(), "Missing parameters");
    assert_eq!(Error::QuestionNotFound.message(), "Question not found");
    assert_eq!(
        Error::RangeError { start: 3, end: 9, len: 2 }.message(),
        "Pagination range out of bounds: start 3, end 9, length 2"
    );
}

#[test]
fn numbers_render_in_decimal() {
    assert_eq!(fmt_usize(0), "0");
    assert_eq!(fmt_usize(7), "7");
    assert_eq!(fmt_usize(120), "120");
    assert_eq!(fmt_usize(98765), "98765");
}

#[test]
fn error_mapping_assigns_status_classes() {
    let (c1, m1) = return_error(&Failure::Service(Error::ParseError("xy".to_string())));
    assert_eq!(c1, StatusClass::ClientInputError);
    assert_eq!(m1, "Cannot parse parameter: xy");
    let (c2, m2) = return_error(&Failure::Service(Error::MissingParameters));
    assert_eq!(c2, StatusClass::ClientInputError);
    assert_eq!(m2, "Missing parameters");
    let (c3, m3) = return_error(&Failure::Service(Error::QuestionNotFound));
    assert_eq!(c3, StatusClass::NotFound);
    assert_eq!(m3, "Question not found");
    let (c4, m4) = return_error(&Failure::MalformedBody("bad json".to_string()));
    assert_eq!(c4, StatusClass::UnprocessableEntity);
    assert_eq!(m4, "bad json");
    let (c5, m5) = return_error(&Failure::ForbiddenOrigin("origin denied".to_string()));
    assert_eq!(c5, StatusClass::Forbidden);
    assert_eq!(m5, "origin denied");
}

#[test]
fn duplicate_query_keys_use_first_occurrence() {
    let r = extract_pagination(&params(&[("start", "1"), ("start", "9"), ("end", "2")]));
    assert!(r.is_ok());
    let p = r.unwrap();
    assert_eq!(p.start, 1);
    assert_eq!(p.end, 2);
}
