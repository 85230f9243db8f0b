use exam_core::kv::{
    exam_hash_entries, exam_key, exam_metadata_from_fields, get_short_uuid,
    group_questions_by_section, question_from_fields, question_key, quran_key, suffix_after_last,
    Exam, QuestionResponse,
};
use exam_core::quran::verse_words_response;

fn field(k: &str, v: &str) -> (String, String) {
    (k.to_string(), v.to_string())
}

fn stored_question(section: &str, qid: &str) -> QuestionResponse {
    QuestionResponse {
        question: format!("question {qid}"),
        options: vec!["x".to_string(), "y".to_string()],
        marks: 5,
        section: section.to_string(),
        question_id: qid.to_string(),
        exam_id: "e1".to_string(),
    }
}

#[test]
fn record_keys() {
    assert_eq!(exam_key("ab12"), "exam:ab12");
    assert_eq!(question_key("ab12", "cd34"), "exam:ab12:question:cd34");
    assert_eq!(quran_key(2, 255), "quran:2:255");
}

#[test]
fn metadata_decoding_applies_defaults() {
    let fields = vec![
        field("name", "Midterm"),
        field("details", "closed book"),
        field("duration", "90"),
    ];
    let m = exam_metadata_from_fields(&fields);
    assert_eq!(m.exam_name, "Midterm");
    assert_eq!(m.details, "closed book");
    assert_eq!(m.duration, 90);

    let sparse = vec![field("duration", "not a number")];
    let m2 = exam_metadata_from_fields(&sparse);
    assert_eq!(m2.exam_name, "");
    assert_eq!(m2.details, "");
    assert_eq!(m2.duration, 0);
}

#[test]
fn metadata_takes_the_first_value_per_field() {
    let fields = vec![field("name", "first"), field("name", "second")];
    let m = exam_metadata_from_fields(&fields);
    assert_eq!(m.exam_name, "first");
}

#[test]
fn question_decoding_reads_fields_and_key_tail() {
    let fields = vec![
        field("name", "What?"),
        field("options", "[\"a\",\"b\"]"),
        field("marks", "3"),
        field("section", "S1"),
    ];
    let q = question_from_fields(&fields, "exam:e1:question:q9", "e1");
    assert_eq!(q.question, "What?");
    assert_eq!(q.options, vec!["a".to_string(), "b".to_string()]);
    assert_eq!(q.marks, 3);
    assert_eq!(q.section, "S1");
    assert_eq!(q.question_id, "q9");
    assert_eq!(q.exam_id, "e1");
}

#[test]
fn question_decoding_defaults_bad_options_to_empty() {
    let fields = vec![field("options", "not json")];
    let q = question_from_fields(&fields, "k", "e1");
    assert!(q.options.is_empty());
    assert_eq!(q.question_id, "k");
}

#[test]
fn key_tail_extraction() {
    assert_eq!(suffix_after_last("a:b:c", ':'), "c");
    assert_eq!(suffix_after_last("abc", ':'), "abc");
    assert_eq!(suffix_after_last("abc:", ':'), "");
    assert_eq!(suffix_after_last("", ':'), "");
}

#[test]
fn grouping_keeps_first_seen_order_without_duplicates() {
    let questions = vec![
        stored_question("algebra", "q1"),
        stored_question("geometry", "q2"),
        stored_question("algebra", "q3"),
    ];
    let grouped = group_questions_by_section(&questions);
    assert_eq!(grouped.sections.len(), 2);
    assert_eq!(grouped.sections[0].0, "algebra");
    assert_eq!(grouped.sections[0].1.len(), 2);
    assert_eq!(grouped.sections[0].1[0].question_id, "q1");
    assert_eq!(grouped.sections[0].1[1].question_id, "q3");
    assert_eq!(grouped.sections[1].0, "geometry");
    assert_eq!(grouped.sections[1].1.len(), 1);
    assert_eq!(grouped.sections[1].1[0].question_id, "q2");
}

#[test]
fn short_ids_have_the_requested_length() {
    assert_eq!(get_short_uuid(4).len(), 4);
    assert_eq!(get_short_uuid(0).len(), 0);
    // a full identifier is 36 characters, and the cap holds beyond it
    assert_eq!(get_short_uuid(36).len(), 36);
    assert_eq!(get_short_uuid(100).len(), 36);
}

#[test]
fn hash_entries_cover_metadata_and_questions() {
    let exam = Exam {
        exam_name: "Midterm".to_string(),
        details: "closed book".to_string(),
        duration: 90,
        questions: vec![stored_question("algebra", "q1")],
    };
    let ids = vec!["q1".to_string()];
    let entries = exam_hash_entries(&exam, "e1", &ids);
    assert_eq!(entries.len(), 2);
    assert_eq!(entries[0].0, "exam:e1");
    assert_eq!(
        entries[0].1,
        vec![
            field("name", "Midterm"),
            field("details", "closed book"),
            field("duration", "90"),
        ]
    );
    assert_eq!(entries[1].0, "exam:e1:question:q1");
    assert_eq!(
        entries[1].1,
        vec![
            field("name", "question q1"),
            field("options", "[\"x\",\"y\"]"),
            field("marks", "5"),
            field("section", "algebra"),
        ]
    );
}

#[test]
fn verse_response_joins_the_words() {
    let resp = verse_words_response("[\"bismi\",\"allahi\"]").unwrap();
    assert_eq!(resp.text, vec!["bismi, allahi".to_string()]);
    assert_eq!(resp.mode, "indopak");
    assert!(verse_words_response("not json").is_err());
    let empty = verse_words_response("[]").unwrap();
    assert_eq!(empty.text, vec!["".to_string()]);
}
