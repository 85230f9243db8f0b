use exam_core::exam::{
    DeleteIdsRequest, EditExamRequest, ExamDescriptionRequest, ExamIdRequestModel, ExamRequest,
    OptionRequestModel, QuestionRequest, SectionRequest,
};
use exam_core::schema::{
    ExamDescriptionModel, ExamModel, OptionsModel, QuestionsModel, SectionsModel,
};
use exam_core::parse::map_to_section_response;
use exam_core::schema::SectionRow;
use exam_core::store::ExamStore;

fn description(id: i32, exam_id: i32, title: &str) -> ExamDescriptionRequest {
    ExamDescriptionRequest {
        base: ExamDescriptionModel {
            id,
            exam_id,
            title: title.to_string(),
            description: None,
            duration: 60,
            passing_score: 50,
        },
    }
}

fn option_req(id: i32, question_id: i32, text: &str, is_correct: Option<bool>) -> OptionRequestModel {
    OptionRequestModel {
        base: OptionsModel { id, question_id, text: text.to_string(), is_correct },
    }
}

fn question_req(
    id: i32,
    section_id: i32,
    text: &str,
    options: Vec<OptionRequestModel>,
) -> QuestionRequest {
    QuestionRequest {
        base: QuestionsModel {
            id,
            section_id,
            text: text.to_string(),
            description: None,
            marks: 5,
        },
        options,
    }
}

fn section_req(id: i32, title: &str, questions: Vec<QuestionRequest>) -> SectionRequest {
    SectionRequest {
        base: SectionsModel { id, exam_description_id: 0, title: title.to_string() },
        questions,
    }
}

fn math_quiz() -> ExamRequest {
    ExamRequest {
        exam_id: ExamIdRequestModel { base: ExamModel { id: 1 } },
        description: description(5, 1, "Math Quiz"),
        sections: vec![section_req(
            10,
            "Algebra",
            vec![question_req(
                100,
                10,
                "2+2=?",
                vec![
                    option_req(1000, 100, "4", Some(true)),
                    option_req(1001, 100, "5", Some(false)),
                ],
            )],
        )],
    }
}

#[test]
fn create_then_read_returns_the_tree() {
    let mut store = ExamStore::new();
    let req = math_quiz();
    let id = store.insert_exam(&req).unwrap();
    assert_eq!(id, 1);
    let resp = store.read_exam_data(1).unwrap();
    assert_eq!(resp.exam_id.id, 1);
    assert_eq!(resp.description.title, "Math Quiz");
    assert_eq!(resp.description.description, "");
    assert_eq!(resp.sections.len(), 1);
    let sec = &resp.sections[0];
    assert_eq!(sec.base.id, 10);
    assert_eq!(sec.base.title, "Algebra");
    assert_eq!(sec.questions.len(), 1);
    let q = &sec.questions[0];
    assert_eq!(q.base.id, 100);
    assert_eq!(q.base.text, "2+2=?");
    assert_eq!(q.options.len(), 2);
    assert_eq!(q.options[0].base.id, 1000);
    assert_eq!(q.options[0].base.text, "4");
    assert_eq!(q.options[0].base.is_correct, Some(true));
    assert_eq!(q.options[1].base.id, 1001);
    assert_eq!(q.options[1].base.text, "5");
    assert_eq!(q.options[1].base.is_correct, Some(false));
}

#[test]
fn failed_insert_leaves_nothing_behind() {
    let mut store = ExamStore::new();
    let mut req = math_quiz();
    // an option referencing a question id that is nowhere in the tree
    req.sections[0].questions[0].options.push(option_req(1002, 999, "6", None));
    assert!(store.insert_exam(&req).is_err());
    assert!(store.read_exam_data(1).is_err());
    assert!(store.exams.is_empty());
    assert!(store.descriptions.is_empty());
    assert!(store.sections.is_empty());
    assert!(store.questions.is_empty());
    assert!(store.options.is_empty());
}

#[test]
fn duplicate_exam_id_is_rejected() {
    let mut store = ExamStore::new();
    store.insert_exam(&math_quiz()).unwrap();
    assert!(store.insert_exam(&math_quiz()).is_err());
}

#[test]
fn duplicate_section_id_is_ignored_not_duplicated() {
    let mut store = ExamStore::new();
    let mut req = math_quiz();
    req.sections.push(section_req(10, "Shadow", vec![]));
    store.insert_exam(&req).unwrap();
    assert_eq!(store.sections.len(), 1);
    assert_eq!(store.sections[0].title, "Algebra");
}

#[test]
fn cascade_delete_removes_every_row() {
    let mut store = ExamStore::new();
    store.insert_exam(&math_quiz()).unwrap();
    store.delete_exam(1).unwrap();
    assert!(store.exams.is_empty());
    assert!(store.descriptions.is_empty());
    assert!(store.sections.is_empty());
    assert!(store.questions.is_empty());
    assert!(store.options.is_empty());
    assert!(store.read_exam_data(1).is_err());
}

#[test]
fn delete_twice_succeeds() {
    let mut store = ExamStore::new();
    store.insert_exam(&math_quiz()).unwrap();
    store.delete_exam(1).unwrap();
    assert!(store.delete_exam(1).is_ok());
    assert!(store.exams.is_empty());
}

#[test]
fn delete_of_absent_exam_is_not_an_error() {
    let mut store = ExamStore::new();
    assert!(store.delete_exam(42).is_ok());
}

#[test]
fn propagated_delete_leaves_no_orphans() {
    let mut store = ExamStore::new();
    store.insert_exam(&math_quiz()).unwrap();
    // delete only the section id; its question and options must follow
    let del = DeleteIdsRequest { section_ids: vec![10], question_ids: vec![], option_ids: vec![] };
    store.delete_with_propagation(&del).unwrap();
    assert!(store.sections.is_empty());
    assert!(store.questions.is_empty());
    assert!(store.options.is_empty());
    // the exam and description rows are untouched by a section delete
    assert_eq!(store.exams.len(), 1);
    assert_eq!(store.descriptions.len(), 1);
}

#[test]
fn plain_delete_does_not_propagate() {
    let mut store = ExamStore::new();
    store.insert_exam(&math_quiz()).unwrap();
    let del = DeleteIdsRequest { section_ids: vec![10], question_ids: vec![], option_ids: vec![] };
    store.delete_related_entities(&del).unwrap();
    assert!(store.sections.is_empty());
    // without propagation the question and options survive as orphans
    assert_eq!(store.questions.len(), 1);
    assert_eq!(store.options.len(), 2);
}

#[test]
fn empty_edit_is_a_no_op() {
    let mut store = ExamStore::new();
    store.insert_exam(&math_quiz()).unwrap();
    let edit = EditExamRequest {
        exam_id: ExamIdRequestModel { base: ExamModel { id: 1 } },
        description: description(5, 1, "Math Quiz"),
        sections: vec![],
        delete: DeleteIdsRequest { section_ids: vec![], question_ids: vec![], option_ids: vec![] },
    };
    store.edit_exam(&edit).unwrap();
    assert_eq!(store.exams.len(), 1);
    assert_eq!(store.sections.len(), 1);
    assert_eq!(store.sections[0].title, "Algebra");
    assert_eq!(store.questions.len(), 1);
    assert_eq!(store.options.len(), 2);
}

#[test]
fn edit_updates_fields_in_place() {
    let mut store = ExamStore::new();
    store.insert_exam(&math_quiz()).unwrap();
    let edit = EditExamRequest {
        exam_id: ExamIdRequestModel { base: ExamModel { id: 1 } },
        description: description(5, 1, "Math Quiz"),
        sections: vec![section_req(
            10,
            "Arithmetic",
            vec![question_req(
                100,
                10,
                "3+3=?",
                vec![option_req(1000, 100, "6", Some(true))],
            )],
        )],
        delete: DeleteIdsRequest { section_ids: vec![], question_ids: vec![], option_ids: vec![] },
    };
    store.edit_exam(&edit).unwrap();
    assert_eq!(store.sections[0].title, "Arithmetic");
    assert_eq!(store.questions[0].text, "3+3=?");
    assert_eq!(store.options[0].text, "6");
    // an edit updates rows; it never creates new ones
    assert_eq!(store.options.len(), 2);
    assert_eq!(store.options[1].text, "5");
}

#[test]
fn regrouping_merges_join_rows_without_duplicates() {
    // section A (2 questions: one with 2 options, one with none),
    // section B (no questions): five join rows in all
    let row = |sid: i32, stitle: &str, q: Option<(i32, &str)>, o: Option<(i32, &str)>| SectionRow {
        section_id: sid,
        section_title: stitle.to_string(),
        section_exam_description_id: 5,
        question_id: q.map(|x| x.0),
        question_text: q.map(|x| x.1.to_string()),
        question_description: None,
        question_marks: q.map(|_| 5),
        option_id: o.map(|x| x.0),
        option_text: o.map(|x| x.1.to_string()),
        option_is_correct: None,
    };
    let rows = vec![
        row(1, "A", Some((11, "q1")), Some((111, "o1"))),
        row(1, "A", Some((11, "q1")), Some((112, "o2"))),
        row(1, "A", Some((12, "q2")), None),
        row(2, "B", None, None),
    ];
    let sections = map_to_section_response(rows);
    assert_eq!(sections.len(), 2);
    assert_eq!(sections[0].base.id, 1);
    assert_eq!(sections[0].questions.len(), 2);
    assert_eq!(sections[0].questions[0].base.id, 11);
    assert_eq!(sections[0].questions[0].options.len(), 2);
    assert_eq!(sections[0].questions[1].base.id, 12);
    assert_eq!(sections[0].questions[1].options.len(), 0);
    assert_eq!(sections[1].base.id, 2);
    assert_eq!(sections[1].questions.len(), 0);
}

#[test]
fn read_of_missing_description_is_not_found() {
    let mut store = ExamStore::new();
    store.exams.push(7);
    match store.read_exam_data(7) {
        Err(e) => assert_eq!(e.status_code(), 404),
        Ok(_) => panic!("an exam without a description must not read back"),
    }
}

#[test]
fn flat_delete_payload_emptiness() {
    let d = exam_core::models::Delete { section_ids: vec![], question_ids: vec![], option_ids: vec![] };
    assert!(d.is_all_empty());
    let d2 = exam_core::models::Delete { section_ids: vec![1], question_ids: vec![], option_ids: vec![] };
    assert!(!d2.is_all_empty());
}

#[test]
fn deletion_expansion_adds_children_of_requested_sections() {
    // snapshot: section 1 owns question 10 with options 100 and 101;
    // section 2 owns question 20 with option 200
    let map = vec![(1, 10, 100), (1, 10, 101), (2, 20, 200)];
    let mut data = exam_core::models::DeletionData::new(vec![1], vec![], vec![], map);
    data.filter_deletions();
    assert_eq!(data.section_id_to_delete, vec![1]);
    assert_eq!(data.question_id_to_delete, vec![10]);
    assert_eq!(data.option_id_to_delete, vec![100, 101]);
}

#[test]
fn deletion_expansion_covers_options_of_named_questions() {
    let map = vec![(1, 10, 100), (2, 20, 200)];
    let mut data = exam_core::models::DeletionData::new(vec![], vec![20], vec![], map);
    data.filter_deletions();
    assert!(data.question_id_to_delete.contains(&20));
    assert!(data.option_id_to_delete.contains(&200));
    assert!(!data.option_id_to_delete.contains(&100));
}

#[test]
fn empty_deletion_expansion_changes_nothing() {
    let mut data = exam_core::models::DeletionData::new(vec![], vec![], vec![], vec![(1, 10, 100)]);
    data.filter_deletions();
    assert!(data.section_id_to_delete.is_empty());
    assert!(data.question_id_to_delete.is_empty());
    assert!(data.option_id_to_delete.is_empty());
}
