use exam_core::errors::AppError;
use exam_core::llm::{
    DistractorType, GuessFillInTheBlankResponse, Language, LLMContent, LLMContentResponse,
    LLMOptionsResponse, LLMPartResponse, LLMResponse, PromptLanguage,
};
use exam_core::parse::map_to_prompt_language;
use exam_core::prompts::{
    arabic_prompt_template_quranic_verse_distractor_mcq,
    arabic_prompt_template_similar_fill_in_the_blank, build_contextual_mcq_prompt,
    build_mcq_prompt, fill_template, get_quranic_verse_distractor_prompt, PromptTemplates,
    urdu_prompt_template_context_mcq, urdu_prompt_template_similar_fill_in_the_blank,
};
use exam_core::services::{llm_reply_body, UrlBuilder};

fn templates() -> PromptTemplates {
    PromptTemplates {
        prompt_context_urdu: "U: {question} / {correct_answer}".to_string(),
        prompt_quranic_verse: "V: {question}".to_string(),
        prompt_quranic_verse_distractor_collection: "C: {question} + {correct_answer}".to_string(),
        prompt_quranic_verse_diacritic_distractor: "D: {question}".to_string(),
        prompt_quranic_verse_phonetic_distractor: "P: {question}".to_string(),
        prompt_quranic_verse_morfological_distractor: "M: {question}".to_string(),
        prompt_quranic_verse_grammatical_distractor: "G: {question}".to_string(),
        prompt_quranic_verse_alternate_verse_distractor: "A: {question}".to_string(),
        prompt_quranic_verse_thematic_distractor: "T: {question}".to_string(),
        prompt_quranic_verse_collocational_distractor: "K: {question}".to_string(),
    }
}

#[test]
fn fill_template_substitutes_trimmed_inputs() {
    let out = fill_template("Q=[{question}] A=[{correct_answer}]", " what ", " four ");
    assert_eq!(out, "Q=[what] A=[four]");
}

#[test]
fn context_prompt_uses_the_urdu_template() {
    let t = templates();
    let out = urdu_prompt_template_context_mcq(&t, &"q1".to_string(), &"a1".to_string());
    assert_eq!(out, "U: q1 / a1");
}

#[test]
fn distractor_prompt_selects_by_kind() {
    let t = templates();
    let q = "q".to_string();
    let a = "a".to_string();
    let col = arabic_prompt_template_quranic_verse_distractor_mcq(&t, &q, &a, DistractorType::Collection);
    assert_eq!(col, "C: q + a");
    let dia = arabic_prompt_template_quranic_verse_distractor_mcq(&t, &q, &a, DistractorType::Diacritic);
    assert_eq!(dia, "D: q");
    let the = arabic_prompt_template_quranic_verse_distractor_mcq(&t, &q, &a, DistractorType::Thematic);
    assert_eq!(the, "T: q");
}

#[test]
fn built_in_prompts_carry_the_inputs() {
    let q = " which city ".to_string();
    let a = " cairo ".to_string();
    let ar = arabic_prompt_template_similar_fill_in_the_blank(&q, &a);
    assert!(ar.contains("which city"));
    assert!(ar.contains("cairo"));
    assert!(!ar.contains(" which city "));
    let ur = urdu_prompt_template_similar_fill_in_the_blank(&q, &a);
    assert!(ur.contains("which city"));
    assert!(ur.contains("cairo"));
    let viaa = build_mcq_prompt(&q, &a, PromptLanguage::Arabic);
    assert_eq!(viaa, ar);
    let viau = build_mcq_prompt(&q, &a, PromptLanguage::Urdu);
    assert_eq!(viau, ur);
}

#[test]
fn contextual_prompt_rejects_arabic() {
    let t = templates();
    let q = "q".to_string();
    let a = "a".to_string();
    match build_contextual_mcq_prompt(&t, &q, &a, PromptLanguage::Arabic) {
        Err(e) => assert_eq!(e.status_code(), 400),
        Ok(_) => panic!("Arabic must be rejected on the context endpoint"),
    }
    assert_eq!(build_contextual_mcq_prompt(&t, &q, &a, PromptLanguage::Urdu).unwrap(), "U: q / a");
}

#[test]
fn verse_distractor_prompt_rejects_urdu() {
    let t = templates();
    let q = "q".to_string();
    let a = "a".to_string();
    match get_quranic_verse_distractor_prompt(&t, &q, &a, PromptLanguage::Urdu, DistractorType::Phonetic) {
        Err(e) => assert_eq!(e.status_code(), 400),
        Ok(_) => panic!("Urdu must be rejected on the verse endpoint"),
    }
    let ok = get_quranic_verse_distractor_prompt(&t, &q, &a, PromptLanguage::Arabic, DistractorType::Phonetic);
    assert_eq!(ok.unwrap(), "P: q");
}

#[test]
fn language_mapping() {
    assert!(matches!(map_to_prompt_language(&Language::Arabic), PromptLanguage::Arabic));
    assert!(matches!(map_to_prompt_language(&Language::Urdu), PromptLanguage::Urdu));
}

#[test]
fn exactly_four_options_are_required() {
    let three = GuessFillInTheBlankResponse {
        responses: vec!["a".into(), "b".into(), "c".into()],
    };
    match three.validate_option_count() {
        Err(AppError::ValidationError(_)) => {},
        _ => panic!("three options must be rejected"),
    }
    let five = GuessFillInTheBlankResponse {
        responses: vec!["a".into(), "b".into(), "c".into(), "d".into(), "e".into()],
    };
    assert!(five.validate_option_count().is_err());
    let four = GuessFillInTheBlankResponse {
        responses: vec!["a".into(), "b".into(), "c".into(), "d".into()],
    };
    assert!(four.validate_option_count().is_ok());
}

#[test]
fn first_candidate_text_walks_the_envelope() {
    let resp = LLMResponse {
        candidates: Some(vec![LLMOptionsResponse {
            content: Some(LLMContentResponse {
                parts: vec![LLMPartResponse { text: "out".to_string() }],
            }),
        }]),
    };
    assert_eq!(resp.first_candidate_text().unwrap(), "out");
    let empty = LLMResponse { candidates: None };
    match empty.first_candidate_text() {
        Err(e) => assert_eq!(e.status_code(), 500),
        Ok(_) => panic!("an empty envelope has no text"),
    }
    let no_parts = LLMResponse {
        candidates: Some(vec![LLMOptionsResponse {
            content: Some(LLMContentResponse { parts: vec![] }),
        }]),
    };
    assert!(no_parts.first_candidate_text().is_err());
}

#[test]
fn content_block_holds_one_part() {
    let c = LLMContent::new("prompt text".to_string());
    assert_eq!(c.parts.len(), 1);
    assert_eq!(c.parts[0].text, "prompt text");
}

#[test]
fn url_builder_formats_the_endpoint() {
    let b = UrlBuilder::build(
        "https://gen.example/v1/models".to_string(),
        "text-model".to_string(),
        "k123".to_string(),
    );
    assert_eq!(
        b.get_url(),
        "https://gen.example/v1/models/text-model:generateContent?key=k123"
    );
}

#[test]
fn verse_url_formats_chapter_and_verse() {
    assert_eq!(exam_core::services::verse_url("https://quran.example", 2, 255), "https://quran.example/2:255");
}

#[test]
fn reply_body_judges_the_status() {
    assert_eq!(llm_reply_body(200, "ok".to_string()).unwrap(), "ok");
    assert_eq!(llm_reply_body(299, "ok".to_string()).unwrap(), "ok");
    match llm_reply_body(500, "boom".to_string()) {
        Err(AppError::UpstreamError(b)) => assert_eq!(b, "boom"),
        _ => panic!("a server error is an upstream error"),
    }
    assert!(llm_reply_body(404, "missing".to_string()).is_err());
}

#[test]
fn error_categories_and_codes() {
    let nf = AppError::NotFound("x".to_string());
    assert_eq!(nf.status_code(), 404);
    assert_eq!(nf.category(), "Not Found");
    assert_eq!(nf.message(), "x");
    let bad = AppError::ValidationError("y".to_string());
    assert_eq!(bad.status_code(), 400);
    assert_eq!(bad.category(), "Bad Request");
    let up = AppError::UpstreamError("z".to_string());
    assert_eq!(up.status_code(), 500);
    assert_eq!(up.category(), "Internal Server Error");
    let st = AppError::StorageError("w".to_string());
    assert_eq!(st.status_code(), 500);
    assert_eq!(st.category(), "Internal Server Error");
}
