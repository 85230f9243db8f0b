//! Shapes of the text-generation exchange: the request content sent to the
//! generation API, the response envelope it returns, the per-kind
//! distractor response shapes, and the validation of generated option
//! lists.

use vstd::prelude::*;

use crate::errors::AppError;

verus! {

/// The language of a generation request, as submitted by the caller.
#[derive(Debug, Clone, Copy, PartialEq, Eq, Structural)]
pub enum Language {
    Arabic,
    Urdu,
}

/// The language a prompt template is written in.
#[derive(Debug, Clone, Copy, PartialEq, Eq, Structural)]
pub enum PromptLanguage {
    Arabic,
    Urdu,
}

/// A request to generate options for a fill-in-the-blank question from its
/// sentence context.
#[derive(Debug)]
pub struct ContextFillInThBlankTextGenerationRequest {
    pub question: String,
    pub correct_answer: String,
    pub language: Language,
}

/// A request to generate options similar to the correct answer.
#[derive(Debug)]
pub struct SimilarFillInThBlankTextGenerationRequest {
    pub question: String,
    pub correct_answer: String,
    pub language: Language,
}

/// A request to generate distractors for a scripture-verse
/// fill-in-the-blank question.
#[derive(Debug)]
pub struct QuranicVerseFillInThBlankTextGenerationRequest {
    pub question: String,
    pub correct_answer: String,
}

/// One text part of a generation request.
#[derive(Debug)]
pub struct Part {
    pub text: String,
}

/// The content block of a generation request: a list of text parts.
#[derive(Debug)]
pub struct LLMContent {
    pub parts: Vec<Part>,
}

impl LLMContent {
    /// A content block holding one text part.
    pub fn new(text: String) -> (r: LLMContent)
        ensures
            r.parts@.len() == 1,
            r.parts@[0].text@ == text@,
    {
        let mut parts: Vec<Part> = Vec::new();
        parts.push(Part { text });
        LLMContent { parts }
    }
}

/// One text part of a generation response.
#[derive(Debug)]
pub struct LLMPartResponse {
    pub text: String,
}

/// The content block of one generated candidate.
#[derive(Debug)]
pub struct LLMContentResponse {
    pub parts: Vec<LLMPartResponse>,
}

/// One generated candidate.
#[derive(Debug)]
pub struct LLMOptionsResponse {
    pub content: Option<LLMContentResponse>,
}

/// The envelope of a generation response.
#[derive(Debug)]
pub struct LLMResponse {
    pub candidates: Option<Vec<LLMOptionsResponse>>,
}

/// Whether a generation response carries at least one candidate with
/// content and at least one text part.
pub open spec fn has_candidate_text(resp: LLMResponse) -> bool {
    &&& resp.candidates is Some
    &&& resp.candidates->0@.len() > 0
    &&& resp.candidates->0@[0].content is Some
    &&& resp.candidates->0@[0].content->0.parts@.len() > 0
}

/// The text of the first part of the first candidate's content.
pub open spec fn candidate_text(resp: LLMResponse) -> Seq<char> {
    resp.candidates->0@[0].content->0.parts@[0].text@
}

impl LLMResponse {
    /// Extracts the generated text: the first part of the first
    /// candidate's content. A response without one is an upstream error.
    pub fn first_candidate_text(&self) -> (r: Result<String, AppError>)
        ensures
            match r {
                Result::Ok(t) => has_candidate_text(*self) && t@ == candidate_text(*self),
                Result::Err(e) => !has_candidate_text(*self) && e is UpstreamError,
            },
    {
        match &self.candidates {
            Option::Some(cands) => {
                if cands.len() > 0 {
                    match &cands[0].content {
                        Option::Some(content) => {
                            if content.parts.len() > 0 {
                                Result::Ok(content.parts[0].text.clone())
                            } else {
                                Result::Err(
                                    AppError::UpstreamError(
                                        String::from_str("No valid text in LLM response"),
                                    ),
                                )
                            }
                        },
                        Option::None => Result::Err(
                            AppError::UpstreamError(
                                String::from_str("No valid text in LLM response"),
                            ),
                        ),
                    }
                } else {
                    Result::Err(
                        AppError::UpstreamError(String::from_str("No valid text in LLM response")),
                    )
                }
            },
            Option::None => Result::Err(
                AppError::UpstreamError(String::from_str("No valid text in LLM response")),
            ),
        }
    }
}

/// A parsed option list returned to the caller of the context-based
/// generation endpoints.
#[derive(Debug)]
pub struct GuessFillInTheBlankResponse {
    pub responses: Vec<String>,
}

/// The number of options a generation request must produce.
pub const EXPECTED_OPTION_COUNT: usize = 4;

impl GuessFillInTheBlankResponse {
    /// Checks that the generated option list holds exactly the expected
    /// number of options; any other count is a validation error, never
    /// silently truncated or padded.
    pub fn validate_option_count(&self) -> (r: Result<(), AppError>)
        ensures
            r is Ok <==> self.responses@.len() == EXPECTED_OPTION_COUNT,
            r is Err ==> r->Err_0 is ValidationError,
    {
        if self.responses.len() == EXPECTED_OPTION_COUNT {
            Result::Ok(())
        } else {
            Result::Err(
                AppError::ValidationError(
                    String::from_str("LLM response must contain exactly 4 options"),
                ),
            )
        }
    }
}

/// The distractor collection returned by the combined scripture-verse
/// endpoint.
#[derive(Debug)]
pub struct GuessFillInTheBlankQuranDistractorCollectionResponse {
    pub correct_answer: Vec<String>,
    pub collocational_distractors: Vec<String>,
    pub thematic_distractors: Vec<String>,
    pub alternative_verse_distractors: Vec<String>,
    pub grammatical_distractors: Vec<String>,
    pub morphological_distractors: Vec<String>,
    pub phonetic_orthographic_distractors: Vec<String>,
    pub diacritic_distractors: Vec<String>,
}

/// Collocational distractors with the correct answer.
#[derive(Debug)]
pub struct CollocationalDistractorResponse {
    pub correct_answer: Vec<String>,
    pub collocational_distractors: Vec<String>,
}

/// Thematic distractors with the correct answer.
#[derive(Debug)]
pub struct ThematicDistractorResponse {
    pub correct_answer: Vec<String>,
    pub thematic_distractors: Vec<String>,
}

/// Alternate-verse distractors with the correct answer.
#[derive(Debug)]
pub struct AlternateVerseDistractorResponse {
    pub correct_answer: Vec<String>,
    pub alternative_verse_distractors: Vec<String>,
}

/// Grammatical distractors with the correct answer.
#[derive(Debug)]
pub struct GrammaticalDistractorResponse {
    pub correct_answer: Vec<String>,
    pub grammatical_distractors: Vec<String>,
}

/// Morphological distractors with the correct answer.
#[derive(Debug)]
pub struct MorphologicalDistractorResponse {
    pub correct_answer: Vec<String>,
    pub morphological_distractors: Vec<String>,
}

/// Phonetic or orthographic distractors with the correct answer.
#[derive(Debug)]
pub struct PhoneticOrthographicDistractorResponse {
    pub correct_answer: Vec<String>,
    pub phonetic_orthographic_distractors: Vec<String>,
}

/// Diacritic distractors with the correct answer.
#[derive(Debug)]
pub struct DiacriticDistractorResponse {
    pub correct_answer: Vec<String>,
    pub diacritic_distractors: Vec<String>,
}

/// The kind of distractor a scripture-verse prompt asks for.
#[derive(Debug, Clone, Copy, PartialEq, Eq, Structural)]
pub enum DistractorType {
    Collection,
    Diacritic,
    Phonetic,
    Morphological,
    Grammatical,
    AlternateVerse,
    Thematic,
    Collocational,
}

} // verus!
