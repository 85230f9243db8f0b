//! Request and response shapes of the exam hierarchy: the nested tree
//! submitted on create/edit, the nested tree returned on read, and the
//! deletion payload.

use vstd::prelude::*;

use crate::schema::{
    opt_str_v, DescRowV, ExamDescriptionModel, ExamModel, OptionsModel, QuestionsModel,
    SectionsModel,
};

verus! {

/// The root id of a submitted exam tree.
#[derive(Clone, Copy, Debug, PartialEq, Eq, Structural)]
pub struct ExamIdRequestModel {
    pub base: ExamModel,
}

/// The description part of a submitted exam tree.
#[derive(Debug)]
pub struct ExamDescriptionRequest {
    pub base: ExamDescriptionModel,
}

/// A submitted option row.
#[derive(Debug)]
pub struct OptionRequestModel {
    pub base: OptionsModel,
}

/// A submitted question with its nested options.
#[derive(Debug)]
pub struct QuestionRequest {
    pub base: QuestionsModel,
    pub options: Vec<OptionRequestModel>,
}

/// A submitted section with its nested questions.
#[derive(Debug)]
pub struct SectionRequest {
    pub base: SectionsModel,
    pub questions: Vec<QuestionRequest>,
}

/// A full exam tree submitted for creation.
#[derive(Debug)]
pub struct ExamRequest {
    pub exam_id: ExamIdRequestModel,
    pub description: ExamDescriptionRequest,
    pub sections: Vec<SectionRequest>,
}

/// The three id lists of a deletion payload.
#[derive(Debug)]
pub struct DeleteIdsRequest {
    pub section_ids: Vec<i32>,
    pub question_ids: Vec<i32>,
    pub option_ids: Vec<i32>,
}

/// An edit payload: in-place field edits plus a deletion payload.
#[derive(Debug)]
pub struct EditExamRequest {
    pub exam_id: ExamIdRequestModel,
    pub description: ExamDescriptionRequest,
    pub sections: Vec<SectionRequest>,
    pub delete: DeleteIdsRequest,
}

impl DeleteIdsRequest {
    /// Whether all three id lists are empty, i.e. the payload asks for
    /// nothing to be deleted.
    pub fn is_all_empty(&self) -> (r: bool)
        ensures
            r == (self.section_ids@.len() == 0 && self.question_ids@.len() == 0
                && self.option_ids@.len() == 0),
    {
        self.section_ids.is_empty() && self.question_ids.is_empty() && self.option_ids.is_empty()
    }
}

/// The id of an exam, as returned to a caller.
#[derive(Clone, Copy, Debug, PartialEq, Eq, Structural)]
pub struct ExamIdResponse {
    pub id: i32,
}

/// The id row of an exam, wrapped for a response body.
#[derive(Clone, Copy, Debug, PartialEq, Eq, Structural)]
pub struct ExamIdResponseModel {
    pub base: ExamModel,
}

/// The description of an exam, as returned to a caller. A missing
/// description text becomes the empty string.
#[derive(Debug)]
pub struct ExamDescription {
    pub id: i32,
    pub exam_id: i32,
    pub title: String,
    pub description: String,
    pub duration: i32,
    pub passing_score: i32,
}

/// An option row, wrapped for a response body.
#[derive(Debug)]
pub struct OptionResponseModel {
    pub base: OptionsModel,
}

/// A question with its accumulated options, as returned to a caller.
#[derive(Debug)]
pub struct QuestionResponse {
    pub base: QuestionsModel,
    pub options: Vec<OptionResponseModel>,
}

/// A section with its accumulated questions, as returned to a caller.
#[derive(Debug)]
pub struct SectionResponse {
    pub base: SectionsModel,
    pub questions: Vec<QuestionResponse>,
}

/// A full exam tree, as returned to a caller.
#[derive(Debug)]
pub struct ExamResponse {
    pub exam_id: ExamIdResponse,
    pub description: ExamDescription,
    pub sections: Vec<SectionResponse>,
}

/// Ghost view of a returned option.
#[verifier::ext_equal]
pub ghost struct OptV {
    pub id: int,
    pub question_id: int,
    pub text: Seq<char>,
    pub is_correct: Option<bool>,
}

/// Ghost view of a returned question.
#[verifier::ext_equal]
pub ghost struct QV {
    pub id: int,
    pub section_id: int,
    pub text: Seq<char>,
    pub description: Option<Seq<char>>,
    pub marks: int,
    pub options: Seq<OptV>,
}

/// Ghost view of a returned section.
#[verifier::ext_equal]
pub ghost struct SecV {
    pub id: int,
    pub exam_description_id: int,
    pub title: Seq<char>,
    pub questions: Seq<QV>,
}

/// Ghost view of a returned exam description.
#[verifier::ext_equal]
pub ghost struct ExamDescV {
    pub id: int,
    pub exam_id: int,
    pub title: Seq<char>,
    pub description: Seq<char>,
    pub duration: int,
    pub passing_score: int,
}

/// Ghost view of a full returned exam.
#[verifier::ext_equal]
pub ghost struct ExamRespV {
    pub exam_id: int,
    pub description: ExamDescV,
    pub sections: Seq<SecV>,
}

impl View for OptionResponseModel {
    type V = OptV;

    open spec fn view(&self) -> OptV {
        OptV {
            id: self.base.id as int,
            question_id: self.base.question_id as int,
            text: self.base.text@,
            is_correct: self.base.is_correct,
        }
    }
}

impl View for QuestionResponse {
    type V = QV;

    open spec fn view(&self) -> QV {
        QV {
            id: self.base.id as int,
            section_id: self.base.section_id as int,
            text: self.base.text@,
            description: opt_str_v(self.base.description),
            marks: self.base.marks as int,
            options: self.options@.map(|i: int, o: OptionResponseModel| o@),
        }
    }
}

impl View for SectionResponse {
    type V = SecV;

    open spec fn view(&self) -> SecV {
        SecV {
            id: self.base.id as int,
            exam_description_id: self.base.exam_description_id as int,
            title: self.base.title@,
            questions: self.questions@.map(|i: int, q: QuestionResponse| q@),
        }
    }
}

impl View for ExamDescription {
    type V = ExamDescV;

    open spec fn view(&self) -> ExamDescV {
        ExamDescV {
            id: self.id as int,
            exam_id: self.exam_id as int,
            title: self.title@,
            description: self.description@,
            duration: self.duration as int,
            passing_score: self.passing_score as int,
        }
    }
}

impl View for ExamResponse {
    type V = ExamRespV;

    open spec fn view(&self) -> ExamRespV {
        ExamRespV {
            exam_id: self.exam_id.id as int,
            description: self.description@,
            sections: self.sections@.map(|i: int, s: SectionResponse| s@),
        }
    }
}

/// Spec view of a sequence of returned sections.
pub open spec fn secs_v(s: Seq<SectionResponse>) -> Seq<SecV> {
    s.map(|i: int, x: SectionResponse| x@)
}

/// The returned description derived from a description row: the missing
/// description text defaults to the empty string.
pub open spec fn exam_desc_of_row(d: DescRowV) -> ExamDescV {
    ExamDescV {
        id: d.id,
        exam_id: d.exam_id,
        title: d.title,
        description: match d.description {
            Option::Some(t) => t,
            Option::None => Seq::empty(),
        },
        duration: d.duration,
        passing_score: d.passing_score,
    }
}

impl From<ExamModel> for ExamIdResponse {
    fn from(model: ExamModel) -> (r: ExamIdResponse) {
        ExamIdResponse { id: model.id }
    }
}

impl vstd::std_specs::convert::FromSpecImpl<ExamModel> for ExamIdResponse {
    open spec fn obeys_from_spec() -> bool {
        true
    }

    open spec fn from_spec(model: ExamModel) -> ExamIdResponse {
        ExamIdResponse { id: model.id }
    }
}

impl From<ExamDescriptionModel> for ExamDescription {
    fn from(model: ExamDescriptionModel) -> (r: ExamDescription) {
        exam_description_from_row(model)
    }
}

impl vstd::std_specs::convert::FromSpecImpl<ExamDescriptionModel> for ExamDescription {
    open spec fn obeys_from_spec() -> bool {
        false
    }

    open spec fn from_spec(model: ExamDescriptionModel) -> ExamDescription {
        arbitrary()
    }
}

/// Converts a description row into the returned description shape; the
/// missing description text defaults to the empty string.
pub fn exam_description_from_row(model: ExamDescriptionModel) -> (r: ExamDescription)
    ensures
        r@ == exam_desc_of_row(model@),
{
    ExamDescription {
        id: model.id,
        exam_id: model.exam_id,
        title: model.title,
        description: match model.description {
            Option::Some(t) => t,
            Option::None => String::new(),
        },
        duration: model.duration,
        passing_score: model.passing_score,
    }
}

} // verus!
