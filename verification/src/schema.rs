//! Row-level models of the relational schema: one struct per table, plus
//! the flat row shape produced by the joined hierarchy query. Each exec
//! struct has a ghost view used by the contracts of the store operations.

use vstd::prelude::*;

verus! {

/// Spec view of an optional string column.
pub open spec fn opt_str_v(o: Option<String>) -> Option<Seq<char>> {
    match o {
        Option::Some(s) => Option::Some(s@),
        Option::None => Option::None,
    }
}

/// A row of the `exams` table: identity only.
#[derive(Clone, Copy, Debug, PartialEq, Eq, Structural)]
pub struct ExamModel {
    pub id: i32,
}

/// A row of the exam-descriptions table.
#[derive(Debug)]
pub struct ExamDescriptionModel {
    pub id: i32,
    pub exam_id: i32,
    pub title: String,
    pub description: Option<String>,
    pub duration: i32,
    pub passing_score: i32,
}

/// A row of the `sections` table.
#[derive(Debug)]
pub struct SectionsModel {
    pub id: i32,
    pub exam_description_id: i32,
    pub title: String,
}

/// A row of the `questions` table.
#[derive(Debug)]
pub struct QuestionsModel {
    pub id: i32,
    pub section_id: i32,
    pub text: String,
    pub description: Option<String>,
    pub marks: i32,
}

/// A row of the `options` table.
#[derive(Debug)]
pub struct OptionsModel {
    pub id: i32,
    pub question_id: i32,
    pub text: String,
    pub is_correct: Option<bool>,
}

/// The id of a correct option, as selected by a correctness query.
#[derive(Clone, Copy, Debug, PartialEq, Eq, Structural)]
pub struct CorrectOptionModel {
    pub option_id: i32,
}

/// One row of the joined exam hierarchy query. The question and option
/// columns come from outer joins and are absent for a section without
/// questions or a question without options.
#[derive(Debug)]
pub struct SectionRow {
    pub section_id: i32,
    pub section_title: String,
    pub section_exam_description_id: i32,
    pub question_id: Option<i32>,
    pub question_text: Option<String>,
    pub question_description: Option<String>,
    pub question_marks: Option<i32>,
    pub option_id: Option<i32>,
    pub option_text: Option<String>,
    pub option_is_correct: Option<bool>,
}

/// Ghost view of a description row.
#[verifier::ext_equal]
pub ghost struct DescRowV {
    pub id: int,
    pub exam_id: int,
    pub title: Seq<char>,
    pub description: Option<Seq<char>>,
    pub duration: int,
    pub passing_score: int,
}

/// Ghost view of a section row.
#[verifier::ext_equal]
pub ghost struct SecRowV {
    pub id: int,
    pub exam_description_id: int,
    pub title: Seq<char>,
}

/// Ghost view of a question row.
#[verifier::ext_equal]
pub ghost struct QRowV {
    pub id: int,
    pub section_id: int,
    pub text: Seq<char>,
    pub description: Option<Seq<char>>,
    pub marks: int,
}

/// Ghost view of an option row.
#[verifier::ext_equal]
pub ghost struct ORowV {
    pub id: int,
    pub question_id: int,
    pub text: Seq<char>,
    pub is_correct: Option<bool>,
}

/// Ghost view of a joined hierarchy row.
#[verifier::ext_equal]
pub ghost struct RowV {
    pub section_id: int,
    pub section_title: Seq<char>,
    pub section_exam_description_id: int,
    pub question_id: Option<int>,
    pub question_text: Option<Seq<char>>,
    pub question_description: Option<Seq<char>>,
    pub question_marks: Option<int>,
    pub option_id: Option<int>,
    pub option_text: Option<Seq<char>>,
    pub option_is_correct: Option<bool>,
}

impl RowV {
    /// The question columns are present together, and an option only comes
    /// with its question.
    pub open spec fn wf(self) -> bool {
        &&& (self.question_id is Some ==> self.question_text is Some && self.question_marks
            is Some)
        &&& (self.option_id is Some ==> self.question_id is Some && self.option_text is Some)
    }
}

impl View for ExamDescriptionModel {
    type V = DescRowV;

    open spec fn view(&self) -> DescRowV {
        DescRowV {
            id: self.id as int,
            exam_id: self.exam_id as int,
            title: self.title@,
            description: opt_str_v(self.description),
            duration: self.duration as int,
            passing_score: self.passing_score as int,
        }
    }
}

impl View for SectionsModel {
    type V = SecRowV;

    open spec fn view(&self) -> SecRowV {
        SecRowV {
            id: self.id as int,
            exam_description_id: self.exam_description_id as int,
            title: self.title@,
        }
    }
}

impl View for QuestionsModel {
    type V = QRowV;

    open spec fn view(&self) -> QRowV {
        QRowV {
            id: self.id as int,
            section_id: self.section_id as int,
            text: self.text@,
            description: opt_str_v(self.description),
            marks: self.marks as int,
        }
    }
}

impl View for OptionsModel {
    type V = ORowV;

    open spec fn view(&self) -> ORowV {
        ORowV {
            id: self.id as int,
            question_id: self.question_id as int,
            text: self.text@,
            is_correct: self.is_correct,
        }
    }
}

/// Spec view of an optional integer column.
pub open spec fn opt_i32_v(o: Option<i32>) -> Option<int> {
    match o {
        Option::Some(x) => Option::Some(x as int),
        Option::None => Option::None,
    }
}

impl View for SectionRow {
    type V = RowV;

    open spec fn view(&self) -> RowV {
        RowV {
            section_id: self.section_id as int,
            section_title: self.section_title@,
            section_exam_description_id: self.section_exam_description_id as int,
            question_id: opt_i32_v(self.question_id),
            question_text: opt_str_v(self.question_text),
            question_description: opt_str_v(self.question_description),
            question_marks: opt_i32_v(self.question_marks),
            option_id: opt_i32_v(self.option_id),
            option_text: opt_str_v(self.option_text),
            option_is_correct: self.option_is_correct,
        }
    }
}

/// A copy of an optional string column.
pub fn clone_opt_string(o: &Option<String>) -> (r: Option<String>)
    ensures
        opt_str_v(r) == opt_str_v(*o),
{
    match o {
        Option::Some(s) => Option::Some(s.clone()),
        Option::None => Option::None,
    }
}

impl ExamDescriptionModel {
    /// A copy of this row.
    pub fn clone_row(&self) -> (r: ExamDescriptionModel)
        ensures
            r@ == self@,
    {
        ExamDescriptionModel {
            id: self.id,
            exam_id: self.exam_id,
            title: self.title.clone(),
            description: clone_opt_string(&self.description),
            duration: self.duration,
            passing_score: self.passing_score,
        }
    }
}

impl SectionsModel {
    /// A copy of this row.
    pub fn clone_row(&self) -> (r: SectionsModel)
        ensures
            r@ == self@,
    {
        SectionsModel {
            id: self.id,
            exam_description_id: self.exam_description_id,
            title: self.title.clone(),
        }
    }
}

impl QuestionsModel {
    /// A copy of this row.
    pub fn clone_row(&self) -> (r: QuestionsModel)
        ensures
            r@ == self@,
    {
        QuestionsModel {
            id: self.id,
            section_id: self.section_id,
            text: self.text.clone(),
            description: clone_opt_string(&self.description),
            marks: self.marks,
        }
    }
}

impl OptionsModel {
    /// A copy of this row.
    pub fn clone_row(&self) -> (r: OptionsModel)
        ensures
            r@ == self@,
    {
        OptionsModel {
            id: self.id,
            question_id: self.question_id,
            text: self.text.clone(),
            is_correct: self.is_correct,
        }
    }
}

} // verus!
