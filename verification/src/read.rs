//! Hierarchical read: fetching an exam returns its identity row, its
//! description, and the flat rows of the outer-join over sections,
//! questions and options, regrouped into the nested response tree. A
//! missing exam or missing description is a not-found error, while a
//! section without questions or a question without options yields empty
//! collections.

use vstd::prelude::*;

use crate::errors::AppError;
use crate::exam::{exam_desc_of_row, exam_description_from_row, ExamIdResponse, ExamRespV,
    ExamResponse};
use crate::parse::{map_to_section_response, regroup, rows_v};
use crate::schema::{DescRowV, ORowV, QRowV, QuestionsModel, RowV, SecRowV, SectionRow};
use crate::store::{contains_i32, lemma_exams_contains, ExamStore, StoreV};

verus! {

broadcast use {crate::store::group_table_views, crate::parse::group_row_views};

/// The join row for a section, question and option all present.
pub open spec fn row_full(sec: SecRowV, q: QRowV, o: ORowV) -> RowV {
    RowV {
        section_id: sec.id,
        section_title: sec.title,
        section_exam_description_id: sec.exam_description_id,
        question_id: Option::Some(q.id),
        question_text: Option::Some(q.text),
        question_description: q.description,
        question_marks: Option::Some(q.marks),
        option_id: Option::Some(o.id),
        option_text: Option::Some(o.text),
        option_is_correct: o.is_correct,
    }
}

/// The join row for a question with no options.
pub open spec fn row_no_opt(sec: SecRowV, q: QRowV) -> RowV {
    RowV {
        section_id: sec.id,
        section_title: sec.title,
        section_exam_description_id: sec.exam_description_id,
        question_id: Option::Some(q.id),
        question_text: Option::Some(q.text),
        question_description: q.description,
        question_marks: Option::Some(q.marks),
        option_id: Option::None,
        option_text: Option::None,
        option_is_correct: Option::None,
    }
}

/// The join row for a section with no questions.
pub open spec fn row_no_q(sec: SecRowV) -> RowV {
    RowV {
        section_id: sec.id,
        section_title: sec.title,
        section_exam_description_id: sec.exam_description_id,
        question_id: Option::None,
        question_text: Option::None,
        question_description: Option::None,
        question_marks: Option::None,
        option_id: Option::None,
        option_text: Option::None,
        option_is_correct: Option::None,
    }
}

/// Some question row references this section.
pub open spec fn sec_has_questions(qs: Seq<QRowV>, sid: int) -> bool {
    exists|i: int| 0 <= i < qs.len() && qs[i].section_id == sid
}

/// Some option row references this question.
pub open spec fn q_has_options(os: Seq<ORowV>, qid: int) -> bool {
    exists|i: int| 0 <= i < os.len() && os[i].question_id == qid
}

/// The join rows of the options of one question, in table order.
pub open spec fn rows_of_q_os(os: Seq<ORowV>, sec: SecRowV, q: QRowV) -> Seq<RowV>
    decreases os.len(),
{
    if os.len() == 0 {
        Seq::empty()
    } else {
        rows_of_q_os(os.drop_last(), sec, q) + (if os.last().question_id == q.id {
            seq![row_full(sec, q, os.last())]
        } else {
            Seq::empty()
        })
    }
}

/// The join rows of one question: one row per option, or a single row
/// with empty option columns when it has none.
pub open spec fn rows_of_q(s: StoreV, sec: SecRowV, q: QRowV) -> Seq<RowV> {
    if q_has_options(s.options, q.id) {
        rows_of_q_os(s.options, sec, q)
    } else {
        seq![row_no_opt(sec, q)]
    }
}

/// The join rows contributed by the questions of one section, in table
/// order.
pub open spec fn rows_of_sec_qs(s: StoreV, qs: Seq<QRowV>, sec: SecRowV) -> Seq<RowV>
    decreases qs.len(),
{
    if qs.len() == 0 {
        Seq::empty()
    } else {
        rows_of_sec_qs(s, qs.drop_last(), sec) + (if qs.last().section_id == sec.id {
            rows_of_q(s, sec, qs.last())
        } else {
            Seq::empty()
        })
    }
}

/// The join rows of one section: its questions' rows, or a single row
/// with empty question columns when it has none.
pub open spec fn rows_of_sec(s: StoreV, sec: SecRowV) -> Seq<RowV> {
    if sec_has_questions(s.questions, sec.id) {
        rows_of_sec_qs(s, s.questions, sec)
    } else {
        seq![row_no_q(sec)]
    }
}

/// The join rows contributed by the sections of one description, in table
/// order.
pub open spec fn rows_of_desc_secs(s: StoreV, secs: Seq<SecRowV>, did: int) -> Seq<RowV>
    decreases secs.len(),
{
    if secs.len() == 0 {
        Seq::empty()
    } else {
        rows_of_desc_secs(s, secs.drop_last(), did) + (if secs.last().exam_description_id == did {
            rows_of_sec(s, secs.last())
        } else {
            Seq::empty()
        })
    }
}

/// The join rows of the descriptions of one exam, in table order.
pub open spec fn flat_rows_descs(s: StoreV, descs: Seq<DescRowV>, eid: int) -> Seq<RowV>
    decreases descs.len(),
{
    if descs.len() == 0 {
        Seq::empty()
    } else {
        flat_rows_descs(s, descs.drop_last(), eid) + (if descs.last().exam_id == eid {
            rows_of_desc_secs(s, s.sections, descs.last().id)
        } else {
            Seq::empty()
        })
    }
}

/// The flat rows produced by the outer-join of the whole hierarchy for
/// one exam.
pub open spec fn flat_rows(s: StoreV, eid: int) -> Seq<RowV> {
    flat_rows_descs(s, s.descriptions, eid)
}

/// Some description row references this exam.
pub open spec fn has_desc_for(descs: Seq<DescRowV>, eid: int) -> bool {
    exists|i: int| 0 <= i < descs.len() && descs[i].exam_id == eid
}

/// The first description row referencing this exam.
pub open spec fn first_desc(descs: Seq<DescRowV>, eid: int) -> DescRowV
    decreases descs.len(),
{
    if descs.len() == 0 {
        arbitrary()
    } else if descs[0].exam_id == eid {
        descs[0]
    } else {
        first_desc(descs.drop_first(), eid)
    }
}

/// What a read returns: nothing when the exam row or its description is
/// absent, and otherwise the exam id, the first matching description, and
/// the regrouped join rows.
pub open spec fn spec_read(s: StoreV, eid: int) -> Option<ExamRespV> {
    if !s.exams.contains(eid) {
        Option::None
    } else if !has_desc_for(s.descriptions, eid) {
        Option::None
    } else {
        Option::Some(
            ExamRespV {
                exam_id: eid,
                description: exam_desc_of_row(first_desc(s.descriptions, eid)),
                sections: regroup(flat_rows(s, eid)),
            },
        )
    }
}

pub(crate) proof fn lemma_first_desc_is(descs: Seq<DescRowV>, eid: int, k: int)
    requires
        0 <= k < descs.len(),
        descs[k].exam_id == eid,
        forall|j: int| 0 <= j < k ==> descs[j].exam_id != eid,
    ensures
        first_desc(descs, eid) == descs[k],
        has_desc_for(descs, eid),
    decreases descs.len(),
{
    if k == 0 {
    } else {
        assert(descs[0].exam_id != eid);
        let t = descs.drop_first();
        assert(forall|j: int| 0 <= j < t.len() ==> t[j] == descs[j + 1]);
        lemma_first_desc_is(t, eid, k - 1);
    }
}

/// Whether some question row references this section.
fn any_question_for_section(qs: &Vec<QuestionsModel>, sid: i32) -> (r: bool)
    ensures
        r == sec_has_questions(crate::store::q_table_v(qs@), sid as int),
{
    let n: usize = qs.len();
    let mut i: usize = 0;
    while i < n
        invariant
            n == qs@.len(),
            0 <= i <= n,
            forall|j: int|
                0 <= j < i ==> crate::store::q_table_v(qs@)[j].section_id != sid as int,
        decreases n - i,
    {
        if qs[i].section_id == sid {
            proof {
                assert(crate::store::q_table_v(qs@)[i as int].section_id == sid as int);
            }
            return true;
        }
        i = i + 1;
    }
    false
}

/// Whether some option row references this question.
fn any_option_for_question(os: &Vec<crate::schema::OptionsModel>, qid: i32) -> (r: bool)
    ensures
        r == q_has_options(crate::store::o_table_v(os@), qid as int),
{
    let n: usize = os.len();
    let mut i: usize = 0;
    while i < n
        invariant
            n == os@.len(),
            0 <= i <= n,
            forall|j: int|
                0 <= j < i ==> crate::store::o_table_v(os@)[j].question_id != qid as int,
        decreases n - i,
    {
        if os[i].question_id == qid {
            proof {
                assert(crate::store::o_table_v(os@)[i as int].question_id == qid as int);
            }
            return true;
        }
        i = i + 1;
    }
    false
}

impl ExamStore {
    /// Reads the full nested data of one exam: its identity row, its
    /// description (an exam without one is an error, not an empty result),
    /// and every section with its questions and their options, regrouped
    /// from the join rows. A missing exam or description is a not-found
    /// error.
    pub fn read_exam_data(&self, exam_id: i32) -> (r: Result<ExamResponse, AppError>)
        ensures
            match r {
                Result::Ok(resp) => spec_read(self@, exam_id as int) == Option::Some(resp@),
                Result::Err(e) => spec_read(self@, exam_id as int) is None && e is NotFound,
            },
    {
        let exam_found = contains_i32(&self.exams, exam_id);
        proof {
            lemma_exams_contains(self.exams@, exam_id);
        }
        if !exam_found {
            return Result::Err(AppError::NotFound(String::from_str("Failed to fetch exam id")));
        }
        // first description referencing the exam
        let nd: usize = self.descriptions.len();
        let mut di: usize = 0;
        let mut desc_found: bool = false;
        while di < nd
            invariant_except_break
                !desc_found,
            invariant
                nd == self.descriptions@.len(),
                0 <= di <= nd,
                forall|j: int| 0 <= j < di ==> self@.descriptions[j].exam_id != exam_id as int,
            ensures
                0 <= di <= nd,
                nd == self.descriptions@.len(),
                desc_found ==> di < nd && self@.descriptions[di as int].exam_id == exam_id as int
                    && forall|j: int| 0 <= j < di ==> self@.descriptions[j].exam_id != exam_id as int,
                !desc_found ==> !has_desc_for(self@.descriptions, exam_id as int),
            decreases nd - di,
        {
            if self.descriptions[di].exam_id == exam_id {
                desc_found = true;
                proof {
                    assert(self@.descriptions[di as int].exam_id == exam_id as int);
                }
                break ;
            }
            di = di + 1;
        }
        if !desc_found {
            return Result::Err(
                AppError::NotFound(String::from_str("Failed to fetch exam description")),
            );
        }
        proof {
            lemma_first_desc_is(self@.descriptions, exam_id as int, di as int);
        }
        let description = exam_description_from_row(self.descriptions[di].clone_row());
        // the flat rows of the outer-join, in table order
        let ghost sv = self@;
        let ghost eidv = exam_id as int;
        let mut rows: Vec<SectionRow> = Vec::new();
        let mut a: usize = 0;
        proof {
            assert(rows_v(rows@) =~= flat_rows_descs(sv, sv.descriptions.subrange(0, 0), eidv));
        }
        while a < nd
            invariant
                sv == self@,
                eidv == exam_id as int,
                nd == self.descriptions@.len(),
                0 <= a <= nd,
                forall|x: int| 0 <= x < rows@.len() ==> (#[trigger] rows@[x])@.wf(),
                rows_v(rows@) == flat_rows_descs(sv, sv.descriptions.subrange(0, a as int), eidv),
            decreases nd - a,
        {
            let ghost pre_a = rows_v(rows@);
            if self.descriptions[a].exam_id == exam_id {
                let did = self.descriptions[a].id;
                let ns: usize = self.sections.len();
                let mut b: usize = 0;
                proof {
                    assert(rows_v(rows@) =~= pre_a + rows_of_desc_secs(
                        sv,
                        sv.sections.subrange(0, 0),
                        did as int,
                    ));
                }
                while b < ns
                    invariant
                        sv == self@,
                        eidv == exam_id as int,
                        ns == self.sections@.len(),
                        0 <= b <= ns,
                        did as int == sv.descriptions[a as int].id,
                        0 <= a < nd,
                        nd == self.descriptions@.len(),
                        forall|x: int| 0 <= x < rows@.len() ==> (#[trigger] rows@[x])@.wf(),
                        rows_v(rows@) == pre_a + rows_of_desc_secs(
                            sv,
                            sv.sections.subrange(0, b as int),
                            did as int,
                        ),
                    decreases ns - b,
                {
                    let ghost pre_b = rows_v(rows@);
                    if self.sections[b].exam_description_id == did {
                        let ghost secv = sv.sections[b as int];
                        let has_qs = any_question_for_section(&self.questions, self.sections[b].id);
                        if !has_qs {
                            let srow = SectionRow {
                                section_id: self.sections[b].id,
                                section_title: self.sections[b].title.clone(),
                                section_exam_description_id: self.sections[b].exam_description_id,
                                question_id: Option::None,
                                question_text: Option::None,
                                question_description: Option::None,
                                question_marks: Option::None,
                                option_id: Option::None,
                                option_text: Option::None,
                                option_is_correct: Option::None,
                            };
                            rows.push(srow);
                            proof {
                                assert(rows_v(rows@).last() =~~= row_no_q(secv));
                                assert(rows_v(rows@) =~~= pre_b + rows_of_sec(sv, secv));
                            }
                        } else {
                            let nq: usize = self.questions.len();
                            let mut c: usize = 0;
                            proof {
                                assert(rows_v(rows@) =~= pre_b + rows_of_sec_qs(
                                    sv,
                                    sv.questions.subrange(0, 0),
                                    secv,
                                ));
                            }
                            while c < nq
                                invariant
                                    sv == self@,
                                    nq == self.questions@.len(),
                                    0 <= c <= nq,
                                    0 <= b < ns,
                                    ns == self.sections@.len(),
                                    secv == sv.sections[b as int],
                                    forall|x: int|
                                        0 <= x < rows@.len() ==> (#[trigger] rows@[x])@.wf(),
                                    rows_v(rows@) == pre_b + rows_of_sec_qs(
                                        sv,
                                        sv.questions.subrange(0, c as int),
                                        secv,
                                    ),
                                decreases nq - c,
                            {
                                let ghost pre_c = rows_v(rows@);
                                if self.questions[c].section_id == self.sections[b].id {
                                    let ghost qv = sv.questions[c as int];
                                    let has_os = any_option_for_question(
                                        &self.options,
                                        self.questions[c].id,
                                    );
                                    if !has_os {
                                        let qrow = SectionRow {
                                            section_id: self.sections[b].id,
                                            section_title: self.sections[b].title.clone(),
                                            section_exam_description_id:
                                                self.sections[b].exam_description_id,
                                            question_id: Option::Some(self.questions[c].id),
                                            question_text: Option::Some(
                                                self.questions[c].text.clone(),
                                            ),
                                            question_description: crate::schema::clone_opt_string(
                                                &self.questions[c].description,
                                            ),
                                            question_marks: Option::Some(self.questions[c].marks),
                                            option_id: Option::None,
                                            option_text: Option::None,
                                            option_is_correct: Option::None,
                                        };
                                        rows.push(qrow);
                                        proof {
                                            assert(rows_v(rows@).last() =~~= row_no_opt(secv, qv));
                                            assert(rows_v(rows@) =~~= pre_c + rows_of_q(
                                                sv,
                                                secv,
                                                qv,
                                            ));
                                        }
                                    } else {
                                        let no: usize = self.options.len();
                                        let mut e: usize = 0;
                                        proof {
                                            assert(rows_v(rows@) =~= pre_c + rows_of_q_os(
                                                sv.options.subrange(0, 0),
                                                secv,
                                                qv,
                                            ));
                                        }
                                        while e < no
                                            invariant
                                                sv == self@,
                                                no == self.options@.len(),
                                                0 <= e <= no,
                                                0 <= b < ns,
                                                0 <= c < nq,
                                                ns == self.sections@.len(),
                                                nq == self.questions@.len(),
                                                secv == sv.sections[b as int],
                                                qv == sv.questions[c as int],
                                                forall|x: int|
                                                    0 <= x < rows@.len() ==> (
                                                    #[trigger] rows@[x])@.wf(),
                                                rows_v(rows@) == pre_c + rows_of_q_os(
                                                    sv.options.subrange(0, e as int),
                                                    secv,
                                                    qv,
                                                ),
                                            decreases no - e,
                                        {
                                            if self.options[e].question_id == self.questions[c].id {
                                                let orow = SectionRow {
                                                    section_id: self.sections[b].id,
                                                    section_title: self.sections[b].title.clone(),
                                                    section_exam_description_id:
                                                        self.sections[b].exam_description_id,
                                                    question_id: Option::Some(
                                                        self.questions[c].id,
                                                    ),
                                                    question_text: Option::Some(
                                                        self.questions[c].text.clone(),
                                                    ),
                                                    question_description:
                                                        crate::schema::clone_opt_string(
                                                        &self.questions[c].description,
                                                    ),
                                                    question_marks: Option::Some(
                                                        self.questions[c].marks,
                                                    ),
                                                    option_id: Option::Some(self.options[e].id),
                                                    option_text: Option::Some(
                                                        self.options[e].text.clone(),
                                                    ),
                                                    option_is_correct: self.options[e].is_correct,
                                                };
                                                rows.push(orow);
                                                proof {
                                                    assert(rows_v(rows@).last() =~~= row_full(
                                                        secv,
                                                        qv,
                                                        sv.options[e as int],
                                                    ));
                                                }
                                            }
                                            proof {
                                                let cur = sv.options.subrange(0, e + 1);
                                                assert(cur.drop_last() =~= sv.options.subrange(
                                                    0,
                                                    e as int,
                                                ));
                                                assert(cur.last() == sv.options[e as int]);
                                                assert(rows_v(rows@) =~~= pre_c + rows_of_q_os(
                                                    cur,
                                                    secv,
                                                    qv,
                                                ));
                                            }
                                            e = e + 1;
                                        }
                                        proof {
                                            assert(sv.options.subrange(0, no as int) =~= sv.options);
                                            assert(rows_v(rows@) =~~= pre_c + rows_of_q(
                                                sv,
                                                secv,
                                                qv,
                                            ));
                                        }
                                    }
                                }
                                proof {
                                    let cur = sv.questions.subrange(0, c + 1);
                                    assert(cur.drop_last() =~= sv.questions.subrange(0, c as int));
                                    assert(cur.last() == sv.questions[c as int]);
                                    assert(rows_v(rows@) =~~= pre_b + rows_of_sec_qs(
                                        sv,
                                        cur,
                                        secv,
                                    ));
                                }
                                c = c + 1;
                            }
                            proof {
                                assert(sv.questions.subrange(0, nq as int) =~= sv.questions);
                                assert(rows_v(rows@) =~~= pre_b + rows_of_sec(sv, secv));
                            }
                        }
                    }
                    proof {
                        let cur = sv.sections.subrange(0, b + 1);
                        assert(cur.drop_last() =~= sv.sections.subrange(0, b as int));
                        assert(cur.last() == sv.sections[b as int]);
                        assert(rows_v(rows@) =~~= pre_a + rows_of_desc_secs(sv, cur, did as int));
                    }
                    b = b + 1;
                }
                proof {
                    assert(sv.sections.subrange(0, ns as int) =~= sv.sections);
                }
            }
            proof {
                let cur = sv.descriptions.subrange(0, a + 1);
                assert(cur.drop_last() =~= sv.descriptions.subrange(0, a as int));
                assert(cur.last() == sv.descriptions[a as int]);
                assert(rows_v(rows@) =~~= flat_rows_descs(sv, cur, eidv));
            }
            a = a + 1;
        }
        proof {
            assert(sv.descriptions.subrange(0, nd as int) =~= sv.descriptions);
        }
        let sections = map_to_section_response(rows);
        let resp = ExamResponse {
            exam_id: ExamIdResponse { id: exam_id },
            description,
            sections,
        };
        proof {
            assert(resp@ =~~= ExamRespV {
                exam_id: eidv,
                description: exam_desc_of_row(first_desc(sv.descriptions, eidv)),
                sections: regroup(flat_rows(sv, eidv)),
            });
        }
        Result::Ok(resp)
    }
}

} // verus!
