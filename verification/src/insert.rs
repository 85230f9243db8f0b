//! Bulk hierarchical insert: a full exam tree is flattened level by level
//! (exam, description, sections, questions, options) and persisted
//! atomically, with insert-or-ignore semantics on the id of every section,
//! question and option, and a foreign-key check at every level. On any
//! failure the store is left untouched.

use vstd::prelude::*;

use crate::errors::AppError;
use crate::exam::{ExamRequest, OptionRequestModel, QuestionRequest, SectionRequest};
use crate::parse::opt_or_empty;
use crate::schema::{
    opt_str_v, ExamDescriptionModel, ORowV, OptionsModel, QRowV, QuestionsModel, SecRowV,
    SectionsModel,
};
use crate::store::{
    contains_i32, desc_table_v, fold_upd, lemma_exams_contains, o_table_v, q_table_v,
    sec_table_v, ExamStore, StoreV,
};

verus! {

broadcast use crate::store::group_table_views;


/// Some row of the sequence has this id.
pub open spec fn sec_seq_has_id(t: Seq<SecRowV>, id: int) -> bool {
    exists|i: int| 0 <= i < t.len() && t[i].id == id
}

/// Some row of the sequence has this id.
pub open spec fn q_seq_has_id(t: Seq<QRowV>, id: int) -> bool {
    exists|i: int| 0 <= i < t.len() && t[i].id == id
}

/// Some row of the sequence has this id.
pub open spec fn o_seq_has_id(t: Seq<ORowV>, id: int) -> bool {
    exists|i: int| 0 <= i < t.len() && t[i].id == id
}

/// Some row of the sequence has this id.
pub open spec fn desc_seq_has_id(t: Seq<crate::schema::DescRowV>, id: int) -> bool {
    exists|i: int| 0 <= i < t.len() && t[i].id == id
}

/// Insert-or-ignore of one section row.
pub open spec fn sec_ins_step(t: Seq<SecRowV>, r: SecRowV) -> Seq<SecRowV> {
    if sec_seq_has_id(t, r.id) {
        t
    } else {
        t.push(r)
    }
}

/// Insert-or-ignore of one question row.
pub open spec fn q_ins_step(t: Seq<QRowV>, r: QRowV) -> Seq<QRowV> {
    if q_seq_has_id(t, r.id) {
        t
    } else {
        t.push(r)
    }
}

/// Insert-or-ignore of one option row.
pub open spec fn o_ins_step(t: Seq<ORowV>, r: ORowV) -> Seq<ORowV> {
    if o_seq_has_id(t, r.id) {
        t
    } else {
        t.push(r)
    }
}

/// The step function of the section bulk insert.
pub open spec fn sec_step() -> spec_fn(Seq<SecRowV>, SecRowV) -> Seq<SecRowV> {
    |t: Seq<SecRowV>, r: SecRowV| sec_ins_step(t, r)
}

/// The step function of the question bulk insert.
pub open spec fn q_step() -> spec_fn(Seq<QRowV>, QRowV) -> Seq<QRowV> {
    |t: Seq<QRowV>, r: QRowV| q_ins_step(t, r)
}

/// The step function of the option bulk insert.
pub open spec fn o_step() -> spec_fn(Seq<ORowV>, ORowV) -> Seq<ORowV> {
    |t: Seq<ORowV>, r: ORowV| o_ins_step(t, r)
}

/// Insert-or-ignore of a sequence of section rows.
pub open spec fn insert_secs(t: Seq<SecRowV>, rows: Seq<SecRowV>) -> Seq<SecRowV> {
    fold_upd(t, rows, sec_step())
}

/// Insert-or-ignore of a sequence of question rows.
pub open spec fn insert_qs(t: Seq<QRowV>, rows: Seq<QRowV>) -> Seq<QRowV> {
    fold_upd(t, rows, q_step())
}

/// Insert-or-ignore of a sequence of option rows.
pub open spec fn insert_os(t: Seq<ORowV>, rows: Seq<ORowV>) -> Seq<ORowV> {
    fold_upd(t, rows, o_step())
}

/// The section row persisted for a submitted section: its parent id is
/// forced to the id of the submitted description.
pub open spec fn sec_row_of_req(req: ExamRequest, s: SectionRequest) -> SecRowV {
    SecRowV {
        id: s.base.id as int,
        exam_description_id: req.description.base.id as int,
        title: s.base.title@,
    }
}

/// The section rows persisted for a submitted exam tree, in order.
pub open spec fn sec_rows_of_req(req: ExamRequest) -> Seq<SecRowV> {
    req.sections@.map(|i: int, s: SectionRequest| sec_row_of_req(req, s))
}

/// The question row persisted for a submitted question: a missing
/// description defaults to the empty string.
pub open spec fn q_row_of(q: QuestionRequest) -> QRowV {
    QRowV {
        id: q.base.id as int,
        section_id: q.base.section_id as int,
        text: q.base.text@,
        description: Option::Some(opt_or_empty(opt_str_v(q.base.description))),
        marks: q.base.marks as int,
    }
}

/// The question rows of one submitted section, in order.
pub open spec fn q_rows_of_sec(s: SectionRequest) -> Seq<QRowV> {
    s.questions@.map(|i: int, q: QuestionRequest| q_row_of(q))
}

/// The question rows of a submitted exam tree, flattened across sections.
pub open spec fn flat_q_rows(secs: Seq<SectionRequest>) -> Seq<QRowV>
    decreases secs.len(),
{
    if secs.len() == 0 {
        Seq::empty()
    } else {
        flat_q_rows(secs.drop_last()) + q_rows_of_sec(secs.last())
    }
}

/// The option row persisted for a submitted option: a missing correctness
/// flag defaults to false.
pub open spec fn o_row_of(o: OptionRequestModel) -> ORowV {
    ORowV {
        id: o.base.id as int,
        question_id: o.base.question_id as int,
        text: o.base.text@,
        is_correct: Option::Some(
            match o.base.is_correct {
                Option::Some(b) => b,
                Option::None => false,
            },
        ),
    }
}

/// The option rows of one submitted question, in order.
pub open spec fn o_rows_of_q(q: QuestionRequest) -> Seq<ORowV> {
    q.options@.map(|i: int, o: OptionRequestModel| o_row_of(o))
}

/// The option rows of a sequence of submitted questions, flattened.
pub open spec fn flat_o_rows_qs(qs: Seq<QuestionRequest>) -> Seq<ORowV>
    decreases qs.len(),
{
    if qs.len() == 0 {
        Seq::empty()
    } else {
        flat_o_rows_qs(qs.drop_last()) + o_rows_of_q(qs.last())
    }
}

/// The option rows of a submitted exam tree, flattened across sections
/// and questions.
pub open spec fn flat_o_rows(secs: Seq<SectionRequest>) -> Seq<ORowV>
    decreases secs.len(),
{
    if secs.len() == 0 {
        Seq::empty()
    } else {
        flat_o_rows(secs.drop_last()) + flat_o_rows_qs(secs.last().questions@)
    }
}

/// The tables after a successful insert of the tree: the exam id and the
/// description row are appended, and the three lower levels are bulk
/// inserted with insert-or-ignore semantics.
pub open spec fn spec_insert_tables(s: StoreV, req: ExamRequest) -> StoreV {
    StoreV {
        exams: s.exams.push(req.exam_id.base.id as int),
        descriptions: s.descriptions.push(req.description.base@),
        sections: insert_secs(s.sections, sec_rows_of_req(req)),
        questions: insert_qs(s.questions, flat_q_rows(req.sections@)),
        options: insert_os(s.options, flat_o_rows(req.sections@)),
    }
}

/// When the insert succeeds: the exam id and description id are fresh, the
/// description's exam reference exists once the exam row is in, every
/// question references an existing section (the old table plus the newly
/// inserted ones), and every option references an existing question.
pub open spec fn insert_ok(s: StoreV, req: ExamRequest) -> bool {
    let eid = req.exam_id.base.id as int;
    let newex = s.exams.push(eid);
    let newsecs = insert_secs(s.sections, sec_rows_of_req(req));
    let newqs = insert_qs(s.questions, flat_q_rows(req.sections@));
    &&& !s.exams.contains(eid)
    &&& !desc_seq_has_id(s.descriptions, req.description.base.id as int)
    &&& newex.contains(req.description.base.exam_id as int)
    &&& (forall|k: int|
        0 <= k < flat_q_rows(req.sections@).len() ==> sec_seq_has_id(
            newsecs,
            (#[trigger] flat_q_rows(req.sections@)[k]).section_id,
        ))
    &&& (forall|k: int|
        0 <= k < flat_o_rows(req.sections@).len() ==> q_seq_has_id(
            newqs,
            (#[trigger] flat_o_rows(req.sections@)[k]).question_id,
        ))
}

/// The section rows persisted for a submitted tree, as executable rows:
/// ids and titles from the submitted sections, the parent id forced to the
/// submitted description's id.
pub fn flatten_section_rows(req: &ExamRequest) -> (out: Vec<SectionsModel>)
    ensures
        sec_table_v(out@) == sec_rows_of_req(*req),
{
    let mut out: Vec<SectionsModel> = Vec::new();
    let n: usize = req.sections.len();
    let mut i: usize = 0;
    while i < n
        invariant
            n == req.sections@.len(),
            0 <= i <= n,
            sec_table_v(out@) =~~= sec_rows_of_req(*req).subrange(0, i as int),
        decreases n - i,
    {
        let s = &req.sections[i];
        out.push(
            SectionsModel {
                id: s.base.id,
                exam_description_id: req.description.base.id,
                title: s.base.title.clone(),
            },
        );
        proof {
            assert(sec_table_v(out@) =~~= sec_rows_of_req(*req).subrange(0, i + 1));
        }
        i = i + 1;
    }
    proof {
        assert(sec_rows_of_req(*req).subrange(0, n as int) =~~= sec_rows_of_req(*req));
    }
    out
}

/// The question rows persisted for the submitted sections, flattened in
/// order, with the missing-description default applied.
pub fn flatten_question_rows(sections: &Vec<SectionRequest>) -> (out: Vec<QuestionsModel>)
    ensures
        q_table_v(out@) == flat_q_rows(sections@),
{
    let mut out: Vec<QuestionsModel> = Vec::new();
    let n: usize = sections.len();
    let mut i: usize = 0;
    proof {
        assert(q_table_v(out@) =~~= flat_q_rows(sections@.subrange(0, 0)));
    }
    while i < n
        invariant
            n == sections@.len(),
            0 <= i <= n,
            q_table_v(out@) == flat_q_rows(sections@.subrange(0, i as int)),
        decreases n - i,
    {
        let sec = &sections[i];
        let m: usize = sec.questions.len();
        let mut j: usize = 0;
        proof {
            assert(q_rows_of_sec(sections@[i as int]).subrange(0, 0) =~~= Seq::<QRowV>::empty());
            assert(q_table_v(out@) =~~= flat_q_rows(sections@.subrange(0, i as int)) + q_rows_of_sec(
                sections@[i as int],
            ).subrange(0, 0));
        }
        while j < m
            invariant
                n == sections@.len(),
                0 <= i < n,
                m == sections@[i as int].questions@.len(),
                0 <= j <= m,
                sec == &sections@[i as int],
                q_table_v(out@) == flat_q_rows(sections@.subrange(0, i as int)) + q_rows_of_sec(
                    sections@[i as int],
                ).subrange(0, j as int),
            decreases m - j,
        {
            let q = &sec.questions[j];
            out.push(
                QuestionsModel {
                    id: q.base.id,
                    section_id: q.base.section_id,
                    text: q.base.text.clone(),
                    description: Option::Some(
                        match &q.base.description {
                            Option::Some(d) => d.clone(),
                            Option::None => String::new(),
                        },
                    ),
                    marks: q.base.marks,
                },
            );
            proof {
                assert(q_table_v(out@) =~~= flat_q_rows(sections@.subrange(0, i as int))
                    + q_rows_of_sec(sections@[i as int]).subrange(0, j + 1));
            }
            j = j + 1;
        }
        proof {
            let pre = sections@.subrange(0, i as int);
            let cur = sections@.subrange(0, i + 1);
            assert(cur.drop_last() =~~= pre);
            assert(cur.last() == sections@[i as int]);
            assert(q_rows_of_sec(sections@[i as int]).subrange(0, m as int) =~~= q_rows_of_sec(
                sections@[i as int],
            ));
            assert(flat_q_rows(cur) == flat_q_rows(pre) + q_rows_of_sec(sections@[i as int]));
        }
        i = i + 1;
    }
    proof {
        assert(sections@.subrange(0, n as int) =~~= sections@);
    }
    out
}

/// The option rows persisted for the submitted sections, flattened in
/// order, with the missing-correctness default applied.
pub fn flatten_option_rows(sections: &Vec<SectionRequest>) -> (out: Vec<OptionsModel>)
    ensures
        o_table_v(out@) == flat_o_rows(sections@),
{
    let mut out: Vec<OptionsModel> = Vec::new();
    let n: usize = sections.len();
    let mut i: usize = 0;
    proof {
        assert(o_table_v(out@) =~~= flat_o_rows(sections@.subrange(0, 0)));
    }
    while i < n
        invariant
            n == sections@.len(),
            0 <= i <= n,
            o_table_v(out@) == flat_o_rows(sections@.subrange(0, i as int)),
        decreases n - i,
    {
        let sec = &sections[i];
        let m: usize = sec.questions.len();
        let mut j: usize = 0;
        proof {
            assert(flat_o_rows_qs(sections@[i as int].questions@.subrange(0, 0)) =~~= Seq::<
                ORowV,
            >::empty());
            assert(o_table_v(out@) =~~= flat_o_rows(sections@.subrange(0, i as int))
                + flat_o_rows_qs(sections@[i as int].questions@.subrange(0, 0)));
        }
        while j < m
            invariant
                n == sections@.len(),
                0 <= i < n,
                m == sections@[i as int].questions@.len(),
                0 <= j <= m,
                sec == &sections@[i as int],
                o_table_v(out@) == flat_o_rows(sections@.subrange(0, i as int)) + flat_o_rows_qs(
                    sections@[i as int].questions@.subrange(0, j as int),
                ),
            decreases m - j,
        {
            let q = &sec.questions[j];
            let p: usize = q.options.len();
            let mut k: usize = 0;
            proof {
                let qpre = sections@[i as int].questions@.subrange(0, j as int);
                let qcur = sections@[i as int].questions@.subrange(0, j + 1);
                assert(qcur.drop_last() =~~= qpre);
                assert(qcur.last() == sections@[i as int].questions@[j as int]);
                assert(o_rows_of_q(sections@[i as int].questions@[j as int]).subrange(0, 0) =~~= Seq::<
                    ORowV,
                >::empty());
            }
            while k < p
                invariant
                    n == sections@.len(),
                    0 <= i < n,
                    m == sections@[i as int].questions@.len(),
                    0 <= j < m,
                    p == sections@[i as int].questions@[j as int].options@.len(),
                    0 <= k <= p,
                    sec == &sections@[i as int],
                    q == &sections@[i as int].questions@[j as int],
                    o_table_v(out@) == flat_o_rows(sections@.subrange(0, i as int))
                        + flat_o_rows_qs(sections@[i as int].questions@.subrange(0, j as int))
                        + o_rows_of_q(sections@[i as int].questions@[j as int]).subrange(
                        0,
                        k as int,
                    ),
                decreases p - k,
            {
                let o = &q.options[k];
                out.push(
                    OptionsModel {
                        id: o.base.id,
                        question_id: o.base.question_id,
                        text: o.base.text.clone(),
                        is_correct: Option::Some(
                            match o.base.is_correct {
                                Option::Some(b) => b,
                                Option::None => false,
                            },
                        ),
                    },
                );
                proof {
                    assert(o_table_v(out@) =~~= flat_o_rows(sections@.subrange(0, i as int))
                        + flat_o_rows_qs(sections@[i as int].questions@.subrange(0, j as int))
                        + o_rows_of_q(sections@[i as int].questions@[j as int]).subrange(
                        0,
                        k + 1,
                    ));
                }
                k = k + 1;
            }
            proof {
                let qpre = sections@[i as int].questions@.subrange(0, j as int);
                let qcur = sections@[i as int].questions@.subrange(0, j + 1);
                assert(qcur.drop_last() =~~= qpre);
                assert(o_rows_of_q(sections@[i as int].questions@[j as int]).subrange(0, p as int)
                    =~~= o_rows_of_q(sections@[i as int].questions@[j as int]));
                assert(flat_o_rows_qs(qcur) == flat_o_rows_qs(qpre) + o_rows_of_q(
                    sections@[i as int].questions@[j as int],
                ));
                assert(o_table_v(out@) == flat_o_rows(sections@.subrange(0, i as int))
                    + flat_o_rows_qs(sections@[i as int].questions@.subrange(0, j + 1)));
            }
            j = j + 1;
        }
        proof {
            let pre = sections@.subrange(0, i as int);
            let cur = sections@.subrange(0, i + 1);
            assert(cur.drop_last() =~~= pre);
            assert(cur.last() == sections@[i as int]);
            assert(sections@[i as int].questions@.subrange(0, m as int) =~~= sections@[i as int].questions@);
            assert(flat_o_rows(cur) == flat_o_rows(pre) + flat_o_rows_qs(
                sections@[i as int].questions@,
            ));
        }
        i = i + 1;
    }
    proof {
        assert(sections@.subrange(0, n as int) =~~= sections@);
    }
    out
}

/// Whether some description row of the table has this id.
fn desc_vec_contains_id(v: &Vec<ExamDescriptionModel>, id: i32) -> (r: bool)
    ensures
        r == desc_seq_has_id(desc_table_v(v@), id as int),
{
    let n: usize = v.len();
    let mut i: usize = 0;
    while i < n
        invariant
            n == v@.len(),
            0 <= i <= n,
            forall|j: int| 0 <= j < i ==> desc_table_v(v@)[j].id != id as int,
        decreases n - i,
    {
        if v[i].id == id {
            proof {
                assert(desc_table_v(v@)[i as int].id == id as int);
            }
            return true;
        }
        i = i + 1;
    }
    false
}

/// Whether some section row of the table has this id.
pub fn sec_vec_contains_id(v: &Vec<SectionsModel>, id: i32) -> (r: bool)
    ensures
        r == sec_seq_has_id(sec_table_v(v@), id as int),
{
    let n: usize = v.len();
    let mut i: usize = 0;
    while i < n
        invariant
            n == v@.len(),
            0 <= i <= n,
            forall|j: int| 0 <= j < i ==> sec_table_v(v@)[j].id != id as int,
        decreases n - i,
    {
        if v[i].id == id {
            proof {
                assert(sec_table_v(v@)[i as int].id == id as int);
            }
            return true;
        }
        i = i + 1;
    }
    false
}

/// Whether some question row of the table has this id.
pub fn q_vec_contains_id(v: &Vec<QuestionsModel>, id: i32) -> (r: bool)
    ensures
        r == q_seq_has_id(q_table_v(v@), id as int),
{
    let n: usize = v.len();
    let mut i: usize = 0;
    while i < n
        invariant
            n == v@.len(),
            0 <= i <= n,
            forall|j: int| 0 <= j < i ==> q_table_v(v@)[j].id != id as int,
        decreases n - i,
    {
        if v[i].id == id {
            proof {
                assert(q_table_v(v@)[i as int].id == id as int);
            }
            return true;
        }
        i = i + 1;
    }
    false
}

/// Whether some option row of the table has this id.
fn o_vec_contains_id(v: &Vec<OptionsModel>, id: i32) -> (r: bool)
    ensures
        r == o_seq_has_id(o_table_v(v@), id as int),
{
    let n: usize = v.len();
    let mut i: usize = 0;
    while i < n
        invariant
            n == v@.len(),
            0 <= i <= n,
            forall|j: int| 0 <= j < i ==> o_table_v(v@)[j].id != id as int,
        decreases n - i,
    {
        if v[i].id == id {
            proof {
                assert(o_table_v(v@)[i as int].id == id as int);
            }
            return true;
        }
        i = i + 1;
    }
    false
}

/// A copy of the sections table.
fn copy_sections(v: &Vec<SectionsModel>) -> (out: Vec<SectionsModel>)
    ensures
        sec_table_v(out@) == sec_table_v(v@),
{
    let mut out: Vec<SectionsModel> = Vec::new();
    let n: usize = v.len();
    let mut i: usize = 0;
    while i < n
        invariant
            n == v@.len(),
            0 <= i <= n,
            sec_table_v(out@) =~~= sec_table_v(v@).subrange(0, i as int),
        decreases n - i,
    {
        out.push(v[i].clone_row());
        proof {
            assert(sec_table_v(out@) =~~= sec_table_v(v@).subrange(0, i + 1));
        }
        i = i + 1;
    }
    proof {
        assert(sec_table_v(v@).subrange(0, n as int) =~~= sec_table_v(v@));
    }
    out
}

/// A copy of the questions table.
fn copy_questions(v: &Vec<QuestionsModel>) -> (out: Vec<QuestionsModel>)
    ensures
        q_table_v(out@) == q_table_v(v@),
{
    let mut out: Vec<QuestionsModel> = Vec::new();
    let n: usize = v.len();
    let mut i: usize = 0;
    while i < n
        invariant
            n == v@.len(),
            0 <= i <= n,
            q_table_v(out@) =~~= q_table_v(v@).subrange(0, i as int),
        decreases n - i,
    {
        out.push(v[i].clone_row());
        proof {
            assert(q_table_v(out@) =~~= q_table_v(v@).subrange(0, i + 1));
        }
        i = i + 1;
    }
    proof {
        assert(q_table_v(v@).subrange(0, n as int) =~~= q_table_v(v@));
    }
    out
}

/// A copy of the options table.
fn copy_options(v: &Vec<OptionsModel>) -> (out: Vec<OptionsModel>)
    ensures
        o_table_v(out@) == o_table_v(v@),
{
    let mut out: Vec<OptionsModel> = Vec::new();
    let n: usize = v.len();
    let mut i: usize = 0;
    while i < n
        invariant
            n == v@.len(),
            0 <= i <= n,
            o_table_v(out@) =~~= o_table_v(v@).subrange(0, i as int),
        decreases n - i,
    {
        out.push(v[i].clone_row());
        proof {
            assert(o_table_v(out@) =~~= o_table_v(v@).subrange(0, i + 1));
        }
        i = i + 1;
    }
    proof {
        assert(o_table_v(v@).subrange(0, n as int) =~~= o_table_v(v@));
    }
    out
}

impl ExamStore {
    /// Inserts a full exam tree atomically. The exam row goes in first,
    /// the description second, and sections, questions and options follow
    /// as bulk inserts with insert-or-ignore semantics on their ids; each
    /// level's foreign key must reference the level above. On any failure
    /// nothing is changed and a storage error is returned; success returns
    /// the root exam id.
    pub fn insert_exam(&mut self, req: &ExamRequest) -> (r: Result<i32, AppError>)
        ensures
            match r {
                Result::Ok(id) => insert_ok(old(self)@, *req) && id == req.exam_id.base.id
                    && final(self)@ == spec_insert_tables(old(self)@, *req),
                Result::Err(e) => !insert_ok(old(self)@, *req) && final(self)@ == old(self)@ && e
                    is StorageError,
            },
    {
        let eid = req.exam_id.base.id;
        let ghost oldv = self@;
        let exam_exists = contains_i32(&self.exams, eid);
        proof {
            lemma_exams_contains(self.exams@, eid);
        }
        if exam_exists {
            return Result::Err(AppError::StorageError(String::from_str("Failed to insert exam")));
        }
        if desc_vec_contains_id(&self.descriptions, req.description.base.id) {
            return Result::Err(
                AppError::StorageError(String::from_str("Failed to insert exam details")),
            );
        }
        let desc_fk_ok = req.description.base.exam_id == eid || contains_i32(
            &self.exams,
            req.description.base.exam_id,
        );
        proof {
            lemma_exams_contains(self.exams@, req.description.base.exam_id);
            let x = req.description.base.exam_id as int;
            let newex = oldv.exams.push(eid as int);
            if desc_fk_ok {
                if req.description.base.exam_id == eid {
                    assert(newex[newex.len() - 1] == x);
                    assert(newex.contains(x));
                } else {
                    let j = choose|j: int| 0 <= j < oldv.exams.len() && oldv.exams[j] == x;
                    assert(newex[j] == x);
                    assert(newex.contains(x));
                }
            } else {
                if newex.contains(x) {
                    let j = choose|j: int| 0 <= j < newex.len() && newex[j] == x;
                    if j < oldv.exams.len() {
                        assert(oldv.exams[j] == x);
                        assert(oldv.exams.contains(x));
                        assert(false);
                    } else {
                        assert(false);
                    }
                }
            }
        }
        if !desc_fk_ok {
            return Result::Err(
                AppError::StorageError(String::from_str("Failed to insert exam details")),
            );
        }
        // bulk insert of sections (cannot fail: the parent id is forced)
        let sec_rows = flatten_section_rows(req);
        let mut new_sections = copy_sections(&self.sections);
        let ns: usize = sec_rows.len();
        let mut i: usize = 0;
        proof {
            assert(sec_rows_of_req(*req).subrange(0, 0) =~~= Seq::<SecRowV>::empty());
        }
        while i < ns
            invariant
                oldv == old(self)@,
                self@ == old(self)@,
                ns == sec_rows@.len(),
                0 <= i <= ns,
                sec_table_v(sec_rows@) == sec_rows_of_req(*req),
                sec_table_v(new_sections@) == insert_secs(
                    oldv.sections,
                    sec_rows_of_req(*req).subrange(0, i as int),
                ),
            decreases ns - i,
        {
            let ghost pre = sec_table_v(new_sections@);
            if !sec_vec_contains_id(&new_sections, sec_rows[i].id) {
                new_sections.push(sec_rows[i].clone_row());
                proof {
                    assert(sec_table_v(new_sections@) =~~= pre.push(sec_rows_of_req(*req)[i as int]));
                }
            }
            proof {
                let rows = sec_rows_of_req(*req);
                let cur = rows.subrange(0, i + 1);
                assert(cur.drop_last() =~~= rows.subrange(0, i as int));
                assert(cur.last() == rows[i as int]);
                assert(sec_table_v(sec_rows@)[i as int] == rows[i as int]);
                assert(insert_secs(oldv.sections, cur) == sec_ins_step(pre, rows[i as int]));
            }
            i = i + 1;
        }
        proof {
            assert(sec_rows_of_req(*req).subrange(0, ns as int) =~~= sec_rows_of_req(*req));
        }
        // bulk insert of questions, each checked against the section table
        let q_rows = flatten_question_rows(&req.sections);
        let mut new_questions = copy_questions(&self.questions);
        let nq: usize = q_rows.len();
        let mut j: usize = 0;
        proof {
            assert(flat_q_rows(req.sections@).subrange(0, 0) =~~= Seq::<QRowV>::empty());
        }
        while j < nq
            invariant
                oldv == old(self)@,
                self@ == old(self)@,
                nq == q_rows@.len(),
                0 <= j <= nq,
                q_table_v(q_rows@) == flat_q_rows(req.sections@),
                sec_table_v(new_sections@) == insert_secs(oldv.sections, sec_rows_of_req(*req)),
                q_table_v(new_questions@) == insert_qs(
                    oldv.questions,
                    flat_q_rows(req.sections@).subrange(0, j as int),
                ),
                forall|k: int|
                    0 <= k < j ==> sec_seq_has_id(
                        sec_table_v(new_sections@),
                        (#[trigger] flat_q_rows(req.sections@)[k]).section_id,
                    ),
            decreases nq - j,
        {
            if !sec_vec_contains_id(&new_sections, q_rows[j].section_id) {
                proof {
                    let rows = flat_q_rows(req.sections@);
                    assert(q_table_v(q_rows@)[j as int] == rows[j as int]);
                    assert(!sec_seq_has_id(
                        insert_secs(oldv.sections, sec_rows_of_req(*req)),
                        rows[j as int].section_id,
                    ));
                    assert(!insert_ok(oldv, *req));
                }
                return Result::Err(
                    AppError::StorageError(String::from_str("Failed to insert questions")),
                );
            }
            let ghost pre = q_table_v(new_questions@);
            if !q_vec_contains_id(&new_questions, q_rows[j].id) {
                new_questions.push(q_rows[j].clone_row());
                proof {
                    assert(q_table_v(new_questions@) =~~= pre.push(
                        flat_q_rows(req.sections@)[j as int],
                    ));
                }
            }
            proof {
                let rows = flat_q_rows(req.sections@);
                let cur = rows.subrange(0, j + 1);
                assert(cur.drop_last() =~~= rows.subrange(0, j as int));
                assert(cur.last() == rows[j as int]);
                assert(q_table_v(q_rows@)[j as int] == rows[j as int]);
                assert(insert_qs(oldv.questions, cur) == q_ins_step(pre, rows[j as int]));
            }
            j = j + 1;
        }
        proof {
            assert(flat_q_rows(req.sections@).subrange(0, nq as int) =~~= flat_q_rows(req.sections@));
        }
        // bulk insert of options, each checked against the question table
        let o_rows = flatten_option_rows(&req.sections);
        let mut new_options = copy_options(&self.options);
        let no: usize = o_rows.len();
        let mut k: usize = 0;
        proof {
            assert(flat_o_rows(req.sections@).subrange(0, 0) =~~= Seq::<ORowV>::empty());
        }
        while k < no
            invariant
                oldv == old(self)@,
                self@ == old(self)@,
                no == o_rows@.len(),
                0 <= k <= no,
                o_table_v(o_rows@) == flat_o_rows(req.sections@),
                q_table_v(new_questions@) == insert_qs(oldv.questions, flat_q_rows(req.sections@)),
                o_table_v(new_options@) == insert_os(
                    oldv.options,
                    flat_o_rows(req.sections@).subrange(0, k as int),
                ),
                forall|x: int|
                    0 <= x < k ==> q_seq_has_id(
                        q_table_v(new_questions@),
                        (#[trigger] flat_o_rows(req.sections@)[x]).question_id,
                    ),
            decreases no - k,
        {
            if !q_vec_contains_id(&new_questions, o_rows[k].question_id) {
                proof {
                    let rows = flat_o_rows(req.sections@);
                    assert(o_table_v(o_rows@)[k as int] == rows[k as int]);
                    assert(!q_seq_has_id(
                        insert_qs(oldv.questions, flat_q_rows(req.sections@)),
                        rows[k as int].question_id,
                    ));
                    assert(!insert_ok(oldv, *req));
                }
                return Result::Err(
                    AppError::StorageError(String::from_str("Failed to insert options")),
                );
            }
            let ghost pre = o_table_v(new_options@);
            if !o_vec_contains_id(&new_options, o_rows[k].id) {
                new_options.push(o_rows[k].clone_row());
                proof {
                    assert(o_table_v(new_options@) =~~= pre.push(
                        flat_o_rows(req.sections@)[k as int],
                    ));
                }
            }
            proof {
                let rows = flat_o_rows(req.sections@);
                let cur = rows.subrange(0, k + 1);
                assert(cur.drop_last() =~~= rows.subrange(0, k as int));
                assert(cur.last() == rows[k as int]);
                assert(o_table_v(o_rows@)[k as int] == rows[k as int]);
                assert(insert_os(oldv.options, cur) == o_ins_step(pre, rows[k as int]));
            }
            k = k + 1;
        }
        proof {
            assert(flat_o_rows(req.sections@).subrange(0, no as int) =~~= flat_o_rows(req.sections@));
        }
        // commit
        self.exams.push(eid);
        self.descriptions.push(req.description.base.clone_row());
        self.sections = new_sections;
        self.questions = new_questions;
        self.options = new_options;
        proof {
            assert(self@.exams =~~= oldv.exams.push(eid as int));
            assert(self@.descriptions =~~= oldv.descriptions.push(req.description.base@));
            assert(self@ =~~= spec_insert_tables(oldv, *req));
        }
        Result::Ok(eid)
    }
}

} // verus!
