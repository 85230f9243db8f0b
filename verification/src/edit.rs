//! Field-level edit: the submitted tree carries new titles for sections,
//! new text, description and marks for questions, and new text and
//! correctness for options; each edit updates every row with the matching
//! id and touches nothing else. Deletions, when requested, run after the
//! updates through the propagation-safe procedure. An edit with no
//! sections and an all-empty deletion payload performs no writes.

use vstd::prelude::*;

use crate::delete::spec_delete_propagated;
use crate::errors::AppError;
use crate::exam::{EditExamRequest, OptionRequestModel, QuestionRequest, SectionRequest};
use crate::schema::{ORowV, OptionsModel, QRowV, QuestionsModel, SecRowV, SectionsModel};
use crate::store::{fold_upd, o_table_v, q_table_v, sec_table_v, ExamStore, StoreV};

verus! {

broadcast use crate::store::group_table_views;

/// One section edit applied to the table: every row with the edited id
/// takes the new title.
pub open spec fn apply_sec_edit(t: Seq<SecRowV>, id: int, title: Seq<char>) -> Seq<SecRowV> {
    t.map(
        |i: int, r: SecRowV|
            if r.id == id {
                SecRowV { title, ..r }
            } else {
                r
            },
    )
}

/// One question edit applied to the table: every row with the edited id
/// takes the new text, description and marks.
pub open spec fn apply_q_edit(t: Seq<QRowV>, e: QRowV) -> Seq<QRowV> {
    t.map(
        |i: int, r: QRowV|
            if r.id == e.id {
                QRowV { text: e.text, description: e.description, marks: e.marks, ..r }
            } else {
                r
            },
    )
}

/// One option edit applied to the table: every row with the edited id
/// takes the new text and correctness flag.
pub open spec fn apply_o_edit(t: Seq<ORowV>, e: ORowV) -> Seq<ORowV> {
    t.map(
        |i: int, r: ORowV|
            if r.id == e.id {
                ORowV { text: e.text, is_correct: e.is_correct, ..r }
            } else {
                r
            },
    )
}

/// The step function of the batched section update.
pub open spec fn sec_upd_step() -> spec_fn(Seq<SecRowV>, SecRowV) -> Seq<SecRowV> {
    |t: Seq<SecRowV>, e: SecRowV| apply_sec_edit(t, e.id, e.title)
}

/// The step function of the batched question update.
pub open spec fn q_upd_step() -> spec_fn(Seq<QRowV>, QRowV) -> Seq<QRowV> {
    |t: Seq<QRowV>, e: QRowV| apply_q_edit(t, e)
}

/// The step function of the batched option update.
pub open spec fn o_upd_step() -> spec_fn(Seq<ORowV>, ORowV) -> Seq<ORowV> {
    |t: Seq<ORowV>, e: ORowV| apply_o_edit(t, e)
}

/// The section edits carried by the submitted tree, in order.
pub open spec fn sec_edit_rows(secs: Seq<SectionRequest>) -> Seq<SecRowV> {
    secs.map(|i: int, s: SectionRequest| s.base@)
}

/// The question edits of one submitted section, in order.
pub open spec fn q_edit_rows_of_sec(qs: Seq<QuestionRequest>) -> Seq<QRowV> {
    qs.map(|i: int, q: QuestionRequest| q.base@)
}

/// The question edits carried by the submitted tree, flattened.
pub open spec fn q_edit_rows(secs: Seq<SectionRequest>) -> Seq<QRowV>
    decreases secs.len(),
{
    if secs.len() == 0 {
        Seq::empty()
    } else {
        q_edit_rows(secs.drop_last()) + q_edit_rows_of_sec(secs.last().questions@)
    }
}

/// The option edits of one submitted question, in order.
pub open spec fn o_edit_rows_of_q(os: Seq<OptionRequestModel>) -> Seq<ORowV> {
    os.map(|i: int, o: OptionRequestModel| o.base@)
}

/// The option edits of a sequence of submitted questions, flattened.
pub open spec fn o_edit_rows_qs(qs: Seq<QuestionRequest>) -> Seq<ORowV>
    decreases qs.len(),
{
    if qs.len() == 0 {
        Seq::empty()
    } else {
        o_edit_rows_qs(qs.drop_last()) + o_edit_rows_of_q(qs.last().options@)
    }
}

/// The option edits carried by the submitted tree, flattened.
pub open spec fn o_edit_rows(secs: Seq<SectionRequest>) -> Seq<ORowV>
    decreases secs.len(),
{
    if secs.len() == 0 {
        Seq::empty()
    } else {
        o_edit_rows(secs.drop_last()) + o_edit_rows_qs(secs.last().questions@)
    }
}

/// The tables after the three batched updates, before any deletion.
pub open spec fn spec_apply_edits(s: StoreV, req: EditExamRequest) -> StoreV {
    StoreV {
        exams: s.exams,
        descriptions: s.descriptions,
        sections: fold_upd(s.sections, sec_edit_rows(req.sections@), sec_upd_step()),
        questions: fold_upd(s.questions, q_edit_rows(req.sections@), q_upd_step()),
        options: fold_upd(s.options, o_edit_rows(req.sections@), o_upd_step()),
    }
}

/// Whether the deletion payload of the edit asks for nothing.
pub open spec fn delete_all_empty(req: EditExamRequest) -> bool {
    req.delete.section_ids@.len() == 0 && req.delete.question_ids@.len() == 0
        && req.delete.option_ids@.len() == 0
}

/// The store after the whole edit: the batched updates, then, when the
/// deletion payload names anything, the propagation-safe delete over the
/// updated tables.
pub open spec fn spec_edit_exam(s: StoreV, req: EditExamRequest) -> StoreV {
    let s1 = spec_apply_edits(s, req);
    if delete_all_empty(req) {
        s1
    } else {
        spec_delete_propagated(
            s1,
            req.delete.section_ids@,
            req.delete.question_ids@,
            req.delete.option_ids@,
        )
    }
}

/// Applies one section edit to the table.
fn apply_one_sec_edit(table: &Vec<SectionsModel>, id: i32, title: &String) -> (out: Vec<
    SectionsModel,
>)
    ensures
        sec_table_v(out@) == apply_sec_edit(sec_table_v(table@), id as int, title@),
{
    let mut out: Vec<SectionsModel> = Vec::new();
    let n: usize = table.len();
    let mut i: usize = 0;
    while i < n
        invariant
            n == table@.len(),
            0 <= i <= n,
            out@.len() == i,
            forall|j: int|
                0 <= j < i ==> #[trigger] sec_table_v(out@)[j] == apply_sec_edit(
                    sec_table_v(table@),
                    id as int,
                    title@,
                )[j],
        decreases n - i,
    {
        if table[i].id == id {
            out.push(
                SectionsModel {
                    id: table[i].id,
                    exam_description_id: table[i].exam_description_id,
                    title: title.clone(),
                },
            );
        } else {
            out.push(table[i].clone_row());
        }
        i = i + 1;
    }
    proof {
        assert(sec_table_v(out@) =~= apply_sec_edit(sec_table_v(table@), id as int, title@));
    }
    out
}

/// Applies one question edit to the table.
fn apply_one_q_edit(table: &Vec<QuestionsModel>, e: &QuestionsModel) -> (out: Vec<QuestionsModel>)
    ensures
        q_table_v(out@) == apply_q_edit(q_table_v(table@), e@),
{
    let mut out: Vec<QuestionsModel> = Vec::new();
    let n: usize = table.len();
    let mut i: usize = 0;
    while i < n
        invariant
            n == table@.len(),
            0 <= i <= n,
            out@.len() == i,
            forall|j: int|
                0 <= j < i ==> #[trigger] q_table_v(out@)[j] == apply_q_edit(
                    q_table_v(table@),
                    e@,
                )[j],
        decreases n - i,
    {
        if table[i].id == e.id {
            out.push(
                QuestionsModel {
                    id: table[i].id,
                    section_id: table[i].section_id,
                    text: e.text.clone(),
                    description: crate::schema::clone_opt_string(&e.description),
                    marks: e.marks,
                },
            );
        } else {
            out.push(table[i].clone_row());
        }
        i = i + 1;
    }
    proof {
        assert(q_table_v(out@) =~= apply_q_edit(q_table_v(table@), e@));
    }
    out
}

/// Applies one option edit to the table.
fn apply_one_o_edit(table: &Vec<OptionsModel>, e: &OptionsModel) -> (out: Vec<OptionsModel>)
    ensures
        o_table_v(out@) == apply_o_edit(o_table_v(table@), e@),
{
    let mut out: Vec<OptionsModel> = Vec::new();
    let n: usize = table.len();
    let mut i: usize = 0;
    while i < n
        invariant
            n == table@.len(),
            0 <= i <= n,
            out@.len() == i,
            forall|j: int|
                0 <= j < i ==> #[trigger] o_table_v(out@)[j] == apply_o_edit(
                    o_table_v(table@),
                    e@,
                )[j],
        decreases n - i,
    {
        if table[i].id == e.id {
            out.push(
                OptionsModel {
                    id: table[i].id,
                    question_id: table[i].question_id,
                    text: e.text.clone(),
                    is_correct: e.is_correct,
                },
            );
        } else {
            out.push(table[i].clone_row());
        }
        i = i + 1;
    }
    proof {
        assert(o_table_v(out@) =~= apply_o_edit(o_table_v(table@), e@));
    }
    out
}

impl ExamStore {
    /// Applies an edit request: every submitted section title, question
    /// text/description/marks and option text/correctness updates the rows
    /// with the matching ids, and then a non-empty deletion payload is
    /// executed through the propagation-safe delete. An edit that submits
    /// nothing changes nothing.
    pub fn edit_exam(&mut self, req: &EditExamRequest) -> (r: Result<(), AppError>)
        ensures
            r is Ok,
            final(self)@ == spec_edit_exam(old(self)@, *req),
    {
        let ghost oldv = self@;
        let n: usize = req.sections.len();
        // batched section updates
        let mut i: usize = 0;
        proof {
            assert(sec_edit_rows(req.sections@).subrange(0, 0) =~= Seq::<SecRowV>::empty());
        }
        while i < n
            invariant
                oldv == old(self)@,
                n == req.sections@.len(),
                0 <= i <= n,
                self@.exams == oldv.exams,
                self@.descriptions == oldv.descriptions,
                self@.questions == oldv.questions,
                self@.options == oldv.options,
                self@.sections == fold_upd(
                    oldv.sections,
                    sec_edit_rows(req.sections@).subrange(0, i as int),
                    sec_upd_step(),
                ),
            decreases n - i,
        {
            let ghost pre = self@.sections;
            let e = &req.sections[i];
            let t = apply_one_sec_edit(&self.sections, e.base.id, &e.base.title);
            self.sections = t;
            proof {
                let rows = sec_edit_rows(req.sections@);
                let cur = rows.subrange(0, i + 1);
                assert(cur.drop_last() =~= rows.subrange(0, i as int));
                assert(cur.last() == rows[i as int]);
                assert(rows[i as int] == req.sections@[i as int].base@);
                assert(self@.sections == apply_sec_edit(
                    pre,
                    req.sections@[i as int].base@.id,
                    req.sections@[i as int].base@.title,
                ));
                assert(fold_upd(oldv.sections, cur, sec_upd_step()) == sec_upd_step()(
                    pre,
                    rows[i as int],
                ));
            }
            i = i + 1;
        }
        proof {
            assert(sec_edit_rows(req.sections@).subrange(0, n as int) =~= sec_edit_rows(
                req.sections@,
            ));
        }
        // batched question updates, flattened across sections
        let mut a: usize = 0;
        proof {
            assert(q_edit_rows(req.sections@.subrange(0, 0)) =~= Seq::<QRowV>::empty());
        }
        while a < n
            invariant
                oldv == old(self)@,
                n == req.sections@.len(),
                0 <= a <= n,
                self@.exams == oldv.exams,
                self@.descriptions == oldv.descriptions,
                self@.sections == fold_upd(
                    oldv.sections,
                    sec_edit_rows(req.sections@),
                    sec_upd_step(),
                ),
                self@.options == oldv.options,
                self@.questions == fold_upd(
                    oldv.questions,
                    q_edit_rows(req.sections@.subrange(0, a as int)),
                    q_upd_step(),
                ),
            decreases n - a,
        {
            let sec = &req.sections[a];
            let m: usize = sec.questions.len();
            let mut b: usize = 0;
            proof {
                assert(q_edit_rows_of_sec(req.sections@[a as int].questions@.subrange(0, 0)) =~= Seq::<
                    QRowV,
                >::empty());
                assert(q_edit_rows(req.sections@.subrange(0, a as int)) + Seq::<QRowV>::empty()
                    =~= q_edit_rows(req.sections@.subrange(0, a as int)));
            }
            while b < m
                invariant
                    oldv == old(self)@,
                    n == req.sections@.len(),
                    0 <= a < n,
                    m == req.sections@[a as int].questions@.len(),
                    0 <= b <= m,
                    sec == &req.sections@[a as int],
                    self@.exams == oldv.exams,
                    self@.descriptions == oldv.descriptions,
                    self@.sections == fold_upd(
                        oldv.sections,
                        sec_edit_rows(req.sections@),
                        sec_upd_step(),
                    ),
                    self@.options == oldv.options,
                    self@.questions == fold_upd(
                        oldv.questions,
                        q_edit_rows(req.sections@.subrange(0, a as int)) + q_edit_rows_of_sec(
                            req.sections@[a as int].questions@.subrange(0, b as int),
                        ),
                        q_upd_step(),
                    ),
                decreases m - b,
            {
                let ghost pre = self@.questions;
                let ghost edits = q_edit_rows(req.sections@.subrange(0, a as int))
                    + q_edit_rows_of_sec(req.sections@[a as int].questions@.subrange(0, b as int));
                let e = &sec.questions[b];
                let t = apply_one_q_edit(&self.questions, &e.base);
                self.questions = t;
                proof {
                    let edits2 = q_edit_rows(req.sections@.subrange(0, a as int))
                        + q_edit_rows_of_sec(
                        req.sections@[a as int].questions@.subrange(0, b + 1),
                    );
                    assert(edits2.drop_last() =~= edits);
                    assert(edits2.last() == req.sections@[a as int].questions@[b as int].base@);
                    assert(fold_upd(oldv.questions, edits2, q_upd_step()) == q_upd_step()(
                        pre,
                        edits2.last(),
                    ));
                }
                b = b + 1;
            }
            proof {
                let spre = req.sections@.subrange(0, a as int);
                let scur = req.sections@.subrange(0, a + 1);
                assert(scur.drop_last() =~= spre);
                assert(scur.last() == req.sections@[a as int]);
                assert(req.sections@[a as int].questions@.subrange(0, m as int)
                    =~= req.sections@[a as int].questions@);
                assert(q_edit_rows(scur) == q_edit_rows(spre) + q_edit_rows_of_sec(
                    req.sections@[a as int].questions@,
                ));
            }
            a = a + 1;
        }
        proof {
            assert(req.sections@.subrange(0, n as int) =~= req.sections@);
        }
        // batched option updates, flattened across sections and questions
        let mut x: usize = 0;
        proof {
            assert(o_edit_rows(req.sections@.subrange(0, 0)) =~= Seq::<ORowV>::empty());
        }
        while x < n
            invariant
                oldv == old(self)@,
                n == req.sections@.len(),
                0 <= x <= n,
                self@.exams == oldv.exams,
                self@.descriptions == oldv.descriptions,
                self@.sections == fold_upd(
                    oldv.sections,
                    sec_edit_rows(req.sections@),
                    sec_upd_step(),
                ),
                self@.questions == fold_upd(
                    oldv.questions,
                    q_edit_rows(req.sections@),
                    q_upd_step(),
                ),
                self@.options == fold_upd(
                    oldv.options,
                    o_edit_rows(req.sections@.subrange(0, x as int)),
                    o_upd_step(),
                ),
            decreases n - x,
        {
            let sec = &req.sections[x];
            let m: usize = sec.questions.len();
            let mut y: usize = 0;
            proof {
                assert(o_edit_rows_qs(req.sections@[x as int].questions@.subrange(0, 0)) =~= Seq::<
                    ORowV,
                >::empty());
                assert(o_edit_rows(req.sections@.subrange(0, x as int)) + Seq::<ORowV>::empty()
                    =~= o_edit_rows(req.sections@.subrange(0, x as int)));
            }
            while y < m
                invariant
                    oldv == old(self)@,
                    n == req.sections@.len(),
                    0 <= x < n,
                    m == req.sections@[x as int].questions@.len(),
                    0 <= y <= m,
                    sec == &req.sections@[x as int],
                    self@.exams == oldv.exams,
                    self@.descriptions == oldv.descriptions,
                    self@.sections == fold_upd(
                        oldv.sections,
                        sec_edit_rows(req.sections@),
                        sec_upd_step(),
                    ),
                    self@.questions == fold_upd(
                        oldv.questions,
                        q_edit_rows(req.sections@),
                        q_upd_step(),
                    ),
                    self@.options == fold_upd(
                        oldv.options,
                        o_edit_rows(req.sections@.subrange(0, x as int)) + o_edit_rows_qs(
                            req.sections@[x as int].questions@.subrange(0, y as int),
                        ),
                        o_upd_step(),
                    ),
                decreases m - y,
            {
                let q = &sec.questions[y];
                let p: usize = q.options.len();
                let mut z: usize = 0;
                proof {
                    let qpre = req.sections@[x as int].questions@.subrange(0, y as int);
                    let qcur = req.sections@[x as int].questions@.subrange(0, y + 1);
                    assert(qcur.drop_last() =~= qpre);
                    assert(qcur.last() == req.sections@[x as int].questions@[y as int]);
                    assert(o_edit_rows_of_q(
                        req.sections@[x as int].questions@[y as int].options@.subrange(0, 0),
                    ) =~= Seq::<ORowV>::empty());
                    assert(o_edit_rows(req.sections@.subrange(0, x as int)) + o_edit_rows_qs(qpre)
                        + Seq::<ORowV>::empty() =~= o_edit_rows(req.sections@.subrange(0, x as int))
                        + o_edit_rows_qs(qpre));
                }
                while z < p
                    invariant
                        oldv == old(self)@,
                        n == req.sections@.len(),
                        0 <= x < n,
                        m == req.sections@[x as int].questions@.len(),
                        0 <= y < m,
                        p == req.sections@[x as int].questions@[y as int].options@.len(),
                        0 <= z <= p,
                        sec == &req.sections@[x as int],
                        q == &req.sections@[x as int].questions@[y as int],
                        self@.exams == oldv.exams,
                        self@.descriptions == oldv.descriptions,
                        self@.sections == fold_upd(
                            oldv.sections,
                            sec_edit_rows(req.sections@),
                            sec_upd_step(),
                        ),
                        self@.questions == fold_upd(
                            oldv.questions,
                            q_edit_rows(req.sections@),
                            q_upd_step(),
                        ),
                        self@.options == fold_upd(
                            oldv.options,
                            o_edit_rows(req.sections@.subrange(0, x as int)) + o_edit_rows_qs(
                                req.sections@[x as int].questions@.subrange(0, y as int),
                            ) + o_edit_rows_of_q(
                                req.sections@[x as int].questions@[y as int].options@.subrange(
                                    0,
                                    z as int,
                                ),
                            ),
                            o_upd_step(),
                        ),
                    decreases p - z,
                {
                    let ghost pre = self@.options;
                    let ghost edits = o_edit_rows(req.sections@.subrange(0, x as int))
                        + o_edit_rows_qs(
                        req.sections@[x as int].questions@.subrange(0, y as int),
                    ) + o_edit_rows_of_q(
                        req.sections@[x as int].questions@[y as int].options@.subrange(0, z as int),
                    );
                    let e = &q.options[z];
                    let t = apply_one_o_edit(&self.options, &e.base);
                    self.options = t;
                    proof {
                        let edits2 = o_edit_rows(req.sections@.subrange(0, x as int))
                            + o_edit_rows_qs(
                            req.sections@[x as int].questions@.subrange(0, y as int),
                        ) + o_edit_rows_of_q(
                            req.sections@[x as int].questions@[y as int].options@.subrange(
                                0,
                                z + 1,
                            ),
                        );
                        assert(edits2.drop_last() =~= edits);
                        assert(edits2.last()
                            == req.sections@[x as int].questions@[y as int].options@[z as int].base@);
                        assert(fold_upd(oldv.options, edits2, o_upd_step()) == o_upd_step()(
                            pre,
                            edits2.last(),
                        ));
                    }
                    z = z + 1;
                }
                proof {
                    let qpre = req.sections@[x as int].questions@.subrange(0, y as int);
                    let qcur = req.sections@[x as int].questions@.subrange(0, y + 1);
                    assert(qcur.drop_last() =~= qpre);
                    assert(req.sections@[x as int].questions@[y as int].options@.subrange(
                        0,
                        p as int,
                    ) =~= req.sections@[x as int].questions@[y as int].options@);
                    assert(o_edit_rows_qs(qcur) == o_edit_rows_qs(qpre) + o_edit_rows_of_q(
                        req.sections@[x as int].questions@[y as int].options@,
                    ));
                    assert(o_edit_rows(req.sections@.subrange(0, x as int)) + o_edit_rows_qs(qcur)
                        =~= o_edit_rows(req.sections@.subrange(0, x as int)) + o_edit_rows_qs(qpre)
                        + o_edit_rows_of_q(
                        req.sections@[x as int].questions@[y as int].options@,
                    ));
                }
                y = y + 1;
            }
            proof {
                let spre = req.sections@.subrange(0, x as int);
                let scur = req.sections@.subrange(0, x + 1);
                assert(scur.drop_last() =~= spre);
                assert(scur.last() == req.sections@[x as int]);
                assert(req.sections@[x as int].questions@.subrange(0, m as int)
                    =~= req.sections@[x as int].questions@);
                assert(o_edit_rows(scur) == o_edit_rows(spre) + o_edit_rows_qs(
                    req.sections@[x as int].questions@,
                ));
            }
            x = x + 1;
        }
        proof {
            assert(req.sections@.subrange(0, n as int) =~= req.sections@);
        }
        // deletion, when anything is named
        if !req.delete.is_all_empty() {
            match self.delete_with_propagation(&req.delete) {
                Result::Ok(()) => {},
                Result::Err(e) => {
                    return Result::Err(e);
                },
            }
        }
        proof {
            assert(self@ =~~= spec_edit_exam(oldv, *req));
        }
        Result::Ok(())
    }
}

} // verus!
