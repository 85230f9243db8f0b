//! The round-trip law: a well-formed exam tree with fresh ids, once
//! inserted, is read back exactly — the same description, the same
//! sections in order, each with its questions and their options in order,
//! with the insert-time defaults applied.

use vstd::prelude::*;

use crate::exam::{
    exam_desc_of_row, ExamRequest, ExamRespV, OptV, OptionRequestModel, QuestionRequest, QV, SecV,
    SectionRequest,
};
use crate::insert::{
    desc_seq_has_id, flat_o_rows, flat_o_rows_qs, flat_q_rows, insert_ok, insert_os, insert_qs,
    insert_secs, o_ins_step, o_row_of, o_rows_of_q, o_seq_has_id, q_ins_step, q_row_of,
    q_rows_of_sec, q_seq_has_id, sec_ins_step, sec_rows_of_req, sec_seq_has_id,
    spec_insert_tables,
};
use crate::parse::{add_row, opt_of_row, regroup};
use crate::read::{
    flat_rows, flat_rows_descs, q_has_options, row_full, row_no_opt, row_no_q, rows_of_desc_secs,
    rows_of_q, rows_of_q_os, rows_of_sec, rows_of_sec_qs, sec_has_questions, spec_read,
};
use crate::schema::{ORowV, QRowV, RowV, SecRowV};
use crate::store::{fold_upd, StoreV};

verus! {

/// A submitted tree is internally consistent: the description references
/// the submitted exam, section ids are distinct, every nested question
/// references its enclosing section, question ids are distinct across the
/// tree, every nested option references its enclosing question, and option
/// ids are distinct across the tree.
pub open spec fn tree_wf(req: ExamRequest) -> bool {
    &&& req.description.base.exam_id == req.exam_id.base.id
    &&& (forall|i: int, j: int|
        0 <= i < j < req.sections@.len() ==> (#[trigger] req.sections@[i]).base.id != (
        #[trigger] req.sections@[j]).base.id)
    &&& (forall|i: int, j: int|
        0 <= i < req.sections@.len() && 0 <= j < req.sections@[i].questions@.len() ==> (
        #[trigger] req.sections@[i].questions@[j]).base.section_id == req.sections@[i].base.id)
    &&& (forall|k1: int, k2: int|
        0 <= k1 < k2 < flat_q_rows(req.sections@).len() ==> (#[trigger] flat_q_rows(
            req.sections@,
        )[k1]).id != (#[trigger] flat_q_rows(req.sections@)[k2]).id)
    &&& (forall|i: int, j: int, x: int|
        0 <= i < req.sections@.len() && 0 <= j < req.sections@[i].questions@.len() && 0 <= x
            < req.sections@[i].questions@[j].options@.len() ==> (
        #[trigger] req.sections@[i].questions@[j].options@[x]).base.question_id
            == req.sections@[i].questions@[j].base.id)
    &&& (forall|k1: int, k2: int|
        0 <= k1 < k2 < flat_o_rows(req.sections@).len() ==> (#[trigger] flat_o_rows(
            req.sections@,
        )[k1]).id != (#[trigger] flat_o_rows(req.sections@)[k2]).id)
}

/// Every id of the submitted tree is fresh with respect to the store: the
/// exam id, the description id, and all section, question and option ids.
pub open spec fn tree_fresh(s: StoreV, req: ExamRequest) -> bool {
    &&& !s.exams.contains(req.exam_id.base.id as int)
    &&& !desc_seq_has_id(s.descriptions, req.description.base.id as int)
    &&& (forall|k: int|
        0 <= k < sec_rows_of_req(req).len() ==> !sec_seq_has_id(
            s.sections,
            (#[trigger] sec_rows_of_req(req)[k]).id,
        ))
    &&& (forall|k: int|
        0 <= k < flat_q_rows(req.sections@).len() ==> !q_seq_has_id(
            s.questions,
            (#[trigger] flat_q_rows(req.sections@)[k]).id,
        ))
    &&& (forall|k: int|
        0 <= k < flat_o_rows(req.sections@).len() ==> !o_seq_has_id(
            s.options,
            (#[trigger] flat_o_rows(req.sections@)[k]).id,
        ))
}

/// The option a reader gets back for a submitted option: the
/// missing-correctness default applied.
pub open spec fn o_resp_of(o: OptionRequestModel) -> OptV {
    OptV {
        id: o.base.id as int,
        question_id: o.base.question_id as int,
        text: o.base.text@,
        is_correct: Option::Some(
            match o.base.is_correct {
                Option::Some(b) => b,
                Option::None => false,
            },
        ),
    }
}

/// The question a reader gets back for a submitted question: the
/// missing-description default applied, its options in order.
pub open spec fn q_resp_of(q: QuestionRequest) -> QV {
    QV {
        id: q.base.id as int,
        section_id: q.base.section_id as int,
        text: q.base.text@,
        description: Option::Some(
            crate::parse::opt_or_empty(crate::schema::opt_str_v(q.base.description)),
        ),
        marks: q.base.marks as int,
        options: q.options@.map(|k: int, o: OptionRequestModel| o_resp_of(o)),
    }
}

/// The section a reader gets back for a submitted section: its parent
/// forced to the submitted description, its questions in order.
pub open spec fn sec_resp_of(req: ExamRequest, s: SectionRequest) -> SecV {
    SecV {
        id: s.base.id as int,
        exam_description_id: req.description.base.id as int,
        title: s.base.title@,
        questions: s.questions@.map(|j: int, q: QuestionRequest| q_resp_of(q)),
    }
}

/// The full response a reader gets back for a submitted tree.
pub open spec fn resp_of_req(req: ExamRequest) -> ExamRespV {
    ExamRespV {
        exam_id: req.exam_id.base.id as int,
        description: exam_desc_of_row(req.description.base@),
        sections: req.sections@.map(|i: int, s: SectionRequest| sec_resp_of(req, s)),
    }
}

/// The step function of the regroup fold.
pub open spec fn row_step() -> spec_fn(Seq<SecV>, RowV) -> Seq<SecV> {
    |a: Seq<SecV>, r: RowV| add_row(a, r)
}

/// The regroup fold continued from an accumulator.
pub open spec fn add_rows(acc: Seq<SecV>, rows: Seq<RowV>) -> Seq<SecV> {
    fold_upd(acc, rows, row_step())
}

proof fn lemma_regroup_is_fold(rows: Seq<RowV>)
    ensures
        regroup(rows) == add_rows(Seq::empty(), rows),
    decreases rows.len(),
{
    if rows.len() > 0 {
        lemma_regroup_is_fold(rows.drop_last());
    }
}

proof fn lemma_insert_secs_append(t: Seq<SecRowV>, rows: Seq<SecRowV>)
    requires
        forall|k: int| 0 <= k < rows.len() ==> !sec_seq_has_id(t, (#[trigger] rows[k]).id),
        forall|k1: int, k2: int|
            0 <= k1 < k2 < rows.len() ==> (#[trigger] rows[k1]).id != (#[trigger] rows[k2]).id,
    ensures
        insert_secs(t, rows) == t + rows,
    decreases rows.len(),
{
    if rows.len() == 0 {
        assert(t + rows =~= t);
    } else {
        let pre = rows.drop_last();
        assert(forall|k: int| 0 <= k < pre.len() ==> pre[k] == rows[k]);
        lemma_insert_secs_append(t, pre);
        let r = rows.last();
        assert(!sec_seq_has_id(t + pre, r.id)) by {
            if sec_seq_has_id(t + pre, r.id) {
                let j = choose|j: int| 0 <= j < (t + pre).len() && (t + pre)[j].id == r.id;
                if j < t.len() {
                    assert((t + pre)[j] == t[j]);
                    assert(sec_seq_has_id(t, rows[rows.len() - 1].id));
                } else {
                    assert((t + pre)[j] == pre[j - t.len()]);
                    assert(rows[j - t.len()].id == rows[rows.len() - 1].id);
                }
                assert(false);
            }
        }
        assert(insert_secs(t, rows) == sec_ins_step(t + pre, r));
        assert((t + pre).push(r) =~= t + rows);
    }
}

proof fn lemma_insert_qs_append(t: Seq<QRowV>, rows: Seq<QRowV>)
    requires
        forall|k: int| 0 <= k < rows.len() ==> !q_seq_has_id(t, (#[trigger] rows[k]).id),
        forall|k1: int, k2: int|
            0 <= k1 < k2 < rows.len() ==> (#[trigger] rows[k1]).id != (#[trigger] rows[k2]).id,
    ensures
        insert_qs(t, rows) == t + rows,
    decreases rows.len(),
{
    if rows.len() == 0 {
        assert(t + rows =~= t);
    } else {
        let pre = rows.drop_last();
        assert(forall|k: int| 0 <= k < pre.len() ==> pre[k] == rows[k]);
        lemma_insert_qs_append(t, pre);
        let r = rows.last();
        assert(!q_seq_has_id(t + pre, r.id)) by {
            if q_seq_has_id(t + pre, r.id) {
                let j = choose|j: int| 0 <= j < (t + pre).len() && (t + pre)[j].id == r.id;
                if j < t.len() {
                    assert((t + pre)[j] == t[j]);
                    assert(q_seq_has_id(t, rows[rows.len() - 1].id));
                } else {
                    assert((t + pre)[j] == pre[j - t.len()]);
                    assert(rows[j - t.len()].id == rows[rows.len() - 1].id);
                }
                assert(false);
            }
        }
        assert(insert_qs(t, rows) == q_ins_step(t + pre, r));
        assert((t + pre).push(r) =~= t + rows);
    }
}

proof fn lemma_insert_os_append(t: Seq<ORowV>, rows: Seq<ORowV>)
    requires
        forall|k: int| 0 <= k < rows.len() ==> !o_seq_has_id(t, (#[trigger] rows[k]).id),
        forall|k1: int, k2: int|
            0 <= k1 < k2 < rows.len() ==> (#[trigger] rows[k1]).id != (#[trigger] rows[k2]).id,
    ensures
        insert_os(t, rows) == t + rows,
    decreases rows.len(),
{
    if rows.len() == 0 {
        assert(t + rows =~= t);
    } else {
        let pre = rows.drop_last();
        assert(forall|k: int| 0 <= k < pre.len() ==> pre[k] == rows[k]);
        lemma_insert_os_append(t, pre);
        let r = rows.last();
        assert(!o_seq_has_id(t + pre, r.id)) by {
            if o_seq_has_id(t + pre, r.id) {
                let j = choose|j: int| 0 <= j < (t + pre).len() && (t + pre)[j].id == r.id;
                if j < t.len() {
                    assert((t + pre)[j] == t[j]);
                    assert(o_seq_has_id(t, rows[rows.len() - 1].id));
                } else {
                    assert((t + pre)[j] == pre[j - t.len()]);
                    assert(rows[j - t.len()].id == rows[rows.len() - 1].id);
                }
                assert(false);
            }
        }
        assert(insert_os(t, rows) == o_ins_step(t + pre, r));
        assert((t + pre).push(r) =~= t + rows);
    }
}

/// Each flat question row is the persisted row of one nested question, and
/// each nested question appears in the flat rows.
proof fn lemma_flat_q_rows_decompose(secs: Seq<SectionRequest>, k: int)
    requires
        0 <= k < flat_q_rows(secs).len(),
    ensures
        exists|i: int, j: int|
            0 <= i < secs.len() && 0 <= j < secs[i].questions@.len() && flat_q_rows(secs)[k]
                == q_row_of(#[trigger] secs[i].questions@[j]),
    decreases secs.len(),
{
    let pre = secs.drop_last();
    let head = flat_q_rows(pre);
    if k < head.len() {
        lemma_flat_q_rows_decompose(pre, k);
        let (i, j) = choose|i: int, j: int|
            0 <= i < pre.len() && 0 <= j < pre[i].questions@.len() && head[k] == q_row_of(
                #[trigger] pre[i].questions@[j],
            );
        assert(secs[i] == pre[i]);
        assert(flat_q_rows(secs)[k] == head[k]);
        assert(flat_q_rows(secs)[k] == q_row_of(secs[i].questions@[j]));
    } else {
        let i = secs.len() - 1;
        let j = k - head.len();
        assert(flat_q_rows(secs)[k] == q_rows_of_sec(secs.last())[j]);
        assert(q_rows_of_sec(secs.last())[j] == q_row_of(secs[i].questions@[j]));
    }
}

proof fn lemma_flat_q_rows_member(secs: Seq<SectionRequest>, i: int, j: int)
    requires
        0 <= i < secs.len(),
        0 <= j < secs[i].questions@.len(),
    ensures
        exists|k: int|
            0 <= k < flat_q_rows(secs).len() && #[trigger] flat_q_rows(secs)[k] == q_row_of(
                secs[i].questions@[j],
            ),
    decreases secs.len(),
{
    let pre = secs.drop_last();
    if i < secs.len() - 1 {
        assert(pre[i] == secs[i]);
        lemma_flat_q_rows_member(pre, i, j);
        let k = choose|k: int|
            0 <= k < flat_q_rows(pre).len() && #[trigger] flat_q_rows(pre)[k] == q_row_of(
                pre[i].questions@[j],
            );
        assert(flat_q_rows(secs)[k] == flat_q_rows(pre)[k]);
    } else {
        let k = flat_q_rows(pre).len() + j;
        assert(flat_q_rows(secs)[k] == q_rows_of_sec(secs.last())[j]);
        assert(q_rows_of_sec(secs.last())[j] == q_row_of(secs[i].questions@[j]));
    }
}

/// Each flat option row is the persisted row of one nested option.
proof fn lemma_flat_o_rows_qs_decompose(qs: Seq<QuestionRequest>, k: int)
    requires
        0 <= k < flat_o_rows_qs(qs).len(),
    ensures
        exists|j: int, x: int|
            0 <= j < qs.len() && 0 <= x < qs[j].options@.len() && flat_o_rows_qs(qs)[k] == o_row_of(
                #[trigger] qs[j].options@[x],
            ),
    decreases qs.len(),
{
    let pre = qs.drop_last();
    let head = flat_o_rows_qs(pre);
    if k < head.len() {
        lemma_flat_o_rows_qs_decompose(pre, k);
        let (j, x) = choose|j: int, x: int|
            0 <= j < pre.len() && 0 <= x < pre[j].options@.len() && head[k] == o_row_of(
                #[trigger] pre[j].options@[x],
            );
        assert(qs[j] == pre[j]);
        assert(flat_o_rows_qs(qs)[k] == head[k]);
        assert(flat_o_rows_qs(qs)[k] == o_row_of(qs[j].options@[x]));
    } else {
        let j = qs.len() - 1;
        let x = k - head.len();
        assert(flat_o_rows_qs(qs)[k] == o_rows_of_q(qs.last())[x]);
        assert(o_rows_of_q(qs.last())[x] == o_row_of(qs[j].options@[x]));
    }
}

proof fn lemma_flat_o_rows_decompose(secs: Seq<SectionRequest>, k: int)
    requires
        0 <= k < flat_o_rows(secs).len(),
    ensures
        exists|i: int, j: int, x: int|
            0 <= i < secs.len() && 0 <= j < secs[i].questions@.len() && 0 <= x
                < secs[i].questions@[j].options@.len() && flat_o_rows(secs)[k] == o_row_of(
                #[trigger] secs[i].questions@[j].options@[x],
            ),
    decreases secs.len(),
{
    let pre = secs.drop_last();
    let head = flat_o_rows(pre);
    if k < head.len() {
        lemma_flat_o_rows_decompose(pre, k);
        let (i, j, x) = choose|i: int, j: int, x: int|
            0 <= i < pre.len() && 0 <= j < pre[i].questions@.len() && 0 <= x
                < pre[i].questions@[j].options@.len() && head[k] == o_row_of(
                #[trigger] pre[i].questions@[j].options@[x],
            );
        assert(secs[i] == pre[i]);
        assert(flat_o_rows(secs)[k] == head[k]);
        assert(flat_o_rows(secs)[k] == o_row_of(secs[i].questions@[j].options@[x]));
    } else {
        let i = secs.len() - 1;
        let kk = k - head.len();
        assert(flat_o_rows(secs)[k] == flat_o_rows_qs(secs.last().questions@)[kk]);
        lemma_flat_o_rows_qs_decompose(secs.last().questions@, kk);
        let (j, x) = choose|j: int, x: int|
            0 <= j < secs.last().questions@.len() && 0 <= x
                < secs.last().questions@[j].options@.len() && flat_o_rows_qs(secs.last().questions@)[kk]
                == o_row_of(#[trigger] secs.last().questions@[j].options@[x]);
        assert(secs[i] == secs.last());
    }
}

/// A well-formed fresh tree is accepted by the insert, and the resulting
/// tables are exactly the old tables with the tree's rows appended.
pub proof fn lemma_tree_insert(s: StoreV, req: ExamRequest)
    requires
        s.wf(),
        tree_wf(req),
        tree_fresh(s, req),
    ensures
        insert_ok(s, req),
        spec_insert_tables(s, req).exams == s.exams.push(req.exam_id.base.id as int),
        spec_insert_tables(s, req).descriptions == s.descriptions.push(req.description.base@),
        spec_insert_tables(s, req).sections == s.sections + sec_rows_of_req(req),
        spec_insert_tables(s, req).questions == s.questions + flat_q_rows(req.sections@),
        spec_insert_tables(s, req).options == s.options + flat_o_rows(req.sections@),
{
    let eid = req.exam_id.base.id as int;
    let secs = req.sections@;
    // section rows have distinct ids since the tree's section ids are distinct
    assert(forall|k1: int, k2: int|
        0 <= k1 < k2 < sec_rows_of_req(req).len() ==> (#[trigger] sec_rows_of_req(req)[k1]).id != (
        #[trigger] sec_rows_of_req(req)[k2]).id);
    lemma_insert_secs_append(s.sections, sec_rows_of_req(req));
    lemma_insert_qs_append(s.questions, flat_q_rows(secs));
    lemma_insert_os_append(s.options, flat_o_rows(secs));
    let newex = s.exams.push(eid);
    assert(newex.contains(req.description.base.exam_id as int)) by {
        assert(newex[newex.len() - 1] == eid);
    }
    let newsecs = s.sections + sec_rows_of_req(req);
    let newqs = s.questions + flat_q_rows(secs);
    // every flat question row's section is one of the tree's sections
    assert forall|k: int| 0 <= k < flat_q_rows(secs).len() implies sec_seq_has_id(
        newsecs,
        (#[trigger] flat_q_rows(secs)[k]).section_id,
    ) by {
        lemma_flat_q_rows_decompose(secs, k);
        let (i, j) = choose|i: int, j: int|
            0 <= i < secs.len() && 0 <= j < secs[i].questions@.len() && flat_q_rows(secs)[k]
                == q_row_of(#[trigger] secs[i].questions@[j]);
        assert(secs[i].questions@[j].base.section_id == secs[i].base.id);
        assert(newsecs[s.sections.len() + i] == sec_rows_of_req(req)[i]);
        assert(sec_rows_of_req(req)[i].id == secs[i].base.id as int);
    }
    // every flat option row's question is one of the tree's questions
    assert forall|k: int| 0 <= k < flat_o_rows(secs).len() implies q_seq_has_id(
        newqs,
        (#[trigger] flat_o_rows(secs)[k]).question_id,
    ) by {
        lemma_flat_o_rows_decompose(secs, k);
        let (i, j, x) = choose|i: int, j: int, x: int|
            0 <= i < secs.len() && 0 <= j < secs[i].questions@.len() && 0 <= x
                < secs[i].questions@[j].options@.len() && flat_o_rows(secs)[k] == o_row_of(
                #[trigger] secs[i].questions@[j].options@[x],
            );
        assert(secs[i].questions@[j].options@[x].base.question_id == secs[i].questions@[j].base.id);
        lemma_flat_q_rows_member(secs, i, j);
        let kk = choose|kk: int|
            0 <= kk < flat_q_rows(secs).len() && #[trigger] flat_q_rows(secs)[kk] == q_row_of(
                secs[i].questions@[j],
            );
        assert(newqs[s.questions.len() + kk] == flat_q_rows(secs)[kk]);
    }
}


/// All the round-trip hypotheses together: a well-formed store, a
/// well-formed tree, and fresh ids.
pub open spec fn round_trip_pre(s: StoreV, req: ExamRequest) -> bool {
    s.wf() && tree_wf(req) && tree_fresh(s, req)
}

/// The number of flat question rows contributed by the first `m` sections.
pub open spec fn q_count_prefix(secs: Seq<SectionRequest>, m: int) -> int {
    flat_q_rows(secs.subrange(0, m)).len() as int
}

proof fn lemma_flat_q_prefix(secs: Seq<SectionRequest>, m: int)
    requires
        0 <= m <= secs.len(),
    ensures
        q_count_prefix(secs, m) <= flat_q_rows(secs).len(),
        forall|p: int|
            0 <= p < q_count_prefix(secs, m) ==> flat_q_rows(secs)[p] == flat_q_rows(
                secs.subrange(0, m),
            )[p],
    decreases secs.len() - m,
{
    if m == secs.len() {
        assert(secs.subrange(0, m) =~= secs);
    } else {
        lemma_flat_q_prefix(secs, m + 1);
        let cur = secs.subrange(0, m + 1);
        assert(cur.drop_last() =~= secs.subrange(0, m));
        assert(cur.last() == secs[m]);
        assert(flat_q_rows(cur) == flat_q_rows(secs.subrange(0, m)) + q_rows_of_sec(secs[m]));
        assert forall|p: int| 0 <= p < q_count_prefix(secs, m) implies flat_q_rows(secs)[p]
            == flat_q_rows(secs.subrange(0, m))[p] by {
            assert(flat_q_rows(cur)[p] == flat_q_rows(secs.subrange(0, m))[p]);
        }
    }
}

proof fn lemma_qcount_step(secs: Seq<SectionRequest>, m: int)
    requires
        0 <= m < secs.len(),
    ensures
        q_count_prefix(secs, m + 1) == q_count_prefix(secs, m) + secs[m].questions@.len(),
{
    let cur = secs.subrange(0, m + 1);
    assert(cur.drop_last() =~= secs.subrange(0, m));
    assert(cur.last() == secs[m]);
    assert(flat_q_rows(cur) == flat_q_rows(secs.subrange(0, m)) + q_rows_of_sec(secs[m]));
}

proof fn lemma_qcount_mono(secs: Seq<SectionRequest>, a: int, b: int)
    requires
        0 <= a <= b <= secs.len(),
    ensures
        q_count_prefix(secs, a) <= q_count_prefix(secs, b),
    decreases b - a,
{
    if a < b {
        lemma_qcount_step(secs, a);
        lemma_qcount_mono(secs, a + 1, b);
    }
}

/// The flat position of one nested question.
proof fn lemma_qpos(secs: Seq<SectionRequest>, i: int, j: int)
    requires
        0 <= i < secs.len(),
        0 <= j < secs[i].questions@.len(),
    ensures
        0 <= q_count_prefix(secs, i) + j < flat_q_rows(secs).len(),
        flat_q_rows(secs)[q_count_prefix(secs, i) + j] == q_row_of(secs[i].questions@[j]),
{
    lemma_qcount_step(secs, i);
    lemma_flat_q_prefix(secs, i + 1);
    let cur = secs.subrange(0, i + 1);
    assert(cur.drop_last() =~= secs.subrange(0, i));
    assert(cur.last() == secs[i]);
    assert(flat_q_rows(cur) == flat_q_rows(secs.subrange(0, i)) + q_rows_of_sec(secs[i]));
    assert(flat_q_rows(cur)[q_count_prefix(secs, i) + j] == q_rows_of_sec(secs[i])[j]);
    assert(q_rows_of_sec(secs[i])[j] == q_row_of(secs[i].questions@[j]));
    lemma_qcount_mono(secs, i + 1, secs.len() as int);
    assert(secs.subrange(0, secs.len() as int) =~= secs);
}

/// Two nested questions with one id are one question: question ids are
/// unique across the tree.
proof fn lemma_q_id_unique(
    secs: Seq<SectionRequest>,
    i: int,
    j: int,
    i2: int,
    j2: int,
)
    requires
        forall|k1: int, k2: int|
            0 <= k1 < k2 < flat_q_rows(secs).len() ==> (#[trigger] flat_q_rows(secs)[k1]).id != (
            #[trigger] flat_q_rows(secs)[k2]).id,
        0 <= i < secs.len(),
        0 <= j < secs[i].questions@.len(),
        0 <= i2 < secs.len(),
        0 <= j2 < secs[i2].questions@.len(),
        secs[i].questions@[j].base.id == secs[i2].questions@[j2].base.id,
    ensures
        i == i2,
        j == j2,
{
    lemma_qpos(secs, i, j);
    lemma_qpos(secs, i2, j2);
    let p1 = q_count_prefix(secs, i) + j;
    let p2 = q_count_prefix(secs, i2) + j2;
    if p1 != p2 {
        assert(flat_q_rows(secs)[p1].id == flat_q_rows(secs)[p2].id);
        assert(false);
    }
    if i < i2 {
        lemma_qcount_step(secs, i);
        lemma_qcount_mono(secs, i + 1, i2);
        assert(false);
    }
    if i2 < i {
        lemma_qcount_step(secs, i2);
        lemma_qcount_mono(secs, i2 + 1, i);
        assert(false);
    }
}

proof fn lemma_flat_rows_descs_none(s2: StoreV, descs: Seq<crate::schema::DescRowV>, eid: int)
    requires
        forall|i: int| 0 <= i < descs.len() ==> (#[trigger] descs[i]).exam_id != eid,
    ensures
        flat_rows_descs(s2, descs, eid) == Seq::<RowV>::empty(),
    decreases descs.len(),
{
    if descs.len() > 0 {
        let pre = descs.drop_last();
        assert(forall|i: int| 0 <= i < pre.len() ==> pre[i] == descs[i]);
        lemma_flat_rows_descs_none(s2, pre, eid);
        assert(flat_rows_descs(s2, descs, eid) =~= Seq::<RowV>::empty());
    }
}

proof fn lemma_rows_of_desc_secs_concat(s2: StoreV, a: Seq<SecRowV>, b: Seq<SecRowV>, did: int)
    ensures
        rows_of_desc_secs(s2, a + b, did) == rows_of_desc_secs(s2, a, did) + rows_of_desc_secs(
            s2,
            b,
            did,
        ),
    decreases b.len(),
{
    if b.len() == 0 {
        assert(a + b =~= a);
        assert(rows_of_desc_secs(s2, a, did) + rows_of_desc_secs(s2, b, did) =~= rows_of_desc_secs(
            s2,
            a,
            did,
        ));
    } else {
        lemma_rows_of_desc_secs_concat(s2, a, b.drop_last(), did);
        assert((a + b).drop_last() =~= a + b.drop_last());
        assert((a + b).last() == b.last());
        assert(rows_of_desc_secs(s2, a, did) + rows_of_desc_secs(s2, b, did) =~= rows_of_desc_secs(
            s2,
            a + b,
            did,
        ));
    }
}

proof fn lemma_rows_of_desc_secs_none(s2: StoreV, secs: Seq<SecRowV>, did: int)
    requires
        forall|i: int| 0 <= i < secs.len() ==> (#[trigger] secs[i]).exam_description_id != did,
    ensures
        rows_of_desc_secs(s2, secs, did) == Seq::<RowV>::empty(),
    decreases secs.len(),
{
    if secs.len() > 0 {
        let pre = secs.drop_last();
        assert(forall|i: int| 0 <= i < pre.len() ==> pre[i] == secs[i]);
        lemma_rows_of_desc_secs_none(s2, pre, did);
        assert(rows_of_desc_secs(s2, secs, did) =~= Seq::<RowV>::empty());
    }
}

proof fn lemma_rows_of_sec_qs_concat(s2: StoreV, a: Seq<QRowV>, b: Seq<QRowV>, sec: SecRowV)
    ensures
        rows_of_sec_qs(s2, a + b, sec) == rows_of_sec_qs(s2, a, sec) + rows_of_sec_qs(s2, b, sec),
    decreases b.len(),
{
    if b.len() == 0 {
        assert(a + b =~= a);
        assert(rows_of_sec_qs(s2, a, sec) + rows_of_sec_qs(s2, b, sec) =~= rows_of_sec_qs(
            s2,
            a,
            sec,
        ));
    } else {
        lemma_rows_of_sec_qs_concat(s2, a, b.drop_last(), sec);
        assert((a + b).drop_last() =~= a + b.drop_last());
        assert((a + b).last() == b.last());
        assert(rows_of_sec_qs(s2, a, sec) + rows_of_sec_qs(s2, b, sec) =~= rows_of_sec_qs(
            s2,
            a + b,
            sec,
        ));
    }
}

proof fn lemma_rows_of_sec_qs_none(s2: StoreV, qs: Seq<QRowV>, sec: SecRowV)
    requires
        forall|i: int| 0 <= i < qs.len() ==> (#[trigger] qs[i]).section_id != sec.id,
    ensures
        rows_of_sec_qs(s2, qs, sec) == Seq::<RowV>::empty(),
    decreases qs.len(),
{
    if qs.len() > 0 {
        let pre = qs.drop_last();
        assert(forall|i: int| 0 <= i < pre.len() ==> pre[i] == qs[i]);
        lemma_rows_of_sec_qs_none(s2, pre, sec);
        assert(rows_of_sec_qs(s2, qs, sec) =~= Seq::<RowV>::empty());
    }
}

proof fn lemma_rows_of_q_os_concat(a: Seq<ORowV>, b: Seq<ORowV>, sec: SecRowV, q: QRowV)
    ensures
        rows_of_q_os(a + b, sec, q) == rows_of_q_os(a, sec, q) + rows_of_q_os(b, sec, q),
    decreases b.len(),
{
    if b.len() == 0 {
        assert(a + b =~= a);
        assert(rows_of_q_os(a, sec, q) + rows_of_q_os(b, sec, q) =~= rows_of_q_os(a, sec, q));
    } else {
        lemma_rows_of_q_os_concat(a, b.drop_last(), sec, q);
        assert((a + b).drop_last() =~= a + b.drop_last());
        assert((a + b).last() == b.last());
        assert(rows_of_q_os(a, sec, q) + rows_of_q_os(b, sec, q) =~= rows_of_q_os(a + b, sec, q));
    }
}

proof fn lemma_rows_of_q_os_none(os: Seq<ORowV>, sec: SecRowV, q: QRowV)
    requires
        forall|i: int| 0 <= i < os.len() ==> (#[trigger] os[i]).question_id != q.id,
    ensures
        rows_of_q_os(os, sec, q) == Seq::<RowV>::empty(),
    decreases os.len(),
{
    if os.len() > 0 {
        let pre = os.drop_last();
        assert(forall|i: int| 0 <= i < pre.len() ==> pre[i] == os[i]);
        lemma_rows_of_q_os_none(pre, sec, q);
        assert(rows_of_q_os(os, sec, q) =~= Seq::<RowV>::empty());
    }
}

/// The rows a question contributes per option, in order.
pub open spec fn opt_rows_of(srow: SecRowV, qrow: QRowV, os: Seq<OptionRequestModel>) -> Seq<RowV> {
    os.map(|x: int, o: OptionRequestModel| row_full(srow, qrow, o_row_of(o)))
}

proof fn lemma_rows_of_q_os_all(os: Seq<OptionRequestModel>, sec: SecRowV, q: QRowV)
    requires
        forall|x: int| 0 <= x < os.len() ==> (#[trigger] os[x]).base.question_id as int == q.id,
    ensures
        rows_of_q_os(o_rows_of_q_seq(os), sec, q) == opt_rows_of(sec, q, os),
    decreases os.len(),
{
    if os.len() == 0 {
        assert(o_rows_of_q_seq(os) =~= Seq::<ORowV>::empty());
        assert(opt_rows_of(sec, q, os) =~= Seq::<RowV>::empty());
    } else {
        let pre = os.drop_last();
        assert(forall|x: int| 0 <= x < pre.len() ==> pre[x] == os[x]);
        lemma_rows_of_q_os_all(pre, sec, q);
        assert(o_rows_of_q_seq(os) =~= o_rows_of_q_seq(pre).push(o_row_of(os.last())));
        assert(o_rows_of_q_seq(os).drop_last() =~= o_rows_of_q_seq(pre));
        assert(o_rows_of_q_seq(os).last() == o_row_of(os.last()));
        assert(o_row_of(os.last()).question_id == q.id);
        assert(rows_of_q_os(o_rows_of_q_seq(os), sec, q) == rows_of_q_os(o_rows_of_q_seq(pre), sec, q)
            + seq![row_full(sec, q, o_row_of(os.last()))]);
        assert(rows_of_q_os(o_rows_of_q_seq(os), sec, q) =~= opt_rows_of(sec, q, os));
    }
}

/// The persisted option rows of a list of submitted options.
pub open spec fn o_rows_of_q_seq(os: Seq<OptionRequestModel>) -> Seq<ORowV> {
    os.map(|x: int, o: OptionRequestModel| o_row_of(o))
}


/// The sequence of options as returned to the reader.
pub open spec fn o_resp_seq(os: Seq<OptionRequestModel>) -> Seq<OptV> {
    os.map(|x: int, o: OptionRequestModel| o_resp_of(o))
}

/// The join rows of one submitted question under its section row.
pub open spec fn q_block(srow: SecRowV, q: QuestionRequest) -> Seq<RowV> {
    if q.options@.len() == 0 {
        seq![row_no_opt(srow, q_row_of(q))]
    } else {
        opt_rows_of(srow, q_row_of(q), q.options@)
    }
}

/// The join rows of a prefix of one section's submitted questions.
pub open spec fn sec_q_blocks(srow: SecRowV, qs: Seq<QuestionRequest>) -> Seq<RowV>
    decreases qs.len(),
{
    if qs.len() == 0 {
        Seq::empty()
    } else {
        sec_q_blocks(srow, qs.drop_last()) + q_block(srow, qs.last())
    }
}

/// The join rows of one submitted section.
pub open spec fn sec_block(srow: SecRowV, s_i: SectionRequest) -> Seq<RowV> {
    if s_i.questions@.len() == 0 {
        seq![row_no_q(srow)]
    } else {
        sec_q_blocks(srow, s_i.questions@)
    }
}

/// The join rows of the first `m` submitted sections.
pub open spec fn tree_blocks(req: ExamRequest, m: int) -> Seq<RowV>
    decreases m,
{
    if m <= 0 {
        Seq::empty()
    } else {
        tree_blocks(req, m - 1) + sec_block(
            sec_rows_of_req(req)[m - 1],
            req.sections@[m - 1],
        )
    }
}

proof fn lemma_flat_o_rows_qs_member(qs: Seq<QuestionRequest>, j: int, x: int)
    requires
        0 <= j < qs.len(),
        0 <= x < qs[j].options@.len(),
    ensures
        exists|k: int|
            0 <= k < flat_o_rows_qs(qs).len() && #[trigger] flat_o_rows_qs(qs)[k] == o_row_of(
                qs[j].options@[x],
            ),
    decreases qs.len(),
{
    let pre = qs.drop_last();
    if j < qs.len() - 1 {
        assert(pre[j] == qs[j]);
        lemma_flat_o_rows_qs_member(pre, j, x);
        let k = choose|k: int|
            0 <= k < flat_o_rows_qs(pre).len() && #[trigger] flat_o_rows_qs(pre)[k] == o_row_of(
                pre[j].options@[x],
            );
        assert(flat_o_rows_qs(qs)[k] == flat_o_rows_qs(pre)[k]);
    } else {
        let k = flat_o_rows_qs(pre).len() + x;
        assert(flat_o_rows_qs(qs)[k] == o_rows_of_q(qs.last())[x]);
        assert(o_rows_of_q(qs.last())[x] == o_row_of(qs[j].options@[x]));
    }
}

proof fn lemma_flat_o_rows_member(secs: Seq<SectionRequest>, i: int, j: int, x: int)
    requires
        0 <= i < secs.len(),
        0 <= j < secs[i].questions@.len(),
        0 <= x < secs[i].questions@[j].options@.len(),
    ensures
        exists|k: int|
            0 <= k < flat_o_rows(secs).len() && #[trigger] flat_o_rows(secs)[k] == o_row_of(
                secs[i].questions@[j].options@[x],
            ),
    decreases secs.len(),
{
    let pre = secs.drop_last();
    if i < secs.len() - 1 {
        assert(pre[i] == secs[i]);
        lemma_flat_o_rows_member(pre, i, j, x);
        let k = choose|k: int|
            0 <= k < flat_o_rows(pre).len() && #[trigger] flat_o_rows(pre)[k] == o_row_of(
                pre[i].questions@[j].options@[x],
            );
        assert(flat_o_rows(secs)[k] == flat_o_rows(pre)[k]);
    } else {
        lemma_flat_o_rows_qs_member(secs[i].questions@, j, x);
        let kk = choose|kk: int|
            0 <= kk < flat_o_rows_qs(secs[i].questions@).len() && #[trigger] flat_o_rows_qs(
                secs[i].questions@,
            )[kk] == o_row_of(secs[i].questions@[j].options@[x]);
        let k = flat_o_rows(pre).len() + kk;
        assert(secs.last() == secs[i]);
        assert(flat_o_rows(secs)[k] == flat_o_rows_qs(secs[i].questions@)[kk]);
    }
}

/// Within one section's questions, only the one question with the row's id
/// contributes matching option rows.
proof fn lemma_o_block(qs: Seq<QuestionRequest>, j: int, srow: SecRowV, qrow: QRowV)
    requires
        0 <= j < qs.len(),
        qrow.id == qs[j].base.id as int,
        forall|j2: int|
            0 <= j2 < qs.len() && j2 != j ==> (#[trigger] qs[j2]).base.id != qs[j].base.id,
        forall|j2: int, x: int|
            0 <= j2 < qs.len() && 0 <= x < qs[j2].options@.len() ==> (
            #[trigger] qs[j2].options@[x]).base.question_id == qs[j2].base.id,
    ensures
        rows_of_q_os(flat_o_rows_qs(qs), srow, qrow) == opt_rows_of(srow, qrow, qs[j].options@),
    decreases qs.len(),
{
    let pre = qs.drop_last();
    assert(forall|j2: int| 0 <= j2 < pre.len() ==> pre[j2] == qs[j2]);
    assert(flat_o_rows_qs(qs) == flat_o_rows_qs(pre) + o_rows_of_q(qs.last()));
    lemma_rows_of_q_os_concat(flat_o_rows_qs(pre), o_rows_of_q(qs.last()), srow, qrow);
    if j == qs.len() - 1 {
        assert forall|k: int| 0 <= k < flat_o_rows_qs(pre).len() implies (
        #[trigger] flat_o_rows_qs(pre)[k]).question_id != qrow.id by {
            lemma_flat_o_rows_qs_decompose(pre, k);
            let (j2, x) = choose|j2: int, x: int|
                0 <= j2 < pre.len() && 0 <= x < pre[j2].options@.len() && flat_o_rows_qs(pre)[k]
                    == o_row_of(#[trigger] pre[j2].options@[x]);
            assert(qs[j2].options@[x].base.question_id == qs[j2].base.id);
        }
        lemma_rows_of_q_os_none(flat_o_rows_qs(pre), srow, qrow);
        assert(o_rows_of_q(qs.last()) =~= o_rows_of_q_seq(qs[j].options@));
        assert forall|x: int| 0 <= x < qs[j].options@.len() implies (
        #[trigger] qs[j].options@[x]).base.question_id as int == qrow.id by {}
        lemma_rows_of_q_os_all(qs[j].options@, srow, qrow);
        assert(rows_of_q_os(flat_o_rows_qs(qs), srow, qrow) =~= opt_rows_of(
            srow,
            qrow,
            qs[j].options@,
        ));
    } else {
        lemma_o_block(pre, j, srow, qrow);
        assert forall|x: int| 0 <= x < o_rows_of_q(qs.last()).len() implies (
        #[trigger] o_rows_of_q(qs.last())[x]).question_id != qrow.id by {
            assert(o_rows_of_q(qs.last())[x] == o_row_of(qs[qs.len() - 1].options@[x]));
            assert(qs[qs.len() - 1].options@[x].base.question_id == qs[qs.len() - 1].base.id);
        }
        lemma_rows_of_q_os_none(o_rows_of_q(qs.last()), srow, qrow);
        assert(rows_of_q_os(flat_o_rows_qs(qs), srow, qrow) =~= opt_rows_of(
            srow,
            qrow,
            qs[j].options@,
        ));
    }
}

/// Across the whole tree's flat option rows, only the distinguished
/// question's options match its row.
proof fn lemma_rows_of_q_os_flat(
    secs: Seq<SectionRequest>,
    srow: SecRowV,
    qrow: QRowV,
    i: int,
    j: int,
)
    requires
        0 <= i < secs.len(),
        0 <= j < secs[i].questions@.len(),
        qrow == q_row_of(secs[i].questions@[j]),
        forall|k1: int, k2: int|
            0 <= k1 < k2 < flat_q_rows(secs).len() ==> (#[trigger] flat_q_rows(secs)[k1]).id != (
            #[trigger] flat_q_rows(secs)[k2]).id,
        forall|i2: int, j2: int, x: int|
            0 <= i2 < secs.len() && 0 <= j2 < secs[i2].questions@.len() && 0 <= x
                < secs[i2].questions@[j2].options@.len() ==> (
            #[trigger] secs[i2].questions@[j2].options@[x]).base.question_id
                == secs[i2].questions@[j2].base.id,
    ensures
        rows_of_q_os(flat_o_rows(secs), srow, qrow) == opt_rows_of(
            srow,
            qrow,
            secs[i].questions@[j].options@,
        ),
    decreases secs.len(),
{
    let pre = secs.drop_last();
    assert(forall|i2: int| 0 <= i2 < pre.len() ==> pre[i2] == secs[i2]);
    assert(flat_o_rows(secs) == flat_o_rows(pre) + flat_o_rows_qs(secs.last().questions@));
    lemma_rows_of_q_os_concat(flat_o_rows(pre), flat_o_rows_qs(secs.last().questions@), srow, qrow);
    if i == secs.len() - 1 {
        assert forall|k: int| 0 <= k < flat_o_rows(pre).len() implies (
        #[trigger] flat_o_rows(pre)[k]).question_id != qrow.id by {
            lemma_flat_o_rows_decompose(pre, k);
            let (i2, j2, x) = choose|i2: int, j2: int, x: int|
                0 <= i2 < pre.len() && 0 <= j2 < pre[i2].questions@.len() && 0 <= x
                    < pre[i2].questions@[j2].options@.len() && flat_o_rows(pre)[k] == o_row_of(
                    #[trigger] pre[i2].questions@[j2].options@[x],
                );
            assert(secs[i2].questions@[j2].options@[x].base.question_id
                == secs[i2].questions@[j2].base.id);
            if secs[i2].questions@[j2].base.id == secs[i].questions@[j].base.id {
                lemma_q_id_unique(secs, i2, j2, i, j);
                assert(false);
            }
        }
        lemma_rows_of_q_os_none(flat_o_rows(pre), srow, qrow);
        assert forall|j2: int|
            0 <= j2 < secs[i].questions@.len() && j2 != j implies (
        #[trigger] secs[i].questions@[j2]).base.id != secs[i].questions@[j].base.id by {
            if secs[i].questions@[j2].base.id == secs[i].questions@[j].base.id {
                lemma_q_id_unique(secs, i, j2, i, j);
                assert(false);
            }
        }
        assert(secs.last() == secs[i]);
        lemma_o_block(secs[i].questions@, j, srow, qrow);
        assert(rows_of_q_os(flat_o_rows(secs), srow, qrow) =~= opt_rows_of(
            srow,
            qrow,
            secs[i].questions@[j].options@,
        ));
    } else {
        // the last section's options all belong to other questions
        assert forall|k: int| 0 <= k < flat_o_rows_qs(secs.last().questions@).len() implies (
        #[trigger] flat_o_rows_qs(secs.last().questions@)[k]).question_id != qrow.id by {
            lemma_flat_o_rows_qs_decompose(secs.last().questions@, k);
            let (j2, x) = choose|j2: int, x: int|
                0 <= j2 < secs.last().questions@.len() && 0 <= x
                    < secs.last().questions@[j2].options@.len() && flat_o_rows_qs(
                    secs.last().questions@,
                )[k] == o_row_of(#[trigger] secs.last().questions@[j2].options@[x]);
            assert(secs.last() == secs[secs.len() - 1]);
            assert(secs[secs.len() - 1].questions@[j2].options@[x].base.question_id
                == secs[secs.len() - 1].questions@[j2].base.id);
            if secs[secs.len() - 1].questions@[j2].base.id == secs[i].questions@[j].base.id {
                lemma_q_id_unique(secs, secs.len() - 1, j2, i, j);
                assert(false);
            }
        }
        lemma_rows_of_q_os_none(flat_o_rows_qs(secs.last().questions@), srow, qrow);
        // the prefix inherits the distinctness of the flat question ids
        lemma_flat_q_prefix(secs, secs.len() - 1);
        assert(secs.subrange(0, secs.len() - 1) =~= pre);
        assert forall|k1: int, k2: int|
            0 <= k1 < k2 < flat_q_rows(pre).len() implies (#[trigger] flat_q_rows(pre)[k1]).id != (
        #[trigger] flat_q_rows(pre)[k2]).id by {
            assert(flat_q_rows(secs)[k1] == flat_q_rows(pre)[k1]);
            assert(flat_q_rows(secs)[k2] == flat_q_rows(pre)[k2]);
        }
        lemma_rows_of_q_os_flat(pre, srow, qrow, i, j);
        assert(rows_of_q_os(flat_o_rows(secs), srow, qrow) =~= opt_rows_of(
            srow,
            qrow,
            secs[i].questions@[j].options@,
        ));
    }
}

/// What one question of the inserted tree contributes to the join.
proof fn lemma_q_rows_flat(s: StoreV, req: ExamRequest, s2: StoreV, i: int, j: int)
    requires
        round_trip_pre(s, req),
        s2.options == s.options + flat_o_rows(req.sections@),
        0 <= i < req.sections@.len(),
        0 <= j < req.sections@[i].questions@.len(),
    ensures
        rows_of_q(
            s2,
            sec_rows_of_req(req)[i],
            q_row_of(req.sections@[i].questions@[j]),
        ) == q_block(sec_rows_of_req(req)[i], req.sections@[i].questions@[j]),
{
    let secs = req.sections@;
    let srow = sec_rows_of_req(req)[i];
    let q = secs[i].questions@[j];
    let qrow = q_row_of(q);
    let qid = qrow.id;
    lemma_qpos(secs, i, j);
    let p = q_count_prefix(secs, i) + j;
    // no stored option references this fresh question id
    assert forall|k: int| 0 <= k < s.options.len() implies (#[trigger] s.options[k]).question_id
        != qid by {
        if s.options[k].question_id == qid {
            assert(s.has_q_id(s.options[k].question_id));
            assert(q_seq_has_id(s.questions, flat_q_rows(secs)[p].id));
            assert(false);
        }
    }
    if q.options@.len() == 0 {
        // and none of the tree's option rows does either
        assert forall|k: int| 0 <= k < flat_o_rows(secs).len() implies (#[trigger] flat_o_rows(
            secs,
        )[k]).question_id != qid by {
            lemma_flat_o_rows_decompose(secs, k);
            let (i2, j2, x) = choose|i2: int, j2: int, x: int|
                0 <= i2 < secs.len() && 0 <= j2 < secs[i2].questions@.len() && 0 <= x
                    < secs[i2].questions@[j2].options@.len() && flat_o_rows(secs)[k] == o_row_of(
                    #[trigger] secs[i2].questions@[j2].options@[x],
                );
            assert(secs[i2].questions@[j2].options@[x].base.question_id
                == secs[i2].questions@[j2].base.id);
            if secs[i2].questions@[j2].base.id == q.base.id {
                lemma_q_id_unique(secs, i2, j2, i, j);
                assert(false);
            }
        }
        assert(!q_has_options(s2.options, qid)) by {
            if q_has_options(s2.options, qid) {
                let k = choose|k: int|
                    0 <= k < s2.options.len() && s2.options[k].question_id == qid;
                if k < s.options.len() {
                    assert(s2.options[k] == s.options[k]);
                } else {
                    assert(s2.options[k] == flat_o_rows(secs)[k - s.options.len()]);
                }
                assert(false);
            }
        }
    } else {
        lemma_flat_o_rows_member(secs, i, j, 0);
        let k = choose|k: int|
            0 <= k < flat_o_rows(secs).len() && #[trigger] flat_o_rows(secs)[k] == o_row_of(
                secs[i].questions@[j].options@[0],
            );
        assert(q.options@[0].base.question_id == q.base.id);
        assert(s2.options[s.options.len() + k] == flat_o_rows(secs)[k]);
        assert(q_has_options(s2.options, qid));
        lemma_rows_of_q_os_concat(s.options, flat_o_rows(secs), srow, qrow);
        assert(s2.options =~= s.options + flat_o_rows(secs));
        lemma_rows_of_q_os_none(s.options, srow, qrow);
        lemma_rows_of_q_os_flat(secs, srow, qrow, i, j);
        assert(rows_of_q_os(s2.options, srow, qrow) =~= opt_rows_of(srow, qrow, q.options@));
    }
}

/// What one section's question prefix contributes to the join.
proof fn lemma_sec_q_rows(s: StoreV, req: ExamRequest, s2: StoreV, i: int, t: int)
    requires
        round_trip_pre(s, req),
        s2.options == s.options + flat_o_rows(req.sections@),
        0 <= i < req.sections@.len(),
        0 <= t <= req.sections@[i].questions@.len(),
    ensures
        rows_of_sec_qs(
            s2,
            req.sections@[i].questions@.subrange(0, t).map(
                |j: int, q: QuestionRequest| q_row_of(q),
            ),
            sec_rows_of_req(req)[i],
        ) == sec_q_blocks(sec_rows_of_req(req)[i], req.sections@[i].questions@.subrange(0, t)),
    decreases t,
{
    let secs = req.sections@;
    let srow = sec_rows_of_req(req)[i];
    let qs = secs[i].questions@;
    let rows_t = qs.subrange(0, t).map(|j: int, q: QuestionRequest| q_row_of(q));
    if t == 0 {
        assert(rows_t =~= Seq::<QRowV>::empty());
        assert(qs.subrange(0, 0) =~= Seq::<QuestionRequest>::empty());
    } else {
        lemma_sec_q_rows(s, req, s2, i, t - 1);
        let rows_pre = qs.subrange(0, t - 1).map(|j: int, q: QuestionRequest| q_row_of(q));
        assert(rows_t.drop_last() =~= rows_pre);
        assert(rows_t.last() == q_row_of(qs[t - 1]));
        assert(qs[t - 1].base.section_id == secs[i].base.id);
        assert(q_row_of(qs[t - 1]).section_id == srow.id);
        lemma_q_rows_flat(s, req, s2, i, t - 1);
        assert(qs.subrange(0, t).drop_last() =~= qs.subrange(0, t - 1));
        assert(qs.subrange(0, t).last() == qs[t - 1]);
        assert(rows_of_sec_qs(s2, rows_t, srow) == rows_of_sec_qs(s2, rows_pre, srow) + rows_of_q(
            s2,
            srow,
            q_row_of(qs[t - 1]),
        ));
        assert(sec_q_blocks(srow, qs.subrange(0, t)) == sec_q_blocks(srow, qs.subrange(0, t - 1))
            + q_block(srow, qs[t - 1]));
    }
}

/// What the flat question rows of the first `m` sections contribute to one
/// section's join.
proof fn lemma_sec_rows_flat(s: StoreV, req: ExamRequest, s2: StoreV, i: int, m: int)
    requires
        round_trip_pre(s, req),
        s2.options == s.options + flat_o_rows(req.sections@),
        0 <= i < req.sections@.len(),
        0 <= m <= req.sections@.len(),
    ensures
        rows_of_sec_qs(s2, flat_q_rows(req.sections@.subrange(0, m)), sec_rows_of_req(req)[i]) == (
        if i < m {
            sec_q_blocks(sec_rows_of_req(req)[i], req.sections@[i].questions@)
        } else {
            Seq::<RowV>::empty()
        }),
    decreases m,
{
    let secs = req.sections@;
    let srow = sec_rows_of_req(req)[i];
    if m == 0 {
        assert(secs.subrange(0, 0) =~= Seq::<SectionRequest>::empty());
    } else {
        lemma_sec_rows_flat(s, req, s2, i, m - 1);
        let cur = secs.subrange(0, m);
        assert(cur.drop_last() =~= secs.subrange(0, m - 1));
        assert(cur.last() == secs[m - 1]);
        assert(flat_q_rows(cur) == flat_q_rows(secs.subrange(0, m - 1)) + q_rows_of_sec(
            secs[m - 1],
        ));
        lemma_rows_of_sec_qs_concat(
            s2,
            flat_q_rows(secs.subrange(0, m - 1)),
            q_rows_of_sec(secs[m - 1]),
            srow,
        );
        if m - 1 == i {
            assert(q_rows_of_sec(secs[i]) =~= secs[i].questions@.subrange(
                0,
                secs[i].questions@.len() as int,
            ).map(|j: int, q: QuestionRequest| q_row_of(q))) by {
                assert(secs[i].questions@.subrange(0, secs[i].questions@.len() as int)
                    =~= secs[i].questions@);
            }
            lemma_sec_q_rows(s, req, s2, i, secs[i].questions@.len() as int);
            assert(secs[i].questions@.subrange(0, secs[i].questions@.len() as int)
                =~= secs[i].questions@);
            assert(rows_of_sec_qs(s2, flat_q_rows(cur), srow) =~= sec_q_blocks(
                srow,
                secs[i].questions@,
            ));
        } else {
            // the block of another section matches nothing here
            assert forall|k: int| 0 <= k < q_rows_of_sec(secs[m - 1]).len() implies (
            #[trigger] q_rows_of_sec(secs[m - 1])[k]).section_id != srow.id by {
                assert(q_rows_of_sec(secs[m - 1])[k] == q_row_of(secs[m - 1].questions@[k]));
                assert(secs[m - 1].questions@[k].base.section_id == secs[m - 1].base.id);
                if m - 1 < i {
                    assert(secs[m - 1].base.id != secs[i].base.id);
                } else {
                    assert(secs[i].base.id != secs[m - 1].base.id);
                }
            }
            lemma_rows_of_sec_qs_none(s2, q_rows_of_sec(secs[m - 1]), srow);
            assert(rows_of_sec_qs(s2, flat_q_rows(cur), srow) =~= rows_of_sec_qs(
                s2,
                flat_q_rows(secs.subrange(0, m - 1)),
                srow,
            ));
        }
    }
}

/// What one inserted section contributes to the join.
proof fn lemma_rows_of_sec_flat(s: StoreV, req: ExamRequest, s2: StoreV, i: int)
    requires
        round_trip_pre(s, req),
        s2.questions == s.questions + flat_q_rows(req.sections@),
        s2.options == s.options + flat_o_rows(req.sections@),
        0 <= i < req.sections@.len(),
    ensures
        rows_of_sec(s2, sec_rows_of_req(req)[i]) == sec_block(
            sec_rows_of_req(req)[i],
            req.sections@[i],
        ),
{
    let secs = req.sections@;
    let srow = sec_rows_of_req(req)[i];
    let sid = srow.id;
    // no stored question references this fresh section id
    assert forall|k: int| 0 <= k < s.questions.len() implies (#[trigger] s.questions[k]).section_id
        != sid by {
        if s.questions[k].section_id == sid {
            assert(s.has_sec_id(s.questions[k].section_id));
            assert(sec_seq_has_id(s.sections, sec_rows_of_req(req)[i].id));
            assert(false);
        }
    }
    if secs[i].questions@.len() == 0 {
        assert forall|k: int| 0 <= k < flat_q_rows(secs).len() implies (#[trigger] flat_q_rows(
            secs,
        )[k]).section_id != sid by {
            lemma_flat_q_rows_decompose(secs, k);
            let (i2, j2) = choose|i2: int, j2: int|
                0 <= i2 < secs.len() && 0 <= j2 < secs[i2].questions@.len() && flat_q_rows(secs)[k]
                    == q_row_of(#[trigger] secs[i2].questions@[j2]);
            assert(secs[i2].questions@[j2].base.section_id == secs[i2].base.id);
            if i2 != i {
                if i2 < i {
                    assert(secs[i2].base.id != secs[i].base.id);
                } else {
                    assert(secs[i].base.id != secs[i2].base.id);
                }
            }
        }
        assert(!sec_has_questions(s2.questions, sid)) by {
            if sec_has_questions(s2.questions, sid) {
                let k = choose|k: int|
                    0 <= k < s2.questions.len() && s2.questions[k].section_id == sid;
                if k < s.questions.len() {
                    assert(s2.questions[k] == s.questions[k]);
                } else {
                    assert(s2.questions[k] == flat_q_rows(secs)[k - s.questions.len()]);
                }
                assert(false);
            }
        }
    } else {
        lemma_qpos(secs, i, 0);
        let p = q_count_prefix(secs, i);
        assert(flat_q_rows(secs)[p] == q_row_of(secs[i].questions@[0]));
        assert(secs[i].questions@[0].base.section_id == secs[i].base.id);
        assert(s2.questions[s.questions.len() + p] == flat_q_rows(secs)[p]);
        assert(sec_has_questions(s2.questions, sid));
        lemma_rows_of_sec_qs_concat(s2, s.questions, flat_q_rows(secs), srow);
        assert(s2.questions =~= s.questions + flat_q_rows(secs));
        lemma_rows_of_sec_qs_none(s2, s.questions, srow);
        lemma_sec_rows_flat(s, req, s2, i, secs.len() as int);
        assert(secs.subrange(0, secs.len() as int) =~= secs);
        assert(rows_of_sec_qs(s2, s2.questions, srow) =~= sec_q_blocks(srow, secs[i].questions@));
    }
}

/// The join rows of the whole inserted tree.
proof fn lemma_desc_secs_tree(s: StoreV, req: ExamRequest, s2: StoreV, m: int)
    requires
        round_trip_pre(s, req),
        s2.questions == s.questions + flat_q_rows(req.sections@),
        s2.options == s.options + flat_o_rows(req.sections@),
        0 <= m <= req.sections@.len(),
    ensures
        rows_of_desc_secs(s2, sec_rows_of_req(req).subrange(0, m), req.description.base.id as int)
            == tree_blocks(req, m),
    decreases m,
{
    if m > 0 {
        lemma_desc_secs_tree(s, req, s2, m - 1);
        let rows = sec_rows_of_req(req);
        let cur = rows.subrange(0, m);
        assert(cur.drop_last() =~= rows.subrange(0, m - 1));
        assert(cur.last() == rows[m - 1]);
        assert(rows[m - 1].exam_description_id == req.description.base.id as int);
        lemma_rows_of_sec_flat(s, req, s2, m - 1);
    }
}

/// The flat rows a reader sees for the inserted exam are exactly the
/// tree's blocks, section by section.
proof fn lemma_flat_rows_tree(s: StoreV, req: ExamRequest, s2: StoreV)
    requires
        round_trip_pre(s, req),
        s2.descriptions == s.descriptions.push(req.description.base@),
        s2.sections == s.sections + sec_rows_of_req(req),
        s2.questions == s.questions + flat_q_rows(req.sections@),
        s2.options == s.options + flat_o_rows(req.sections@),
    ensures
        flat_rows(s2, req.exam_id.base.id as int) == tree_blocks(req, req.sections@.len() as int),
{
    let eid = req.exam_id.base.id as int;
    let did = req.description.base.id as int;
    let d = req.description.base@;
    assert(s2.descriptions.drop_last() =~= s.descriptions);
    assert(s2.descriptions.last() == d);
    assert(d.exam_id == eid);
    assert forall|k: int| 0 <= k < s.descriptions.len() implies (
    #[trigger] s.descriptions[k]).exam_id != eid by {
        assert(s.exams.contains(s.descriptions[k].exam_id));
    }
    lemma_flat_rows_descs_none(s2, s.descriptions, eid);
    assert(flat_rows_descs(s2, s2.descriptions, eid) == flat_rows_descs(s2, s.descriptions, eid)
        + rows_of_desc_secs(s2, s2.sections, did));
    lemma_rows_of_desc_secs_concat(s2, s.sections, sec_rows_of_req(req), did);
    assert(s2.sections =~= s.sections + sec_rows_of_req(req));
    assert forall|k: int| 0 <= k < s.sections.len() implies (
    #[trigger] s.sections[k]).exam_description_id != did by {
        if s.sections[k].exam_description_id == did {
            assert(s.has_desc_id(s.sections[k].exam_description_id));
            assert(desc_seq_has_id(s.descriptions, did));
            assert(false);
        }
    }
    lemma_rows_of_desc_secs_none(s2, s.sections, did);
    lemma_desc_secs_tree(s, req, s2, req.sections@.len() as int);
    assert(sec_rows_of_req(req).subrange(0, sec_rows_of_req(req).len() as int) =~= sec_rows_of_req(
        req,
    ));
    assert(flat_rows(s2, eid) =~= tree_blocks(req, req.sections@.len() as int));
}


/// Folding a run of option rows into the accumulator appends each option
/// to the question at the end of the section at the end.
proof fn lemma_add_opt_rows(
    acc: Seq<SecV>,
    base_qs: Seq<QV>,
    q0: QV,
    srow: SecRowV,
    qrow: QRowV,
    os: Seq<OptionRequestModel>,
)
    requires
        forall|x: int| 0 <= x < acc.len() ==> (#[trigger] acc[x]).id != srow.id,
        forall|x: int| 0 <= x < base_qs.len() ==> (#[trigger] base_qs[x]).id != qrow.id,
        q0.id == qrow.id,
        forall|x: int| 0 <= x < os.len() ==> (#[trigger] os[x]).base.question_id as int == qrow.id,
    ensures
        add_rows(
            acc.push(
                SecV {
                    id: srow.id,
                    exam_description_id: srow.exam_description_id,
                    title: srow.title,
                    questions: base_qs.push(q0),
                },
            ),
            opt_rows_of(srow, qrow, os),
        ) == acc.push(
            SecV {
                id: srow.id,
                exam_description_id: srow.exam_description_id,
                title: srow.title,
                questions: base_qs.push(QV { options: q0.options + o_resp_seq(os), ..q0 }),
            },
        ),
    decreases os.len(),
{
    if os.len() == 0 {
        assert(opt_rows_of(srow, qrow, os) =~= Seq::<RowV>::empty());
        assert(o_resp_seq(os) =~= Seq::<OptV>::empty());
        assert(q0.options + o_resp_seq(os) =~= q0.options);
        assert(QV { options: q0.options + o_resp_seq(os), ..q0 } =~~= q0);
        assert(acc.push(
            SecV {
                id: srow.id,
                exam_description_id: srow.exam_description_id,
                title: srow.title,
                questions: base_qs.push(QV { options: q0.options + o_resp_seq(os), ..q0 }),
            },
        ) =~~= acc.push(
            SecV {
                id: srow.id,
                exam_description_id: srow.exam_description_id,
                title: srow.title,
                questions: base_qs.push(q0),
            },
        ));
    } else {
        let pre = os.drop_last();
        assert(forall|x: int| 0 <= x < pre.len() ==> pre[x] == os[x]);
        lemma_add_opt_rows(acc, base_qs, q0, srow, qrow, pre);
        let q_mid = QV { options: q0.options + o_resp_seq(pre), ..q0 };
        let state = acc.push(
            SecV {
                id: srow.id,
                exam_description_id: srow.exam_description_id,
                title: srow.title,
                questions: base_qs.push(q_mid),
            },
        );
        let all = opt_rows_of(srow, qrow, os);
        assert(all.drop_last() =~= opt_rows_of(srow, qrow, pre));
        assert(all.last() == row_full(srow, qrow, o_row_of(os.last())));
        assert(add_rows(
            acc.push(
                SecV {
                    id: srow.id,
                    exam_description_id: srow.exam_description_id,
                    title: srow.title,
                    questions: base_qs.push(q0),
                },
            ),
            all,
        ) == add_row(state, all.last()));
        let r = all.last();
        crate::parse::lemma_sec_index_is(state, srow.id, acc.len() as int);
        assert(crate::parse::has_sec(state, r.section_id));
        let qs_mid = base_qs.push(q_mid);
        crate::parse::lemma_q_index_is(qs_mid, qrow.id, base_qs.len() as int);
        let opt_added = opt_of_row(r);
        assert(opt_added =~~= o_resp_of(os.last())) by {
            assert(o_row_of(os.last()).question_id == os.last().base.question_id as int);
        }
        let q_new = crate::parse::q_add_opt(q_mid, r);
        assert(q_new.options =~= q0.options + o_resp_seq(os)) by {
            assert(o_resp_seq(os).drop_last() =~= o_resp_seq(pre));
            assert(o_resp_seq(os).last() == o_resp_of(os.last()));
        }
        assert(add_row(state, r) =~~= acc.push(
            SecV {
                id: srow.id,
                exam_description_id: srow.exam_description_id,
                title: srow.title,
                questions: base_qs.push(QV { options: q0.options + o_resp_seq(os), ..q0 }),
            },
        ));
    }
}

/// Folding a question's block into an accumulator without its section
/// creates the section holding just that question.
proof fn lemma_add_q_block_new(acc: Seq<SecV>, srow: SecRowV, q: QuestionRequest)
    requires
        forall|x: int| 0 <= x < acc.len() ==> (#[trigger] acc[x]).id != srow.id,
        q.base.section_id as int == srow.id,
        forall|x: int|
            0 <= x < q.options@.len() ==> (#[trigger] q.options@[x]).base.question_id == q.base.id,
    ensures
        add_rows(acc, q_block(srow, q)) == acc.push(
            SecV {
                id: srow.id,
                exam_description_id: srow.exam_description_id,
                title: srow.title,
                questions: seq![q_resp_of(q)],
            },
        ),
{
    let qrow = q_row_of(q);
    assert(!crate::parse::has_sec(acc, srow.id)) by {
        if crate::parse::has_sec(acc, srow.id) {
            let x = choose|x: int| 0 <= x < acc.len() && acc[x].id == srow.id;
            assert(false);
        }
    }
    if q.options@.len() == 0 {
        let r = row_no_opt(srow, qrow);
        let blk = q_block(srow, q);
        assert(blk =~= seq![r]);
        assert(blk.drop_last() =~= Seq::<RowV>::empty());
        assert(blk.last() == r);
        assert(add_rows(acc, blk.drop_last()) == acc);
        assert(add_rows(acc, blk) == add_row(acc, r));
        assert(add_row(acc, r) == acc.push(crate::parse::new_sec(r)));
        assert(q_resp_of(q).options =~= Seq::<OptV>::empty());
        assert(crate::parse::new_sec(r) =~~= SecV {
            id: srow.id,
            exam_description_id: srow.exam_description_id,
            title: srow.title,
            questions: seq![q_resp_of(q)],
        });
    } else {
        let os = q.options@;
        let blk = opt_rows_of(srow, qrow, os);
        let first = blk.subrange(0, 1);
        let rest = blk.subrange(1, blk.len() as int);
        assert(blk =~= first + rest);
        crate::store::lemma_fold_upd_concat(acc, first, rest, row_step());
        let r0 = row_full(srow, qrow, o_row_of(os[0]));
        assert(first.drop_last() =~= Seq::<RowV>::empty());
        assert(first.last() == r0);
        assert(add_rows(acc, first.drop_last()) == acc);
        assert(add_rows(acc, first) == add_row(acc, r0));
        let q0 = crate::parse::new_q(r0);
        assert(add_row(acc, r0) =~~= acc.push(
            SecV {
                id: srow.id,
                exam_description_id: srow.exam_description_id,
                title: srow.title,
                questions: Seq::<QV>::empty().push(q0),
            },
        ));
        let tail = os.subrange(1, os.len() as int);
        assert(rest =~= opt_rows_of(srow, qrow, tail)) by {
            assert(forall|k: int| 0 <= k < tail.len() ==> tail[k] == os[k + 1]);
        }
        lemma_add_opt_rows(acc, Seq::<QV>::empty(), q0, srow, qrow, tail);
        assert(q0.options =~= seq![opt_of_row(r0)]);
        assert(opt_of_row(r0) =~~= o_resp_of(os[0])) by {
            assert(os[0].base.question_id == q.base.id);
        }
        let q_final = QV { options: q0.options + o_resp_seq(tail), ..q0 };
        assert(q_final =~~= q_resp_of(q)) by {
            assert(q_final.options =~= q_resp_of(q).options) by {
                assert(forall|k: int|
                    0 <= k < tail.len() ==> #[trigger] o_resp_seq(tail)[k] == o_resp_of(os[k + 1]));
            }
            assert(q0.section_id == srow.id);
        }
        assert(Seq::<QV>::empty().push(q_final) =~= seq![q_resp_of(q)]);
        assert(add_rows(acc, blk) =~~= acc.push(
            SecV {
                id: srow.id,
                exam_description_id: srow.exam_description_id,
                title: srow.title,
                questions: seq![q_resp_of(q)],
            },
        ));
    }
}

/// Folding a question's block into an accumulator whose last element is
/// its section appends the question to that section.
proof fn lemma_add_q_block_existing(
    acc: Seq<SecV>,
    base_qs: Seq<QV>,
    srow: SecRowV,
    q: QuestionRequest,
)
    requires
        forall|x: int| 0 <= x < acc.len() ==> (#[trigger] acc[x]).id != srow.id,
        forall|x: int| 0 <= x < base_qs.len() ==> (#[trigger] base_qs[x]).id != q.base.id as int,
        q.base.section_id as int == srow.id,
        forall|x: int|
            0 <= x < q.options@.len() ==> (#[trigger] q.options@[x]).base.question_id == q.base.id,
    ensures
        add_rows(
            acc.push(
                SecV {
                    id: srow.id,
                    exam_description_id: srow.exam_description_id,
                    title: srow.title,
                    questions: base_qs,
                },
            ),
            q_block(srow, q),
        ) == acc.push(
            SecV {
                id: srow.id,
                exam_description_id: srow.exam_description_id,
                title: srow.title,
                questions: base_qs.push(q_resp_of(q)),
            },
        ),
{
    let qrow = q_row_of(q);
    let state = acc.push(
        SecV {
            id: srow.id,
            exam_description_id: srow.exam_description_id,
            title: srow.title,
            questions: base_qs,
        },
    );
    crate::parse::lemma_sec_index_is(state, srow.id, acc.len() as int);
    if q.options@.len() == 0 {
        let r = row_no_opt(srow, qrow);
        let blk = q_block(srow, q);
        assert(blk =~= seq![r]);
        assert(blk.drop_last() =~= Seq::<RowV>::empty());
        assert(blk.last() == r);
        assert(add_rows(state, blk.drop_last()) == state);
        assert(add_rows(state, blk) == add_row(state, r));
        assert(!crate::parse::has_q(base_qs, qrow.id)) by {
            if crate::parse::has_q(base_qs, qrow.id) {
                let x = choose|x: int| 0 <= x < base_qs.len() && base_qs[x].id == qrow.id;
                assert(false);
            }
        }
        assert(crate::parse::new_q(r) =~~= q_resp_of(q));
        assert(add_row(state, r) =~~= acc.push(
            SecV {
                id: srow.id,
                exam_description_id: srow.exam_description_id,
                title: srow.title,
                questions: base_qs.push(q_resp_of(q)),
            },
        ));
    } else {
        let os = q.options@;
        let blk = opt_rows_of(srow, qrow, os);
        let first = blk.subrange(0, 1);
        let rest = blk.subrange(1, blk.len() as int);
        assert(blk =~= first + rest);
        crate::store::lemma_fold_upd_concat(state, first, rest, row_step());
        let r0 = row_full(srow, qrow, o_row_of(os[0]));
        assert(first.drop_last() =~= Seq::<RowV>::empty());
        assert(first.last() == r0);
        assert(add_rows(state, first.drop_last()) == state);
        assert(add_rows(state, first) == add_row(state, r0));
        assert(!crate::parse::has_q(base_qs, qrow.id)) by {
            if crate::parse::has_q(base_qs, qrow.id) {
                let x = choose|x: int| 0 <= x < base_qs.len() && base_qs[x].id == qrow.id;
                assert(false);
            }
        }
        let q0 = crate::parse::new_q(r0);
        assert(add_row(state, r0) =~~= acc.push(
            SecV {
                id: srow.id,
                exam_description_id: srow.exam_description_id,
                title: srow.title,
                questions: base_qs.push(q0),
            },
        ));
        let tail = os.subrange(1, os.len() as int);
        assert(rest =~= opt_rows_of(srow, qrow, tail)) by {
            assert(forall|k: int| 0 <= k < tail.len() ==> tail[k] == os[k + 1]);
        }
        lemma_add_opt_rows(acc, base_qs, q0, srow, qrow, tail);
        let q_final = QV { options: q0.options + o_resp_seq(tail), ..q0 };
        assert(q_final =~~= q_resp_of(q)) by {
            assert(q0.options =~= seq![opt_of_row(r0)]);
            assert(opt_of_row(r0) =~~= o_resp_of(os[0])) by {
                assert(os[0].base.question_id == q.base.id);
            }
            assert(q_final.options =~= q_resp_of(q).options) by {
                assert(forall|k: int|
                    0 <= k < tail.len() ==> #[trigger] o_resp_seq(tail)[k] == o_resp_of(os[k + 1]));
            }
        }
        assert(add_rows(state, blk) =~~= acc.push(
            SecV {
                id: srow.id,
                exam_description_id: srow.exam_description_id,
                title: srow.title,
                questions: base_qs.push(q_resp_of(q)),
            },
        ));
    }
}

/// Folding a prefix of one section's question blocks builds the section
/// with exactly those questions.
proof fn lemma_add_sec_q_blocks(req: ExamRequest, acc: Seq<SecV>, i: int, t: int)
    requires
        tree_wf(req),
        0 <= i < req.sections@.len(),
        1 <= t <= req.sections@[i].questions@.len(),
        forall|x: int|
            0 <= x < acc.len() ==> (#[trigger] acc[x]).id != sec_rows_of_req(req)[i].id,
    ensures
        add_rows(acc, sec_q_blocks(sec_rows_of_req(req)[i], req.sections@[i].questions@.subrange(0, t)))
            == acc.push(
            SecV {
                id: sec_rows_of_req(req)[i].id,
                exam_description_id: sec_rows_of_req(req)[i].exam_description_id,
                title: sec_rows_of_req(req)[i].title,
                questions: req.sections@[i].questions@.subrange(0, t).map(
                    |j: int, q: QuestionRequest| q_resp_of(q),
                ),
            },
        ),
    decreases t,
{
    let secs = req.sections@;
    let srow = sec_rows_of_req(req)[i];
    let qs = secs[i].questions@;
    if t == 1 {
        let cur = qs.subrange(0, 1);
        assert(cur.drop_last() =~= Seq::<QuestionRequest>::empty());
        assert(cur.last() == qs[0]);
        assert(sec_q_blocks(srow, cur) == sec_q_blocks(srow, Seq::<QuestionRequest>::empty())
            + q_block(srow, qs[0]));
        assert(sec_q_blocks(srow, cur) =~= q_block(srow, qs[0]));
        lemma_add_q_block_new(acc, srow, qs[0]);
        assert(qs.subrange(0, 1).map(|j: int, q: QuestionRequest| q_resp_of(q)) =~= seq![
            q_resp_of(qs[0]),
        ]);
    } else {
        lemma_add_sec_q_blocks(req, acc, i, t - 1);
        let cur = qs.subrange(0, t);
        assert(cur.drop_last() =~= qs.subrange(0, t - 1));
        assert(cur.last() == qs[t - 1]);
        assert(sec_q_blocks(srow, cur) == sec_q_blocks(srow, qs.subrange(0, t - 1)) + q_block(
            srow,
            qs[t - 1],
        ));
        let base_qs = qs.subrange(0, t - 1).map(|j: int, q: QuestionRequest| q_resp_of(q));
        crate::store::lemma_fold_upd_concat(
            acc,
            sec_q_blocks(srow, qs.subrange(0, t - 1)),
            q_block(srow, qs[t - 1]),
            row_step(),
        );
        assert forall|x: int| 0 <= x < base_qs.len() implies (#[trigger] base_qs[x]).id != qs[t
            - 1].base.id as int by {
            assert(base_qs[x] == q_resp_of(qs[x]));
            if qs[x].base.id == qs[t - 1].base.id {
                lemma_q_id_unique(secs, i, x, i, t - 1);
                assert(false);
            }
        }
        lemma_add_q_block_existing(acc, base_qs, srow, qs[t - 1]);
        assert(base_qs.push(q_resp_of(qs[t - 1])) =~= qs.subrange(0, t).map(
            |j: int, q: QuestionRequest| q_resp_of(q),
        ));
    }
}

/// Folding one section's block appends its full reconstructed section.
proof fn lemma_add_sec_block(req: ExamRequest, acc: Seq<SecV>, i: int)
    requires
        tree_wf(req),
        0 <= i < req.sections@.len(),
        forall|x: int|
            0 <= x < acc.len() ==> (#[trigger] acc[x]).id != sec_rows_of_req(req)[i].id,
    ensures
        add_rows(acc, sec_block(sec_rows_of_req(req)[i], req.sections@[i])) == acc.push(
            sec_resp_of(req, req.sections@[i]),
        ),
{
    let secs = req.sections@;
    let srow = sec_rows_of_req(req)[i];
    if secs[i].questions@.len() == 0 {
        let r = row_no_q(srow);
        let blk = sec_block(srow, secs[i]);
        assert(blk =~= seq![r]);
        assert(blk.drop_last() =~= Seq::<RowV>::empty());
        assert(blk.last() == r);
        assert(add_rows(acc, blk.drop_last()) == acc);
        assert(add_rows(acc, blk) == add_row(acc, r));
        assert(!crate::parse::has_sec(acc, srow.id)) by {
            if crate::parse::has_sec(acc, srow.id) {
                let x = choose|x: int| 0 <= x < acc.len() && acc[x].id == srow.id;
                assert(false);
            }
        }
        assert(crate::parse::new_sec(r) =~~= sec_resp_of(req, secs[i])) by {
            assert(sec_resp_of(req, secs[i]).questions =~= Seq::<QV>::empty());
        }
        assert(add_row(acc, r) =~~= acc.push(sec_resp_of(req, secs[i])));
    } else {
        let t = secs[i].questions@.len() as int;
        lemma_add_sec_q_blocks(req, acc, i, t);
        assert(secs[i].questions@.subrange(0, t) =~= secs[i].questions@);
        assert(acc.push(
            SecV {
                id: srow.id,
                exam_description_id: srow.exam_description_id,
                title: srow.title,
                questions: secs[i].questions@.map(|j: int, q: QuestionRequest| q_resp_of(q)),
            },
        ) =~~= acc.push(sec_resp_of(req, secs[i])));
    }
}

/// Regrouping the tree's join rows rebuilds its sections in order.
proof fn lemma_regroup_tree_blocks(req: ExamRequest, m: int)
    requires
        tree_wf(req),
        0 <= m <= req.sections@.len(),
    ensures
        add_rows(Seq::empty(), tree_blocks(req, m)) == req.sections@.subrange(0, m).map(
            |i: int, sr: SectionRequest| sec_resp_of(req, sr),
        ),
    decreases m,
{
    let secs = req.sections@;
    if m == 0 {
        assert(secs.subrange(0, 0).map(|i: int, sr: SectionRequest| sec_resp_of(req, sr)) =~= Seq::<
            SecV,
        >::empty());
    } else {
        lemma_regroup_tree_blocks(req, m - 1);
        let acc = secs.subrange(0, m - 1).map(|i: int, sr: SectionRequest| sec_resp_of(req, sr));
        crate::store::lemma_fold_upd_concat(
            Seq::empty(),
            tree_blocks(req, m - 1),
            sec_block(sec_rows_of_req(req)[m - 1], secs[m - 1]),
            row_step(),
        );
        assert forall|x: int| 0 <= x < acc.len() implies (#[trigger] acc[x]).id != sec_rows_of_req(
            req,
        )[m - 1].id by {
            assert(acc[x] == sec_resp_of(req, secs[x]));
            assert(secs[x].base.id != secs[m - 1].base.id);
        }
        lemma_add_sec_block(req, acc, m - 1);
        assert(acc.push(sec_resp_of(req, secs[m - 1])) =~= secs.subrange(0, m).map(
            |i: int, sr: SectionRequest| sec_resp_of(req, sr),
        ));
    }
}

/// The round-trip law: a well-formed tree with fresh ids is accepted by the
/// insert, and reading the new exam returns exactly the submitted tree —
/// same description, same sections in order, same questions and options in
/// order, with the insert-time defaults applied.
pub proof fn lemma_create_read_round_trip(s: StoreV, req: ExamRequest)
    requires
        round_trip_pre(s, req),
    ensures
        insert_ok(s, req),
        spec_read(spec_insert_tables(s, req), req.exam_id.base.id as int) == Option::Some(
            resp_of_req(req),
        ),
{
    let eid = req.exam_id.base.id as int;
    let did = req.description.base.id as int;
    lemma_tree_insert(s, req);
    let s2 = spec_insert_tables(s, req);
    assert(s2.exams.contains(eid)) by {
        assert(s2.exams[s2.exams.len() - 1] == eid);
    }
    assert forall|j: int| 0 <= j < s.descriptions.len() implies (
    #[trigger] s.descriptions[j]).exam_id != eid by {
        assert(s.exams.contains(s.descriptions[j].exam_id));
    }
    assert(s2.descriptions[s.descriptions.len() as int] == req.description.base@);
    crate::read::lemma_first_desc_is(s2.descriptions, eid, s.descriptions.len() as int);
    lemma_flat_rows_tree(s, req, s2);
    lemma_regroup_is_fold(flat_rows(s2, eid));
    lemma_regroup_tree_blocks(req, req.sections@.len() as int);
    assert(req.sections@.subrange(0, req.sections@.len() as int) =~= req.sections@);
    assert(spec_read(s2, eid) == Option::Some(
        ExamRespV {
            exam_id: eid,
            description: exam_desc_of_row(req.description.base@),
            sections: regroup(flat_rows(s2, eid)),
        },
    ));
    assert(ExamRespV {
        exam_id: eid,
        description: exam_desc_of_row(req.description.base@),
        sections: regroup(flat_rows(s2, eid)),
    } =~~= resp_of_req(req));
}

} // verus!
