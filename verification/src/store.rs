//! The relational store of exam content: one in-memory table per entity,
//! with a ghost view per table. The create/read/edit/delete operations on
//! it live in the neighbouring modules and are specified against the ghost
//! view, mirroring the transactional semantics of the backing database.

use vstd::prelude::*;

use crate::schema::{
    DescRowV, ExamDescriptionModel, ORowV, OptionsModel, QRowV, QuestionsModel, SecRowV,
    SectionsModel,
};

verus! {

/// The tables of the exam schema, in insertion order.
pub struct ExamStore {
    pub exams: Vec<i32>,
    pub descriptions: Vec<ExamDescriptionModel>,
    pub sections: Vec<SectionsModel>,
    pub questions: Vec<QuestionsModel>,
    pub options: Vec<OptionsModel>,
}

/// Ghost view of the whole store.
#[verifier::ext_equal]
pub ghost struct StoreV {
    pub exams: Seq<int>,
    pub descriptions: Seq<DescRowV>,
    pub sections: Seq<SecRowV>,
    pub questions: Seq<QRowV>,
    pub options: Seq<ORowV>,
}

/// Spec view of the exam-id table.
pub open spec fn exams_v(v: Seq<i32>) -> Seq<int> {
    v.map(|i: int, x: i32| x as int)
}

/// Spec view of the descriptions table.
pub open spec fn desc_table_v(v: Seq<ExamDescriptionModel>) -> Seq<DescRowV> {
    v.map(|i: int, d: ExamDescriptionModel| d@)
}

/// Spec view of the sections table.
pub open spec fn sec_table_v(v: Seq<SectionsModel>) -> Seq<SecRowV> {
    v.map(|i: int, s: SectionsModel| s@)
}

/// Spec view of the questions table.
pub open spec fn q_table_v(v: Seq<QuestionsModel>) -> Seq<QRowV> {
    v.map(|i: int, q: QuestionsModel| q@)
}

/// Spec view of the options table.
pub open spec fn o_table_v(v: Seq<OptionsModel>) -> Seq<ORowV> {
    v.map(|i: int, o: OptionsModel| o@)
}

impl View for ExamStore {
    type V = StoreV;

    open spec fn view(&self) -> StoreV {
        StoreV {
            exams: exams_v(self.exams@),
            descriptions: desc_table_v(self.descriptions@),
            sections: sec_table_v(self.sections@),
            questions: q_table_v(self.questions@),
            options: o_table_v(self.options@),
        }
    }
}

impl StoreV {
    /// Some description row has this id.
    pub open spec fn has_desc_id(self, id: int) -> bool {
        exists|i: int| 0 <= i < self.descriptions.len() && self.descriptions[i].id == id
    }

    /// Some section row has this id.
    pub open spec fn has_sec_id(self, id: int) -> bool {
        exists|i: int| 0 <= i < self.sections.len() && self.sections[i].id == id
    }

    /// Some question row has this id.
    pub open spec fn has_q_id(self, id: int) -> bool {
        exists|i: int| 0 <= i < self.questions.len() && self.questions[i].id == id
    }

    /// Some option row has this id.
    pub open spec fn has_opt_id(self, id: int) -> bool {
        exists|i: int| 0 <= i < self.options.len() && self.options[i].id == id
    }

    /// Referential integrity and unique ids per table: every description
    /// points at an exam, every section at a description, every question at
    /// a section, every option at a question, and no table holds two rows
    /// with one id.
    pub open spec fn wf(self) -> bool {
        &&& (forall|i: int, j: int|
            0 <= i < j < self.exams.len() ==> self.exams[i] != self.exams[j])
        &&& (forall|i: int, j: int|
            0 <= i < j < self.descriptions.len() ==> self.descriptions[i].id
                != self.descriptions[j].id)
        &&& (forall|i: int, j: int|
            0 <= i < j < self.sections.len() ==> self.sections[i].id != self.sections[j].id)
        &&& (forall|i: int, j: int|
            0 <= i < j < self.questions.len() ==> self.questions[i].id != self.questions[j].id)
        &&& (forall|i: int, j: int|
            0 <= i < j < self.options.len() ==> self.options[i].id != self.options[j].id)
        &&& (forall|i: int|
            0 <= i < self.descriptions.len() ==> self.exams.contains(
                #[trigger] self.descriptions[i].exam_id,
            ))
        &&& (forall|i: int|
            0 <= i < self.sections.len() ==> self.has_desc_id(
                #[trigger] self.sections[i].exam_description_id,
            ))
        &&& (forall|i: int|
            0 <= i < self.questions.len() ==> self.has_sec_id(
                #[trigger] self.questions[i].section_id,
            ))
        &&& (forall|i: int|
            0 <= i < self.options.len() ==> self.has_q_id(
                #[trigger] self.options[i].question_id,
            ))
    }
}

impl ExamStore {
    /// An empty store with no rows in any table.
    pub fn new() -> (s: ExamStore)
        ensures
            s@.exams.len() == 0,
            s@.descriptions.len() == 0,
            s@.sections.len() == 0,
            s@.questions.len() == 0,
            s@.options.len() == 0,
            s@.wf(),
    {
        let s = ExamStore {
            exams: Vec::new(),
            descriptions: Vec::new(),
            sections: Vec::new(),
            questions: Vec::new(),
            options: Vec::new(),
        };
        proof {
            assert(s@.exams =~= Seq::<int>::empty());
            assert(s@.descriptions =~= Seq::<DescRowV>::empty());
            assert(s@.sections =~= Seq::<SecRowV>::empty());
            assert(s@.questions =~= Seq::<QRowV>::empty());
            assert(s@.options =~= Seq::<ORowV>::empty());
        }
        s
    }
}

/// Whether the integer list contains the value.
pub fn contains_i32(v: &Vec<i32>, x: i32) -> (r: bool)
    ensures
        r == v@.contains(x),
{
    let n: usize = v.len();
    let mut i: usize = 0;
    while i < n
        invariant
            n == v@.len(),
            0 <= i <= n,
            forall|j: int| 0 <= j < i ==> v@[j] != x,
        decreases n - i,
    {
        if v[i] == x {
            return true;
        }
        i = i + 1;
    }
    proof {
        if v@.contains(x) {
            let j = choose|j: int| 0 <= j < v@.len() && v@[j] == x;
            assert(false);
        }
    }
    false
}

/// The right fold of `step` over `items`, starting from `table`: the shape
/// shared by the insert-or-ignore and batched-update semantics.
pub open spec fn fold_upd<T, E>(table: Seq<T>, items: Seq<E>, step: spec_fn(Seq<T>, E) -> Seq<T>) -> Seq<T>
    decreases items.len(),
{
    if items.len() == 0 {
        table
    } else {
        step(fold_upd(table, items.drop_last(), step), items.last())
    }
}

/// Folding over a concatenation folds over each part in turn.
pub proof fn lemma_fold_upd_concat<T, E>(
    table: Seq<T>,
    a: Seq<E>,
    b: Seq<E>,
    step: spec_fn(Seq<T>, E) -> Seq<T>,
)
    ensures
        fold_upd(table, a + b, step) == fold_upd(fold_upd(table, a, step), b, step),
    decreases b.len(),
{
    if b.len() == 0 {
        assert(a + b =~= a);
    } else {
        lemma_fold_upd_concat(table, a, b.drop_last(), step);
        assert((a + b).drop_last() =~= a + b.drop_last());
        assert((a + b).last() == b.last());
    }
}


/// The view of a table indexes to the view of its row.
pub broadcast proof fn lemma_exams_v_index(v: Seq<i32>, i: int)
    requires
        0 <= i < v.len(),
    ensures
        #[trigger] exams_v(v)[i] == v[i] as int,
{
}

/// The view of a table indexes to the view of its row.
pub broadcast proof fn lemma_desc_table_index(v: Seq<ExamDescriptionModel>, i: int)
    requires
        0 <= i < v.len(),
    ensures
        #[trigger] desc_table_v(v)[i] == v[i]@,
{
}

/// The view of a table indexes to the view of its row.
pub broadcast proof fn lemma_sec_table_index(v: Seq<SectionsModel>, i: int)
    requires
        0 <= i < v.len(),
    ensures
        #[trigger] sec_table_v(v)[i] == v[i]@,
{
}

/// The view of a table indexes to the view of its row.
pub broadcast proof fn lemma_q_table_index(v: Seq<QuestionsModel>, i: int)
    requires
        0 <= i < v.len(),
    ensures
        #[trigger] q_table_v(v)[i] == v[i]@,
{
}

/// The view of a table indexes to the view of its row.
pub broadcast proof fn lemma_o_table_index(v: Seq<OptionsModel>, i: int)
    requires
        0 <= i < v.len(),
    ensures
        #[trigger] o_table_v(v)[i] == v[i]@,
{
}

/// Appending a row appends its view.
pub broadcast proof fn lemma_exams_v_push(v: Seq<i32>, x: i32)
    ensures
        #[trigger] exams_v(v.push(x)) =~= exams_v(v).push(x as int),
{
    assert forall|j: int| 0 <= j < v.len() + 1 implies exams_v(v.push(x))[j] == exams_v(v).push(
        x as int,
    )[j] by {
        if j < v.len() {
            assert(v.push(x)[j] == v[j]);
        } else {
            assert(v.push(x)[j] == x);
        }
    }
}

/// Appending a row appends its view.
pub broadcast proof fn lemma_desc_table_push(v: Seq<ExamDescriptionModel>, x: ExamDescriptionModel)
    ensures
        #[trigger] desc_table_v(v.push(x)) =~= desc_table_v(v).push(x@),
{
    assert forall|j: int|
        0 <= j < v.len() + 1 implies desc_table_v(v.push(x))[j] == desc_table_v(v).push(x@)[j] by {
        if j < v.len() {
            assert(v.push(x)[j] == v[j]);
        } else {
            assert(v.push(x)[j] == x);
        }
    }
}

/// Appending a row appends its view.
pub broadcast proof fn lemma_sec_table_push(v: Seq<SectionsModel>, x: SectionsModel)
    ensures
        #[trigger] sec_table_v(v.push(x)) =~= sec_table_v(v).push(x@),
{
    assert forall|j: int|
        0 <= j < v.len() + 1 implies sec_table_v(v.push(x))[j] == sec_table_v(v).push(x@)[j] by {
        if j < v.len() {
            assert(v.push(x)[j] == v[j]);
        } else {
            assert(v.push(x)[j] == x);
        }
    }
}

/// Appending a row appends its view.
pub broadcast proof fn lemma_q_table_push(v: Seq<QuestionsModel>, x: QuestionsModel)
    ensures
        #[trigger] q_table_v(v.push(x)) =~= q_table_v(v).push(x@),
{
    assert forall|j: int|
        0 <= j < v.len() + 1 implies q_table_v(v.push(x))[j] == q_table_v(v).push(x@)[j] by {
        if j < v.len() {
            assert(v.push(x)[j] == v[j]);
        } else {
            assert(v.push(x)[j] == x);
        }
    }
}

/// Appending a row appends its view.
pub broadcast proof fn lemma_o_table_push(v: Seq<OptionsModel>, x: OptionsModel)
    ensures
        #[trigger] o_table_v(v.push(x)) =~= o_table_v(v).push(x@),
{
    assert forall|j: int|
        0 <= j < v.len() + 1 implies o_table_v(v.push(x))[j] == o_table_v(v).push(x@)[j] by {
        if j < v.len() {
            assert(v.push(x)[j] == v[j]);
        } else {
            assert(v.push(x)[j] == x);
        }
    }
}

/// The table-view lemmas, used wherever a table is grown row by row.
pub broadcast group group_table_views {
    lemma_exams_v_index,
    lemma_desc_table_index,
    lemma_sec_table_index,
    lemma_q_table_index,
    lemma_o_table_index,
    lemma_exams_v_push,
    lemma_desc_table_push,
    lemma_sec_table_push,
    lemma_q_table_push,
    lemma_o_table_push,
}


/// The integer table contains a value exactly when its view does.
pub proof fn lemma_exams_contains(v: Seq<i32>, x: i32)
    ensures
        v.contains(x) <==> exams_v(v).contains(x as int),
{
    if v.contains(x) {
        let j = choose|j: int| 0 <= j < v.len() && v[j] == x;
        assert(exams_v(v)[j] == x as int);
    }
    if exams_v(v).contains(x as int) {
        let j = choose|j: int| 0 <= j < exams_v(v).len() && exams_v(v)[j] == x as int;
        assert(v[j] as int == x as int);
        assert(v[j] == x);
    }
}

} // verus!
