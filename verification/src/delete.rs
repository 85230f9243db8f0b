//! Deletion: removing a whole exam cascades over its description, its
//! sections and their questions and options; removing specific id sets
//! deletes from the three lower tables in one pass; and the
//! propagation-safe variant first expands the requested id sets over the
//! current parent-child relationships so that no orphan row survives.

use vstd::prelude::*;

use crate::errors::AppError;
use crate::exam::DeleteIdsRequest;
use crate::schema::{DescRowV, ORowV, OptionsModel, QRowV, QuestionsModel, SecRowV, SectionsModel};
use crate::store::{contains_i32, ExamStore, StoreV};

verus! {

broadcast use crate::store::group_table_views;

/// An id list contains this value.
pub open spec fn ids_contain(ids: Seq<i32>, x: int) -> bool {
    exists|i: int| 0 <= i < ids.len() && ids[i] as int == x
}

/// The id list contains a value exactly when its integer view does.
pub proof fn lemma_ids_contain(ids: Seq<i32>, x: i32)
    ensures
        ids.contains(x) <==> ids_contain(ids, x as int),
{
    if ids.contains(x) {
        let j = choose|j: int| 0 <= j < ids.len() && ids[j] == x;
        assert(0 <= j < ids.len() && ids[j] as int == x as int);
    }
    if ids_contain(ids, x as int) {
        let j = choose|j: int| 0 <= j < ids.len() && ids[j] as int == x as int;
        assert(ids[j] == x);
    }
}

/// Appending to a filtered sequence: the new element stays exactly when it
/// satisfies the predicate.
pub proof fn lemma_filter_push<A>(s: Seq<A>, x: A, p: spec_fn(A) -> bool)
    ensures
        (s.push(x)).filter(p) == if p(x) {
            s.filter(p).push(x)
        } else {
            s.filter(p)
        },
{
    reveal(Seq::filter);
    assert((s.push(x)).drop_last() =~= s);
}

/// Some description row of this exam has this id.
pub open spec fn is_desc_of_exam(s: StoreV, did: int, eid: int) -> bool {
    exists|i: int|
        0 <= i < s.descriptions.len() && s.descriptions[i].id == did && s.descriptions[i].exam_id
            == eid
}

/// Some section row with this id belongs to this exam.
pub open spec fn is_sec_of_exam(s: StoreV, sid: int, eid: int) -> bool {
    exists|i: int|
        0 <= i < s.sections.len() && s.sections[i].id == sid && is_desc_of_exam(
            s,
            s.sections[i].exam_description_id,
            eid,
        )
}

/// Some question row with this id belongs to this exam.
pub open spec fn is_q_of_exam(s: StoreV, qid: int, eid: int) -> bool {
    exists|i: int|
        0 <= i < s.questions.len() && s.questions[i].id == qid && is_sec_of_exam(
            s,
            s.questions[i].section_id,
            eid,
        )
}

/// The predicate keeping the exam rows that survive a cascade delete.
pub open spec fn keep_exam(eid: int) -> spec_fn(int) -> bool {
    |x: int| x != eid
}

/// The predicate keeping the description rows that survive a cascade
/// delete.
pub open spec fn keep_desc(eid: int) -> spec_fn(DescRowV) -> bool {
    |d: DescRowV| d.exam_id != eid
}

/// The predicate keeping the section rows that survive a cascade delete.
pub open spec fn keep_sec(s: StoreV, eid: int) -> spec_fn(SecRowV) -> bool {
    |r: SecRowV| !is_desc_of_exam(s, r.exam_description_id, eid)
}

/// The predicate keeping the question rows that survive a cascade delete.
pub open spec fn keep_q(s: StoreV, eid: int) -> spec_fn(QRowV) -> bool {
    |r: QRowV| !is_sec_of_exam(s, r.section_id, eid)
}

/// The predicate keeping the option rows that survive a cascade delete.
pub open spec fn keep_o(s: StoreV, eid: int) -> spec_fn(ORowV) -> bool {
    |r: ORowV| !is_q_of_exam(s, r.question_id, eid)
}

/// The store after a cascade delete of one exam: the exam row goes, and
/// with it every description of that exam, every section of those
/// descriptions, every question of those sections and every option of
/// those questions, all judged against the store as it was.
pub open spec fn spec_delete_exam(s: StoreV, eid: int) -> StoreV {
    StoreV {
        exams: s.exams.filter(keep_exam(eid)),
        descriptions: s.descriptions.filter(keep_desc(eid)),
        sections: s.sections.filter(keep_sec(s, eid)),
        questions: s.questions.filter(keep_q(s, eid)),
        options: s.options.filter(keep_o(s, eid)),
    }
}

/// The predicate keeping the section rows not named in the request.
pub open spec fn keep_sec_ids(secs: Seq<i32>) -> spec_fn(SecRowV) -> bool {
    |r: SecRowV| !ids_contain(secs, r.id)
}

/// The predicate keeping the question rows not named in the request.
pub open spec fn keep_q_ids(qs: Seq<i32>) -> spec_fn(QRowV) -> bool {
    |r: QRowV| !ids_contain(qs, r.id)
}

/// The predicate keeping the option rows not named in the request.
pub open spec fn keep_o_ids(os: Seq<i32>) -> spec_fn(ORowV) -> bool {
    |r: ORowV| !ids_contain(os, r.id)
}

/// The store after deleting the requested section, question and option id
/// sets, each table independently.
pub open spec fn spec_delete_related(s: StoreV, secs: Seq<i32>, qs: Seq<i32>, os: Seq<i32>) -> StoreV {
    StoreV {
        exams: s.exams,
        descriptions: s.descriptions,
        sections: s.sections.filter(keep_sec_ids(secs)),
        questions: s.questions.filter(keep_q_ids(qs)),
        options: s.options.filter(keep_o_ids(os)),
    }
}

/// A question id is deleted by the propagation-safe request: either it is
/// named directly, or some question row with that id belongs to a
/// requested section.
pub open spec fn q_deleted(s: StoreV, secs: Seq<i32>, qs: Seq<i32>, qid: int) -> bool {
    ids_contain(qs, qid) || exists|i: int|
        0 <= i < s.questions.len() && s.questions[i].id == qid && ids_contain(
            secs,
            s.questions[i].section_id,
        )
}

/// An option id is deleted by the propagation-safe request: either it is
/// named directly, or its question is deleted.
pub open spec fn o_deleted(s: StoreV, secs: Seq<i32>, qs: Seq<i32>, os: Seq<i32>, r: ORowV) -> bool {
    ids_contain(os, r.id) || q_deleted(s, secs, qs, r.question_id)
}

/// The predicate keeping the question rows that survive the
/// propagation-safe delete.
pub open spec fn keep_q_prop(s: StoreV, secs: Seq<i32>, qs: Seq<i32>) -> spec_fn(QRowV) -> bool {
    |r: QRowV| !q_deleted(s, secs, qs, r.id)
}

/// The predicate keeping the option rows that survive the
/// propagation-safe delete.
pub open spec fn keep_o_prop(s: StoreV, secs: Seq<i32>, qs: Seq<i32>, os: Seq<i32>) -> spec_fn(
    ORowV,
) -> bool {
    |r: ORowV| !o_deleted(s, secs, qs, os, r)
}

/// The store after the propagation-safe delete: the requested sections
/// go; questions go when named or when their section is requested; options
/// go when named or when their question goes; all judged against the
/// snapshot of the store as it was.
pub open spec fn spec_delete_propagated(s: StoreV, secs: Seq<i32>, qs: Seq<i32>, os: Seq<i32>) -> StoreV {
    StoreV {
        exams: s.exams,
        descriptions: s.descriptions,
        sections: s.sections.filter(keep_sec_ids(secs)),
        questions: s.questions.filter(keep_q_prop(s, secs, qs)),
        options: s.options.filter(keep_o_prop(s, secs, qs, os)),
    }
}

/// Whether some description row of the table pairs this id with this exam.
fn desc_of_exam_exists(descs: &Vec<crate::schema::ExamDescriptionModel>, did: i32, eid: i32) -> (r:
    bool)
    ensures
        r == is_desc_of_exam(
            StoreV {
                exams: Seq::empty(),
                descriptions: crate::store::desc_table_v(descs@),
                sections: Seq::empty(),
                questions: Seq::empty(),
                options: Seq::empty(),
            },
            did as int,
            eid as int,
        ),
{
    let ghost sv = StoreV {
        exams: Seq::empty(),
        descriptions: crate::store::desc_table_v(descs@),
        sections: Seq::empty(),
        questions: Seq::empty(),
        options: Seq::empty(),
    };
    let n: usize = descs.len();
    let mut i: usize = 0;
    while i < n
        invariant
            n == descs@.len(),
            0 <= i <= n,
            sv.descriptions == crate::store::desc_table_v(descs@),
            forall|j: int|
                0 <= j < i ==> !(sv.descriptions[j].id == did as int && sv.descriptions[j].exam_id
                    == eid as int),
        decreases n - i,
    {
        if descs[i].id == did && descs[i].exam_id == eid {
            proof {
                assert(sv.descriptions[i as int].id == did as int);
                assert(sv.descriptions[i as int].exam_id == eid as int);
            }
            return true;
        }
        i = i + 1;
    }
    false
}

impl ExamStore {
    /// Deletes one exam and everything below it: the exam row, its
    /// descriptions, their sections, those sections' questions, and those
    /// questions' options. Deleting an id with no matching row is not an
    /// error.
    pub fn delete_exam(&mut self, exam_id: i32) -> (r: Result<(), AppError>)
        ensures
            r is Ok,
            final(self)@ == spec_delete_exam(old(self)@, exam_id as int),
    {
        let ghost sv = self@;
        let ghost eidv = exam_id as int;
        // exams
        let mut new_exams: Vec<i32> = Vec::new();
        let ne: usize = self.exams.len();
        let mut i: usize = 0;
        proof {
            assert(sv.exams.subrange(0, 0) =~= Seq::<int>::empty());
            reveal(Seq::filter);
        }
        while i < ne
            invariant
                sv == self@,
                eidv == exam_id as int,
                ne == self.exams@.len(),
                0 <= i <= ne,
                crate::store::exams_v(new_exams@) == sv.exams.subrange(0, i as int).filter(
                    keep_exam(eidv),
                ),
            decreases ne - i,
        {
            let ghost pre = crate::store::exams_v(new_exams@);
            if self.exams[i] != exam_id {
                new_exams.push(self.exams[i]);
            }
            proof {
                let cur = sv.exams.subrange(0, i + 1);
                assert(cur.drop_last() =~= sv.exams.subrange(0, i as int));
                assert(cur.last() == sv.exams[i as int]);
                lemma_filter_push(
                    sv.exams.subrange(0, i as int),
                    sv.exams[i as int],
                    keep_exam(eidv),
                );
                assert(cur =~= sv.exams.subrange(0, i as int).push(sv.exams[i as int]));
                assert(crate::store::exams_v(new_exams@) =~= cur.filter(keep_exam(eidv)));
            }
            i = i + 1;
        }
        proof {
            assert(sv.exams.subrange(0, ne as int) =~= sv.exams);
        }
        // descriptions
        let mut new_descs: Vec<crate::schema::ExamDescriptionModel> = Vec::new();
        let ndd: usize = self.descriptions.len();
        let mut d: usize = 0;
        proof {
            assert(sv.descriptions.subrange(0, 0) =~= Seq::<DescRowV>::empty());
        }
        while d < ndd
            invariant
                sv == self@,
                eidv == exam_id as int,
                ndd == self.descriptions@.len(),
                0 <= d <= ndd,
                crate::store::desc_table_v(new_descs@) == sv.descriptions.subrange(
                    0,
                    d as int,
                ).filter(keep_desc(eidv)),
            decreases ndd - d,
        {
            if self.descriptions[d].exam_id != exam_id {
                new_descs.push(self.descriptions[d].clone_row());
            }
            proof {
                let cur = sv.descriptions.subrange(0, d + 1);
                assert(cur.drop_last() =~= sv.descriptions.subrange(0, d as int));
                assert(cur.last() == sv.descriptions[d as int]);
                assert(cur =~= sv.descriptions.subrange(0, d as int).push(sv.descriptions[d as int]));
                lemma_filter_push(
                    sv.descriptions.subrange(0, d as int),
                    sv.descriptions[d as int],
                    keep_desc(eidv),
                );
                assert(crate::store::desc_table_v(new_descs@) =~= cur.filter(keep_desc(eidv)));
            }
            d = d + 1;
        }
        proof {
            assert(sv.descriptions.subrange(0, ndd as int) =~= sv.descriptions);
        }
        // sections
        let mut new_secs: Vec<SectionsModel> = Vec::new();
        let nss: usize = self.sections.len();
        let mut b: usize = 0;
        proof {
            assert(sv.sections.subrange(0, 0) =~= Seq::<SecRowV>::empty());
        }
        while b < nss
            invariant
                sv == self@,
                eidv == exam_id as int,
                nss == self.sections@.len(),
                0 <= b <= nss,
                crate::store::sec_table_v(new_secs@) == sv.sections.subrange(0, b as int).filter(
                    keep_sec(sv, eidv),
                ),
            decreases nss - b,
        {
            let gone = desc_of_exam_exists(
                &self.descriptions,
                self.sections[b].exam_description_id,
                exam_id,
            );
            proof {
                assert(is_desc_of_exam(
                    StoreV {
                        exams: Seq::empty(),
                        descriptions: sv.descriptions,
                        sections: Seq::empty(),
                        questions: Seq::empty(),
                        options: Seq::empty(),
                    },
                    sv.sections[b as int].exam_description_id,
                    eidv,
                ) == is_desc_of_exam(sv, sv.sections[b as int].exam_description_id, eidv));
            }
            if !gone {
                new_secs.push(self.sections[b].clone_row());
            }
            proof {
                let cur = sv.sections.subrange(0, b + 1);
                assert(cur.drop_last() =~= sv.sections.subrange(0, b as int));
                assert(cur.last() == sv.sections[b as int]);
                assert(cur =~= sv.sections.subrange(0, b as int).push(sv.sections[b as int]));
                lemma_filter_push(
                    sv.sections.subrange(0, b as int),
                    sv.sections[b as int],
                    keep_sec(sv, eidv),
                );
                assert(crate::store::sec_table_v(new_secs@) =~= cur.filter(keep_sec(sv, eidv)));
            }
            b = b + 1;
        }
        proof {
            assert(sv.sections.subrange(0, nss as int) =~= sv.sections);
        }
        // questions
        let mut new_qs: Vec<QuestionsModel> = Vec::new();
        let nqq: usize = self.questions.len();
        let mut c: usize = 0;
        proof {
            assert(sv.questions.subrange(0, 0) =~= Seq::<QRowV>::empty());
        }
        while c < nqq
            invariant
                sv == self@,
                eidv == exam_id as int,
                nqq == self.questions@.len(),
                0 <= c <= nqq,
                crate::store::q_table_v(new_qs@) == sv.questions.subrange(0, c as int).filter(
                    keep_q(sv, eidv),
                ),
            decreases nqq - c,
        {
            let gone = self.sec_of_exam_exists(self.questions[c].section_id, exam_id);
            if !gone {
                new_qs.push(self.questions[c].clone_row());
            }
            proof {
                let cur = sv.questions.subrange(0, c + 1);
                assert(cur.drop_last() =~= sv.questions.subrange(0, c as int));
                assert(cur.last() == sv.questions[c as int]);
                assert(cur =~= sv.questions.subrange(0, c as int).push(sv.questions[c as int]));
                lemma_filter_push(
                    sv.questions.subrange(0, c as int),
                    sv.questions[c as int],
                    keep_q(sv, eidv),
                );
                assert(crate::store::q_table_v(new_qs@) =~= cur.filter(keep_q(sv, eidv)));
            }
            c = c + 1;
        }
        proof {
            assert(sv.questions.subrange(0, nqq as int) =~= sv.questions);
        }
        // options
        let mut new_os: Vec<OptionsModel> = Vec::new();
        let noo: usize = self.options.len();
        let mut e: usize = 0;
        proof {
            assert(sv.options.subrange(0, 0) =~= Seq::<ORowV>::empty());
        }
        while e < noo
            invariant
                sv == self@,
                eidv == exam_id as int,
                noo == self.options@.len(),
                0 <= e <= noo,
                crate::store::o_table_v(new_os@) == sv.options.subrange(0, e as int).filter(
                    keep_o(sv, eidv),
                ),
            decreases noo - e,
        {
            let gone = self.q_of_exam_exists(self.options[e].question_id, exam_id);
            if !gone {
                new_os.push(self.options[e].clone_row());
            }
            proof {
                let cur = sv.options.subrange(0, e + 1);
                assert(cur.drop_last() =~= sv.options.subrange(0, e as int));
                assert(cur.last() == sv.options[e as int]);
                assert(cur =~= sv.options.subrange(0, e as int).push(sv.options[e as int]));
                lemma_filter_push(
                    sv.options.subrange(0, e as int),
                    sv.options[e as int],
                    keep_o(sv, eidv),
                );
                assert(crate::store::o_table_v(new_os@) =~= cur.filter(keep_o(sv, eidv)));
            }
            e = e + 1;
        }
        proof {
            assert(sv.options.subrange(0, noo as int) =~= sv.options);
        }
        self.exams = new_exams;
        self.descriptions = new_descs;
        self.sections = new_secs;
        self.questions = new_qs;
        self.options = new_os;
        proof {
            assert(self@ =~~= spec_delete_exam(sv, eidv));
        }
        Result::Ok(())
    }

    /// Whether some section row with this id belongs to this exam.
    fn sec_of_exam_exists(&self, sid: i32, eid: i32) -> (r: bool)
        ensures
            r == is_sec_of_exam(self@, sid as int, eid as int),
    {
        let ghost sv = self@;
        let n: usize = self.sections.len();
        let mut i: usize = 0;
        while i < n
            invariant
                sv == self@,
                n == self.sections@.len(),
                0 <= i <= n,
                forall|j: int|
                    0 <= j < i ==> !(sv.sections[j].id == sid as int && is_desc_of_exam(
                        sv,
                        sv.sections[j].exam_description_id,
                        eid as int,
                    )),
            decreases n - i,
        {
            if self.sections[i].id == sid {
                let hit = desc_of_exam_exists(
                    &self.descriptions,
                    self.sections[i].exam_description_id,
                    eid,
                );
                proof {
                    assert(is_desc_of_exam(
                        StoreV {
                            exams: Seq::empty(),
                            descriptions: sv.descriptions,
                            sections: Seq::empty(),
                            questions: Seq::empty(),
                            options: Seq::empty(),
                        },
                        sv.sections[i as int].exam_description_id,
                        eid as int,
                    ) == is_desc_of_exam(sv, sv.sections[i as int].exam_description_id, eid as int));
                }
                if hit {
                    return true;
                }
            }
            i = i + 1;
        }
        false
    }

    /// Whether some question row with this id belongs to this exam.
    fn q_of_exam_exists(&self, qid: i32, eid: i32) -> (r: bool)
        ensures
            r == is_q_of_exam(self@, qid as int, eid as int),
    {
        let ghost sv = self@;
        let n: usize = self.questions.len();
        let mut i: usize = 0;
        while i < n
            invariant
                sv == self@,
                n == self.questions@.len(),
                0 <= i <= n,
                forall|j: int|
                    0 <= j < i ==> !(sv.questions[j].id == qid as int && is_sec_of_exam(
                        sv,
                        sv.questions[j].section_id,
                        eid as int,
                    )),
            decreases n - i,
        {
            if self.questions[i].id == qid {
                let hit = self.sec_of_exam_exists(self.questions[i].section_id, eid);
                if hit {
                    proof {
                        assert(sv.questions[i as int].id == qid as int && is_sec_of_exam(
                            sv,
                            sv.questions[i as int].section_id,
                            eid as int,
                        ));
                    }
                    return true;
                }
            }
            i = i + 1;
        }
        false
    }

    /// Deletes the requested section, question and option id sets, in that
    /// order, each table filtered independently. Ids with no matching row
    /// are not an error.
    pub fn delete_related_entities(&mut self, deletion_data: &DeleteIdsRequest) -> (r: Result<
        (),
        AppError,
    >)
        ensures
            r is Ok,
            final(self)@ == spec_delete_related(
                old(self)@,
                deletion_data.section_ids@,
                deletion_data.question_ids@,
                deletion_data.option_ids@,
            ),
    {
        let ghost sv = self@;
        let ghost secs = deletion_data.section_ids@;
        let ghost qs = deletion_data.question_ids@;
        let ghost os = deletion_data.option_ids@;
        // sections
        let mut new_secs: Vec<SectionsModel> = Vec::new();
        let nss: usize = self.sections.len();
        let mut b: usize = 0;
        proof {
            assert(sv.sections.subrange(0, 0) =~= Seq::<SecRowV>::empty());
            reveal(Seq::filter);
        }
        while b < nss
            invariant
                sv == self@,
                secs == deletion_data.section_ids@,
                nss == self.sections@.len(),
                0 <= b <= nss,
                crate::store::sec_table_v(new_secs@) == sv.sections.subrange(0, b as int).filter(
                    keep_sec_ids(secs),
                ),
            decreases nss - b,
        {
            let named = contains_i32(&deletion_data.section_ids, self.sections[b].id);
            proof {
                lemma_ids_contain(secs, self.sections@[b as int].id);
            }
            if !named {
                new_secs.push(self.sections[b].clone_row());
            }
            proof {
                let cur = sv.sections.subrange(0, b + 1);
                assert(cur.drop_last() =~= sv.sections.subrange(0, b as int));
                assert(cur.last() == sv.sections[b as int]);
                assert(cur =~= sv.sections.subrange(0, b as int).push(sv.sections[b as int]));
                lemma_filter_push(
                    sv.sections.subrange(0, b as int),
                    sv.sections[b as int],
                    keep_sec_ids(secs),
                );
                assert(crate::store::sec_table_v(new_secs@) =~= cur.filter(keep_sec_ids(secs)));
            }
            b = b + 1;
        }
        proof {
            assert(sv.sections.subrange(0, nss as int) =~= sv.sections);
        }
        // questions
        let mut new_qs: Vec<QuestionsModel> = Vec::new();
        let nqq: usize = self.questions.len();
        let mut c: usize = 0;
        proof {
            assert(sv.questions.subrange(0, 0) =~= Seq::<QRowV>::empty());
        }
        while c < nqq
            invariant
                sv == self@,
                qs == deletion_data.question_ids@,
                nqq == self.questions@.len(),
                0 <= c <= nqq,
                crate::store::q_table_v(new_qs@) == sv.questions.subrange(0, c as int).filter(
                    keep_q_ids(qs),
                ),
            decreases nqq - c,
        {
            let named = contains_i32(&deletion_data.question_ids, self.questions[c].id);
            proof {
                lemma_ids_contain(qs, self.questions@[c as int].id);
            }
            if !named {
                new_qs.push(self.questions[c].clone_row());
            }
            proof {
                let cur = sv.questions.subrange(0, c + 1);
                assert(cur.drop_last() =~= sv.questions.subrange(0, c as int));
                assert(cur.last() == sv.questions[c as int]);
                assert(cur =~= sv.questions.subrange(0, c as int).push(sv.questions[c as int]));
                lemma_filter_push(
                    sv.questions.subrange(0, c as int),
                    sv.questions[c as int],
                    keep_q_ids(qs),
                );
                assert(crate::store::q_table_v(new_qs@) =~= cur.filter(keep_q_ids(qs)));
            }
            c = c + 1;
        }
        proof {
            assert(sv.questions.subrange(0, nqq as int) =~= sv.questions);
        }
        // options
        let mut new_os: Vec<OptionsModel> = Vec::new();
        let noo: usize = self.options.len();
        let mut e: usize = 0;
        proof {
            assert(sv.options.subrange(0, 0) =~= Seq::<ORowV>::empty());
        }
        while e < noo
            invariant
                sv == self@,
                os == deletion_data.option_ids@,
                noo == self.options@.len(),
                0 <= e <= noo,
                crate::store::o_table_v(new_os@) == sv.options.subrange(0, e as int).filter(
                    keep_o_ids(os),
                ),
            decreases noo - e,
        {
            let named = contains_i32(&deletion_data.option_ids, self.options[e].id);
            proof {
                lemma_ids_contain(os, self.options@[e as int].id);
            }
            if !named {
                new_os.push(self.options[e].clone_row());
            }
            proof {
                let cur = sv.options.subrange(0, e + 1);
                assert(cur.drop_last() =~= sv.options.subrange(0, e as int));
                assert(cur.last() == sv.options[e as int]);
                assert(cur =~= sv.options.subrange(0, e as int).push(sv.options[e as int]));
                lemma_filter_push(
                    sv.options.subrange(0, e as int),
                    sv.options[e as int],
                    keep_o_ids(os),
                );
                assert(crate::store::o_table_v(new_os@) =~= cur.filter(keep_o_ids(os)));
            }
            e = e + 1;
        }
        proof {
            assert(sv.options.subrange(0, noo as int) =~= sv.options);
        }
        self.sections = new_secs;
        self.questions = new_qs;
        self.options = new_os;
        proof {
            assert(self@ =~~= spec_delete_related(sv, secs, qs, os));
        }
        Result::Ok(())
    }

    /// Whether a question id is deleted by the propagation-safe request.
    fn row_q_deleted(&self, deletion_data: &DeleteIdsRequest, qid: i32) -> (r: bool)
        ensures
            r == q_deleted(
                self@,
                deletion_data.section_ids@,
                deletion_data.question_ids@,
                qid as int,
            ),
    {
        let ghost sv = self@;
        let ghost secs = deletion_data.section_ids@;
        let ghost qs = deletion_data.question_ids@;
        let named = contains_i32(&deletion_data.question_ids, qid);
        proof {
            lemma_ids_contain(qs, qid);
        }
        if named {
            return true;
        }
        let n: usize = self.questions.len();
        let mut i: usize = 0;
        while i < n
            invariant
                sv == self@,
                secs == deletion_data.section_ids@,
                n == self.questions@.len(),
                0 <= i <= n,
                forall|j: int|
                    0 <= j < i ==> !(sv.questions[j].id == qid as int && ids_contain(
                        secs,
                        sv.questions[j].section_id,
                    )),
            decreases n - i,
        {
            if self.questions[i].id == qid {
                let in_sec = contains_i32(&deletion_data.section_ids, self.questions[i].section_id);
                proof {
                    lemma_ids_contain(secs, self.questions@[i as int].section_id);
                }
                if in_sec {
                    proof {
                        assert(sv.questions[i as int].id == qid as int && ids_contain(
                            secs,
                            sv.questions[i as int].section_id,
                        ));
                    }
                    return true;
                }
            }
            i = i + 1;
        }
        false
    }

    /// Deletes the requested id sets after expanding them over the current
    /// parent-child relationships: every question of a requested section,
    /// and every option of a requested or expanded question, is deleted
    /// with it, so no orphan row survives. A request with all three lists
    /// empty changes nothing.
    pub fn delete_with_propagation(&mut self, deletion_data: &DeleteIdsRequest) -> (r: Result<
        (),
        AppError,
    >)
        ensures
            r is Ok,
            final(self)@ == spec_delete_propagated(
                old(self)@,
                deletion_data.section_ids@,
                deletion_data.question_ids@,
                deletion_data.option_ids@,
            ),
    {
        let ghost sv = self@;
        let ghost secs = deletion_data.section_ids@;
        let ghost qs = deletion_data.question_ids@;
        let ghost os = deletion_data.option_ids@;
        // sections
        let mut new_secs: Vec<SectionsModel> = Vec::new();
        let nss: usize = self.sections.len();
        let mut b: usize = 0;
        proof {
            assert(sv.sections.subrange(0, 0) =~= Seq::<SecRowV>::empty());
            reveal(Seq::filter);
        }
        while b < nss
            invariant
                sv == self@,
                secs == deletion_data.section_ids@,
                nss == self.sections@.len(),
                0 <= b <= nss,
                crate::store::sec_table_v(new_secs@) == sv.sections.subrange(0, b as int).filter(
                    keep_sec_ids(secs),
                ),
            decreases nss - b,
        {
            let named = contains_i32(&deletion_data.section_ids, self.sections[b].id);
            proof {
                lemma_ids_contain(secs, self.sections@[b as int].id);
            }
            if !named {
                new_secs.push(self.sections[b].clone_row());
            }
            proof {
                let cur = sv.sections.subrange(0, b + 1);
                assert(cur.drop_last() =~= sv.sections.subrange(0, b as int));
                assert(cur.last() == sv.sections[b as int]);
                assert(cur =~= sv.sections.subrange(0, b as int).push(sv.sections[b as int]));
                lemma_filter_push(
                    sv.sections.subrange(0, b as int),
                    sv.sections[b as int],
                    keep_sec_ids(secs),
                );
                assert(crate::store::sec_table_v(new_secs@) =~= cur.filter(keep_sec_ids(secs)));
            }
            b = b + 1;
        }
        proof {
            assert(sv.sections.subrange(0, nss as int) =~= sv.sections);
        }
        // questions, with expansion over their sections
        let mut new_qs: Vec<QuestionsModel> = Vec::new();
        let nqq: usize = self.questions.len();
        let mut c: usize = 0;
        proof {
            assert(sv.questions.subrange(0, 0) =~= Seq::<QRowV>::empty());
        }
        while c < nqq
            invariant
                sv == self@,
                secs == deletion_data.section_ids@,
                qs == deletion_data.question_ids@,
                nqq == self.questions@.len(),
                0 <= c <= nqq,
                crate::store::q_table_v(new_qs@) == sv.questions.subrange(0, c as int).filter(
                    keep_q_prop(sv, secs, qs),
                ),
            decreases nqq - c,
        {
            let gone = self.row_q_deleted(deletion_data, self.questions[c].id);
            if !gone {
                new_qs.push(self.questions[c].clone_row());
            }
            proof {
                let cur = sv.questions.subrange(0, c + 1);
                assert(cur.drop_last() =~= sv.questions.subrange(0, c as int));
                assert(cur.last() == sv.questions[c as int]);
                assert(cur =~= sv.questions.subrange(0, c as int).push(sv.questions[c as int]));
                lemma_filter_push(
                    sv.questions.subrange(0, c as int),
                    sv.questions[c as int],
                    keep_q_prop(sv, secs, qs),
                );
                assert(crate::store::q_table_v(new_qs@) =~= cur.filter(keep_q_prop(sv, secs, qs)));
            }
            c = c + 1;
        }
        proof {
            assert(sv.questions.subrange(0, nqq as int) =~= sv.questions);
        }
        // options, with expansion over their questions
        let mut new_os: Vec<OptionsModel> = Vec::new();
        let noo: usize = self.options.len();
        let mut e: usize = 0;
        proof {
            assert(sv.options.subrange(0, 0) =~= Seq::<ORowV>::empty());
        }
        while e < noo
            invariant
                sv == self@,
                secs == deletion_data.section_ids@,
                qs == deletion_data.question_ids@,
                os == deletion_data.option_ids@,
                noo == self.options@.len(),
                0 <= e <= noo,
                crate::store::o_table_v(new_os@) == sv.options.subrange(0, e as int).filter(
                    keep_o_prop(sv, secs, qs, os),
                ),
            decreases noo - e,
        {
            let named = contains_i32(&deletion_data.option_ids, self.options[e].id);
            proof {
                lemma_ids_contain(os, self.options@[e as int].id);
            }
            let mut gone = named;
            if !gone {
                gone = self.row_q_deleted(deletion_data, self.options[e].question_id);
            }
            if !gone {
                new_os.push(self.options[e].clone_row());
            }
            proof {
                let cur = sv.options.subrange(0, e + 1);
                assert(cur.drop_last() =~= sv.options.subrange(0, e as int));
                assert(cur.last() == sv.options[e as int]);
                assert(cur =~= sv.options.subrange(0, e as int).push(sv.options[e as int]));
                lemma_filter_push(
                    sv.options.subrange(0, e as int),
                    sv.options[e as int],
                    keep_o_prop(sv, secs, qs, os),
                );
                assert(crate::store::o_table_v(new_os@) =~= cur.filter(keep_o_prop(sv, secs, qs, os)));
            }
            e = e + 1;
        }
        proof {
            assert(sv.options.subrange(0, noo as int) =~= sv.options);
        }
        self.sections = new_secs;
        self.questions = new_qs;
        self.options = new_os;
        proof {
            assert(self@ =~~= spec_delete_propagated(sv, secs, qs, os));
        }
        Result::Ok(())
    }
}

} // verus!
