//! The laws of the store operations: what holds of every exam tree and
//! every store, proved once and for all against the specifications that
//! the operations' own contracts use.

use vstd::prelude::*;

use crate::delete::{
    ids_contain, is_desc_of_exam, is_q_of_exam, is_sec_of_exam, keep_desc, keep_exam, keep_o,
    keep_o_prop, keep_q, keep_q_prop, keep_sec, keep_sec_ids, q_deleted, spec_delete_exam,
    spec_delete_propagated,
};
use crate::edit::{delete_all_empty, spec_edit_exam};
use crate::exam::EditExamRequest;
use crate::read::spec_read;
use crate::store::StoreV;

verus! {

broadcast use vstd::seq_lib::group_filter_ensures;

/// A filter that every element passes changes nothing.
proof fn lemma_filter_all<A>(s: Seq<A>, p: spec_fn(A) -> bool)
    requires
        forall|i: int| 0 <= i < s.len() ==> p(s[i]),
    ensures
        s.filter(p) == s,
    decreases s.len(),
{
    reveal(Seq::filter);
    if s.len() > 0 {
        assert(forall|i: int| 0 <= i < s.len() - 1 ==> s.drop_last()[i] == s[i]);
        lemma_filter_all(s.drop_last(), p);
        assert(s.filter(p) =~= s);
    }
}

/// Every element of a filtered sequence comes from the sequence filtered.
proof fn lemma_filter_subset<A>(s: Seq<A>, p: spec_fn(A) -> bool)
    ensures
        forall|i: int| 0 <= i < s.filter(p).len() ==> s.contains(#[trigger] s.filter(p)[i]),
    decreases s.len(),
{
    reveal(Seq::filter);
    if s.len() > 0 {
        let t = s.drop_last();
        lemma_filter_subset(t, p);
        assert forall|i: int| 0 <= i < s.filter(p).len() implies s.contains(
            #[trigger] s.filter(p)[i],
        ) by {
            if i < t.filter(p).len() {
                assert(t.filter(p)[i] == s.filter(p)[i]);
                assert(t.contains(t.filter(p)[i]));
                let j = choose|j: int| 0 <= j < t.len() && t[j] == t.filter(p)[i];
                assert(s[j] == t[j]);
            } else {
                assert(s.filter(p)[i] == s.last());
                assert(s[s.len() - 1] == s.last());
            }
        }
    }
}

/// An edit request that submits no sections and an all-empty deletion
/// payload leaves the store exactly as it was.
pub proof fn lemma_empty_edit_is_noop(s: StoreV, req: EditExamRequest)
    requires
        req.sections@.len() == 0,
        delete_all_empty(req),
    ensures
        spec_edit_exam(s, req) == s,
{
    assert(spec_edit_exam(s, req) =~~= s);
}

/// Deleting an exam twice gives the same store as deleting it once: the
/// second cascade finds nothing left to remove.
pub proof fn lemma_delete_exam_idempotent(s: StoreV, eid: int)
    ensures
        spec_delete_exam(spec_delete_exam(s, eid), eid) == spec_delete_exam(s, eid),
{
    let s1 = spec_delete_exam(s, eid);
    assert forall|i: int| 0 <= i < s1.exams.len() implies keep_exam(eid)(s1.exams[i]) by {
        assert(s1.exams[i] == s.exams.filter(keep_exam(eid))[i]);
    }
    lemma_filter_all(s1.exams, keep_exam(eid));
    assert forall|i: int| 0 <= i < s1.descriptions.len() implies keep_desc(eid)(
        s1.descriptions[i],
    ) by {
        assert(s1.descriptions[i] == s.descriptions.filter(keep_desc(eid))[i]);
    }
    lemma_filter_all(s1.descriptions, keep_desc(eid));
    // after the cascade no description of the exam remains, so nothing in
    // the lower tables is judged as belonging to it any more
    assert forall|did: int| !is_desc_of_exam(s1, did, eid) by {
        if is_desc_of_exam(s1, did, eid) {
            let i = choose|i: int|
                0 <= i < s1.descriptions.len() && s1.descriptions[i].id == did
                    && s1.descriptions[i].exam_id == eid;
            assert(keep_desc(eid)(s1.descriptions[i]));
            assert(false);
        }
    }
    assert forall|i: int| 0 <= i < s1.sections.len() implies keep_sec(s1, eid)(s1.sections[i]) by {}
    lemma_filter_all(s1.sections, keep_sec(s1, eid));
    assert forall|sid: int| !is_sec_of_exam(s1, sid, eid) by {}
    assert forall|i: int| 0 <= i < s1.questions.len() implies keep_q(s1, eid)(s1.questions[i]) by {}
    lemma_filter_all(s1.questions, keep_q(s1, eid));
    assert forall|qid: int| !is_q_of_exam(s1, qid, eid) by {}
    assert forall|i: int| 0 <= i < s1.options.len() implies keep_o(s1, eid)(s1.options[i]) by {}
    lemma_filter_all(s1.options, keep_o(s1, eid));
    assert(spec_delete_exam(s1, eid) =~~= s1);
}

/// Cascade completeness: after an exam is deleted, its id is gone from the
/// exam table, and no description, section, question or option that
/// belonged to it remains.
pub proof fn lemma_cascade_completeness(s: StoreV, eid: int)
    ensures
        !spec_delete_exam(s, eid).exams.contains(eid),
        forall|i: int|
            0 <= i < spec_delete_exam(s, eid).descriptions.len() ==> (#[trigger] spec_delete_exam(
                s,
                eid,
            ).descriptions[i]).exam_id != eid,
        forall|i: int|
            0 <= i < spec_delete_exam(s, eid).sections.len() ==> !is_desc_of_exam(
                s,
                (#[trigger] spec_delete_exam(s, eid).sections[i]).exam_description_id,
                eid,
            ),
        forall|i: int|
            0 <= i < spec_delete_exam(s, eid).questions.len() ==> !is_sec_of_exam(
                s,
                (#[trigger] spec_delete_exam(s, eid).questions[i]).section_id,
                eid,
            ),
        forall|i: int|
            0 <= i < spec_delete_exam(s, eid).options.len() ==> !is_q_of_exam(
                s,
                (#[trigger] spec_delete_exam(s, eid).options[i]).question_id,
                eid,
            ),
{
    let s1 = spec_delete_exam(s, eid);
    if s1.exams.contains(eid) {
        let i = choose|i: int| 0 <= i < s1.exams.len() && s1.exams[i] == eid;
        assert(keep_exam(eid)(s1.exams[i]));
        assert(false);
    }
    assert forall|i: int| 0 <= i < s1.descriptions.len() implies (
    #[trigger] s1.descriptions[i]).exam_id != eid by {
        assert(keep_desc(eid)(s1.descriptions[i]));
    }
    assert forall|i: int| 0 <= i < s1.sections.len() implies !is_desc_of_exam(
        s,
        (#[trigger] s1.sections[i]).exam_description_id,
        eid,
    ) by {
        assert(keep_sec(s, eid)(s1.sections[i]));
    }
    assert forall|i: int| 0 <= i < s1.questions.len() implies !is_sec_of_exam(
        s,
        (#[trigger] s1.questions[i]).section_id,
        eid,
    ) by {
        assert(keep_q(s, eid)(s1.questions[i]));
    }
    assert forall|i: int| 0 <= i < s1.options.len() implies !is_q_of_exam(
        s,
        (#[trigger] s1.options[i]).question_id,
        eid,
    ) by {
        assert(keep_o(s, eid)(s1.options[i]));
    }
}

/// Deletion propagation: after the propagation-safe delete, no surviving
/// question references a requested section, and no surviving option is
/// named, references a named question, or references a question whose
/// section was requested — deleting a section takes its whole subtree.
pub proof fn lemma_deletion_propagation(s: StoreV, secs: Seq<i32>, qs: Seq<i32>, os: Seq<i32>)
    ensures
        forall|i: int|
            0 <= i < spec_delete_propagated(s, secs, qs, os).sections.len() ==> !ids_contain(
                secs,
                (#[trigger] spec_delete_propagated(s, secs, qs, os).sections[i]).id,
            ),
        forall|i: int|
            0 <= i < spec_delete_propagated(s, secs, qs, os).questions.len() ==> !ids_contain(
                secs,
                (#[trigger] spec_delete_propagated(s, secs, qs, os).questions[i]).section_id,
            ) && !ids_contain(qs, spec_delete_propagated(s, secs, qs, os).questions[i].id),
        forall|i: int|
            0 <= i < spec_delete_propagated(s, secs, qs, os).options.len() ==> !ids_contain(
                os,
                (#[trigger] spec_delete_propagated(s, secs, qs, os).options[i]).id,
            ) && !q_deleted(
                s,
                secs,
                qs,
                spec_delete_propagated(s, secs, qs, os).options[i].question_id,
            ),
{
    let s1 = spec_delete_propagated(s, secs, qs, os);
    assert forall|i: int| 0 <= i < s1.sections.len() implies !ids_contain(
        secs,
        (#[trigger] s1.sections[i]).id,
    ) by {
        assert(keep_sec_ids(secs)(s1.sections[i]));
    }
    assert forall|i: int| 0 <= i < s1.questions.len() implies !ids_contain(
        secs,
        (#[trigger] s1.questions[i]).section_id,
    ) && !ids_contain(qs, s1.questions[i].id) by {
        assert(keep_q_prop(s, secs, qs)(s1.questions[i]));
        let r = s1.questions[i];
        assert(s.questions.contains(r)) by {
            lemma_filter_subset(s.questions, keep_q_prop(s, secs, qs));
            assert(s.questions.filter(keep_q_prop(s, secs, qs))[i] == r);
        }
        if ids_contain(secs, r.section_id) {
            let j = choose|j: int| 0 <= j < s.questions.len() && s.questions[j] == r;
            assert(s.questions[j].id == r.id && ids_contain(secs, s.questions[j].section_id));
            assert(q_deleted(s, secs, qs, r.id));
            assert(false);
        }
    }
    assert forall|i: int| 0 <= i < s1.options.len() implies !ids_contain(
        os,
        (#[trigger] s1.options[i]).id,
    ) && !q_deleted(s, secs, qs, s1.options[i].question_id) by {
        assert(keep_o_prop(s, secs, qs, os)(s1.options[i]));
    }
}

/// Atomicity of a failed insert: the insert operation leaves the store
/// untouched on failure, and a read of an exam id that is not in the exam
/// table finds nothing — so no part of a rejected tree is ever visible.
pub proof fn lemma_failed_insert_invisible(s: StoreV, eid: int)
    requires
        !s.exams.contains(eid),
    ensures
        spec_read(s, eid) is None,
{
}

} // verus!
