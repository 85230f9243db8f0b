//! The flat request shapes of the exam API: an exam submitted as parallel
//! lists of sections, questions and options, the deletion payload, and the
//! deletion-expansion data that closes a requested id set over a snapshot
//! of the section -> question -> option relationships.

use vstd::prelude::*;

use crate::schema::{ExamDescriptionModel, OptionsModel, QuestionsModel, SectionsModel};
use crate::store::contains_i32;

verus! {

/// The metadata of a submitted exam.
#[derive(Debug)]
pub struct ExamDescription {
    pub title: String,
    pub description: String,
    pub duration: i32,
    pub passing_score: i32,
}

/// A submitted section, flat form.
#[derive(Debug)]
pub struct Section {
    pub id: i32,
    pub title: String,
}

/// A submitted question, flat form.
#[derive(Debug)]
pub struct Question {
    pub id: i32,
    pub section_id: i32,
    pub text: String,
    pub description: String,
    pub marks: i32,
}

/// A submitted option, flat form.
#[derive(Debug)]
pub struct OptionModel {
    pub id: i32,
    pub question_id: i32,
    pub text: String,
    pub is_correct: bool,
}

/// The id of an exam.
#[derive(Debug, Clone, Copy, PartialEq, Eq, Structural)]
pub struct ExamId {
    pub exam_id: i32,
}

/// An exam submitted as flat parallel lists.
#[derive(Debug)]
pub struct Exam {
    pub exam_description: ExamDescription,
    pub sections: Vec<Section>,
    pub questions: Vec<Question>,
    pub options: Vec<OptionModel>,
}

/// The three id lists of a deletion payload, flat form.
#[derive(Debug)]
pub struct Delete {
    pub section_ids: Vec<i32>,
    pub question_ids: Vec<i32>,
    pub option_ids: Vec<i32>,
}

/// An edit submitted as flat lists plus a deletion payload.
#[derive(Debug)]
pub struct EditExam {
    pub exam_id: ExamId,
    pub exam_description: ExamDescription,
    pub sections: Vec<Section>,
    pub questions: Vec<Question>,
    pub options: Vec<OptionModel>,
    pub delete: Delete,
}

/// One joined result row: the description, section, question and option
/// parts read back together.
#[derive(Debug)]
pub struct QueryResponse {
    pub exam: ExamDescriptionModel,
    pub section: SectionsModel,
    pub question: QuestionsModel,
    pub option: OptionsModel,
}

impl Delete {
    /// Whether all three id lists are empty.
    pub fn is_all_empty(&self) -> (r: bool)
        ensures
            r == (self.section_ids@.len() == 0 && self.question_ids@.len() == 0
                && self.option_ids@.len() == 0),
    {
        self.section_ids.is_empty() && self.question_ids.is_empty() && self.option_ids.is_empty()
    }
}

/// A question id belongs to the expanded deletion set: it is named
/// directly, or the snapshot pairs it with a requested section.
pub open spec fn q_expanded(qs: Seq<i32>, secs: Seq<i32>, map: Seq<(i32, i32, i32)>, x: i32) -> bool {
    qs.contains(x) || exists|t: int|
        0 <= t < map.len() && secs.contains((#[trigger] map[t]).0) && map[t].1 == x
}

/// An option id belongs to the expanded deletion set: it is named
/// directly, or the snapshot pairs it with a requested section or with a
/// question of the expanded set.
pub open spec fn o_expanded(
    os: Seq<i32>,
    qs: Seq<i32>,
    secs: Seq<i32>,
    map: Seq<(i32, i32, i32)>,
    x: i32,
) -> bool {
    os.contains(x) || exists|t: int|
        0 <= t < map.len() && (secs.contains((#[trigger] map[t]).0) || q_expanded(
            qs,
            secs,
            map,
            map[t].1,
        )) && map[t].2 == x
}


/// A question id is marked after the first `upto` snapshot triples have
/// been scanned.
pub open spec fn q_marked(
    qs: Seq<i32>,
    secs: Seq<i32>,
    map: Seq<(i32, i32, i32)>,
    upto: int,
    x: i32,
) -> bool {
    qs.contains(x) || exists|t: int|
        0 <= t < upto && secs.contains((#[trigger] map[t]).0) && map[t].1 == x
}

/// An option id is marked after the first `upto` snapshot triples have
/// been scanned.
pub open spec fn o_marked(
    os: Seq<i32>,
    qs: Seq<i32>,
    secs: Seq<i32>,
    map: Seq<(i32, i32, i32)>,
    upto: int,
    x: i32,
) -> bool {
    os.contains(x) || exists|t: int|
        0 <= t < upto && (secs.contains((#[trigger] map[t]).0) || q_expanded(
            qs,
            secs,
            map,
            map[t].1,
        )) && map[t].2 == x
}

proof fn lemma_push_contains(s: Seq<i32>, y: i32, x: i32)
    ensures
        (s.push(y)).contains(x) <==> (s.contains(x) || x == y),
{
    if (s.push(y)).contains(x) {
        let j = choose|j: int| 0 <= j < s.push(y).len() && s.push(y)[j] == x;
        if j < s.len() {
            assert(s[j] == x);
        }
    }
    if s.contains(x) {
        let j = choose|j: int| 0 <= j < s.len() && s[j] == x;
        assert(s.push(y)[j] == x);
    }
    if x == y {
        assert(s.push(y)[s.len() as int] == x);
    }
}

/// The deletion-expansion state: the requested id sets and a snapshot of
/// the current (section, question, option) relationships.
#[derive(Debug)]
pub struct DeletionData {
    pub section_id_to_delete: Vec<i32>,
    pub question_id_to_delete: Vec<i32>,
    pub option_id_to_delete: Vec<i32>,
    pub section_question_option_map: Vec<(i32, i32, i32)>,
}

impl DeletionData {
    /// Packs the requested id sets with the relationship snapshot.
    pub fn new(
        section_id_to_delete: Vec<i32>,
        question_id_to_delete: Vec<i32>,
        option_id_to_delete: Vec<i32>,
        section_question_option_map: Vec<(i32, i32, i32)>,
    ) -> (r: DeletionData)
        ensures
            r.section_id_to_delete@ == section_id_to_delete@,
            r.question_id_to_delete@ == question_id_to_delete@,
            r.option_id_to_delete@ == option_id_to_delete@,
            r.section_question_option_map@ == section_question_option_map@,
    {
        DeletionData {
            section_id_to_delete,
            question_id_to_delete,
            option_id_to_delete,
            section_question_option_map,
        }
    }

    /// Expands the deletion sets over the snapshot: every question of a
    /// requested section joins the question set, and every option of a
    /// requested section or of a (requested or expanded) question joins
    /// the option set, each id added once. The requested sections and the
    /// snapshot are left as they are.
    pub fn filter_deletions(&mut self)
        ensures
            final(self).section_id_to_delete@ == old(self).section_id_to_delete@,
            final(self).section_question_option_map@ == old(self).section_question_option_map@,
            forall|x: i32|
                final(self).question_id_to_delete@.contains(x) <==> q_expanded(
                    old(self).question_id_to_delete@,
                    old(self).section_id_to_delete@,
                    old(self).section_question_option_map@,
                    x,
                ),
            forall|x: i32|
                final(self).option_id_to_delete@.contains(x) <==> o_expanded(
                    old(self).option_id_to_delete@,
                    old(self).question_id_to_delete@,
                    old(self).section_id_to_delete@,
                    old(self).section_question_option_map@,
                    x,
                ),
    {
        let ghost secs = self.section_id_to_delete@;
        let ghost old_q = self.question_id_to_delete@;
        let ghost old_o = self.option_id_to_delete@;
        let ghost map = self.section_question_option_map@;
        let n: usize = self.section_question_option_map.len();
        // expand the question set over the requested sections
        let mut i: usize = 0;
        while i < n
            invariant
                secs == old(self).section_id_to_delete@,
                old_q == old(self).question_id_to_delete@,
                old_o == old(self).option_id_to_delete@,
                map == old(self).section_question_option_map@,
                n == map.len(),
                0 <= i <= n,
                self.section_id_to_delete@ == secs,
                self.option_id_to_delete@ == old_o,
                self.section_question_option_map@ == map,
                forall|x: i32|
                    self.question_id_to_delete@.contains(x) <==> q_marked(
                        old_q,
                        secs,
                        map,
                        i as int,
                        x,
                    ),
            decreases n - i,
        {
            let ghost pre = self.question_id_to_delete@;
            let triple = self.section_question_option_map[i];
            let in_sec = contains_i32(&self.section_id_to_delete, triple.0);
            if in_sec {
                let already = contains_i32(&self.question_id_to_delete, triple.1);
                if !already {
                    self.question_id_to_delete.push(triple.1);
                }
            }
            proof {
                let m1 = map[i as int].1;
                assert forall|x: i32|
                    self.question_id_to_delete@.contains(x) <==> q_marked(
                        old_q,
                        secs,
                        map,
                        i + 1,
                        x,
                    ) by {
                    lemma_push_contains(pre, m1, x);
                    if self.question_id_to_delete@.contains(x) {
                        if pre.contains(x) {
                            assert(q_marked(old_q, secs, map, i as int, x));
                            if !old_q.contains(x) {
                                let t = choose|t: int|
                                    0 <= t < i && secs.contains((#[trigger] map[t]).0) && map[t].1
                                        == x;
                                assert(0 <= t < i + 1 && secs.contains((#[trigger] map[t]).0)
                                    && map[t].1 == x);
                            }
                        } else {
                            assert(x == m1);
                            assert(secs.contains(map[i as int].0));
                            assert(0 <= i < i + 1 && secs.contains((#[trigger] map[i as int]).0)
                                && map[i as int].1 == x);
                        }
                    }
                    if q_marked(old_q, secs, map, i + 1, x) {
                        if old_q.contains(x) {
                            assert(pre.contains(x));
                            assert(self.question_id_to_delete@.contains(x));
                        } else {
                            let t = choose|t: int|
                                0 <= t < i + 1 && secs.contains((#[trigger] map[t]).0) && map[t].1
                                    == x;
                            if t < i {
                                assert(q_marked(old_q, secs, map, i as int, x)) by {
                                    assert(0 <= t < i && secs.contains((#[trigger] map[t]).0)
                                        && map[t].1 == x);
                                }
                                assert(pre.contains(x));
                                assert(self.question_id_to_delete@.contains(x));
                            } else {
                                assert(in_sec);
                                if !self.question_id_to_delete@.contains(x) {
                                    assert(!pre.contains(m1));
                                    assert(false);
                                }
                            }
                        }
                    }
                }
            }
            i = i + 1;
        }
        // expand the option set over the requested sections and the
        // expanded question set
        let mut j: usize = 0;
        while j < n
            invariant
                secs == old(self).section_id_to_delete@,
                old_q == old(self).question_id_to_delete@,
                old_o == old(self).option_id_to_delete@,
                map == old(self).section_question_option_map@,
                n == map.len(),
                0 <= j <= n,
                self.section_id_to_delete@ == secs,
                self.section_question_option_map@ == map,
                forall|x: i32|
                    self.question_id_to_delete@.contains(x) <==> q_expanded(old_q, secs, map, x),
                forall|x: i32|
                    self.option_id_to_delete@.contains(x) <==> o_marked(
                        old_o,
                        old_q,
                        secs,
                        map,
                        j as int,
                        x,
                    ),
            decreases n - j,
        {
            let ghost pre = self.option_id_to_delete@;
            let triple = self.section_question_option_map[j];
            let in_sec = contains_i32(&self.section_id_to_delete, triple.0);
            let in_q = contains_i32(&self.question_id_to_delete, triple.1);
            if in_sec || in_q {
                let already = contains_i32(&self.option_id_to_delete, triple.2);
                if !already {
                    self.option_id_to_delete.push(triple.2);
                }
            }
            proof {
                let m2 = map[j as int].2;
                assert forall|x: i32|
                    self.option_id_to_delete@.contains(x) <==> o_marked(
                        old_o,
                        old_q,
                        secs,
                        map,
                        j + 1,
                        x,
                    ) by {
                    lemma_push_contains(pre, m2, x);
                    if self.option_id_to_delete@.contains(x) {
                        if pre.contains(x) {
                            assert(o_marked(old_o, old_q, secs, map, j as int, x));
                            if !old_o.contains(x) {
                                let t = choose|t: int|
                                    0 <= t < j && (secs.contains((#[trigger] map[t]).0)
                                        || q_expanded(old_q, secs, map, map[t].1)) && map[t].2
                                        == x;
                                assert(0 <= t < j + 1 && (secs.contains((#[trigger] map[t]).0)
                                    || q_expanded(old_q, secs, map, map[t].1)) && map[t].2 == x);
                            }
                        } else {
                            assert(x == m2);
                            assert(in_sec || in_q);
                            assert(secs.contains(map[j as int].0) || q_expanded(
                                old_q,
                                secs,
                                map,
                                map[j as int].1,
                            ));
                            assert(0 <= j < j + 1 && (secs.contains((#[trigger] map[j as int]).0)
                                || q_expanded(old_q, secs, map, map[j as int].1)) && map[j as int].2
                                == x);
                        }
                    }
                    if o_marked(old_o, old_q, secs, map, j + 1, x) {
                        if old_o.contains(x) {
                            assert(pre.contains(x));
                            assert(self.option_id_to_delete@.contains(x));
                        } else {
                            let t = choose|t: int|
                                0 <= t < j + 1 && (secs.contains((#[trigger] map[t]).0)
                                    || q_expanded(old_q, secs, map, map[t].1)) && map[t].2 == x;
                            if t < j {
                                assert(o_marked(old_o, old_q, secs, map, j as int, x)) by {
                                    assert(0 <= t < j && (secs.contains((#[trigger] map[t]).0)
                                        || q_expanded(old_q, secs, map, map[t].1)) && map[t].2
                                        == x);
                                }
                                assert(pre.contains(x));
                                assert(self.option_id_to_delete@.contains(x));
                            } else {
                                assert(in_sec || in_q);
                                if !self.option_id_to_delete@.contains(x) {
                                    assert(!pre.contains(m2));
                                    assert(false);
                                }
                            }
                        }
                    }
                }
            }
            j = j + 1;
        }
        proof {
            assert forall|x: i32|
                final(self).question_id_to_delete@.contains(x) <==> q_expanded(
                    old_q,
                    secs,
                    map,
                    x,
                ) by {}
            assert forall|x: i32|
                final(self).option_id_to_delete@.contains(x) <==> o_expanded(
                    old_o,
                    old_q,
                    secs,
                    map,
                    x,
                ) by {
                assert(o_marked(old_o, old_q, secs, map, n as int, x) == o_expanded(
                    old_o,
                    old_q,
                    secs,
                    map,
                    x,
                ));
            }
        }
    }
}

} // verus!
