//! Regrouping of flat joined rows into the nested section -> question ->
//! option response tree, with a full functional specification: the result
//! is exactly the left-to-right fold that creates each section and each
//! question on first sight and appends each present option to its question.

use vstd::prelude::*;

use crate::exam::{
    secs_v, OptV, OptionResponseModel, QuestionResponse, QV, SecV, SectionResponse,
};
use crate::errors::AppError;
use crate::llm::{Language, PromptLanguage};
use crate::schema::{
    clone_opt_string, OptionsModel, QuestionsModel, RowV, SectionRow, SectionsModel,
};
use crate::text::{
    clean_llm_spec, ends_with, starts_with, strip_prefix_repeat, strip_suffix_repeat, trim,
    trim_start,
};

verus! {

/// The string carried by an optional column, or the empty string.
pub open spec fn opt_or_empty(o: Option<Seq<char>>) -> Seq<char> {
    match o {
        Option::Some(t) => t,
        Option::None => Seq::empty(),
    }
}

/// The integer carried by an optional column, or zero.
pub open spec fn opt_or_zero(o: Option<int>) -> int {
    match o {
        Option::Some(x) => x,
        Option::None => 0,
    }
}

/// The option built from the option columns of a row.
pub open spec fn opt_of_row(r: RowV) -> OptV {
    OptV {
        id: opt_or_zero(r.option_id),
        question_id: opt_or_zero(r.question_id),
        text: opt_or_empty(r.option_text),
        is_correct: r.option_is_correct,
    }
}

/// Appends the row's option to the question, when the row carries one.
pub open spec fn q_add_opt(q: QV, r: RowV) -> QV {
    match r.option_id {
        Option::Some(_) => QV { options: q.options.push(opt_of_row(r)), ..q },
        Option::None => q,
    }
}

/// The question built on first sight of its id, holding the row's option
/// if one is present.
pub open spec fn new_q(r: RowV) -> QV {
    q_add_opt(
        QV {
            id: opt_or_zero(r.question_id),
            section_id: r.section_id,
            text: opt_or_empty(r.question_text),
            description: r.question_description,
            marks: opt_or_zero(r.question_marks),
            options: Seq::empty(),
        },
        r,
    )
}

/// Whether a question with this id has already been accumulated.
pub open spec fn has_q(qs: Seq<QV>, qid: int) -> bool {
    exists|i: int| 0 <= i < qs.len() && qs[i].id == qid
}

/// The index of the first accumulated question with this id.
pub open spec fn q_index(qs: Seq<QV>, qid: int) -> int
    decreases qs.len(),
{
    if qs.len() == 0 {
        0
    } else if qs[0].id == qid {
        0
    } else {
        1 + q_index(qs.drop_first(), qid)
    }
}

/// Folds one row into a section: a question is created on first sight of
/// its id, and a present option is appended to its question.
pub open spec fn sec_add_row(sec: SecV, r: RowV) -> SecV {
    match r.question_id {
        Option::None => sec,
        Option::Some(qid) => if has_q(sec.questions, qid) {
            SecV {
                questions: sec.questions.update(
                    q_index(sec.questions, qid),
                    q_add_opt(sec.questions[q_index(sec.questions, qid)], r),
                ),
                ..sec
            }
        } else {
            SecV { questions: sec.questions.push(new_q(r)), ..sec }
        },
    }
}

/// The section built on first sight of its id.
pub open spec fn new_sec(r: RowV) -> SecV {
    sec_add_row(
        SecV {
            id: r.section_id,
            exam_description_id: r.section_exam_description_id,
            title: r.section_title,
            questions: Seq::empty(),
        },
        r,
    )
}

/// Whether a section with this id has already been accumulated.
pub open spec fn has_sec(acc: Seq<SecV>, sid: int) -> bool {
    exists|i: int| 0 <= i < acc.len() && acc[i].id == sid
}

/// The index of the first accumulated section with this id.
pub open spec fn sec_index(acc: Seq<SecV>, sid: int) -> int
    decreases acc.len(),
{
    if acc.len() == 0 {
        0
    } else if acc[0].id == sid {
        0
    } else {
        1 + sec_index(acc.drop_first(), sid)
    }
}

/// Folds one row into the accumulated sections.
pub open spec fn add_row(acc: Seq<SecV>, r: RowV) -> Seq<SecV> {
    if has_sec(acc, r.section_id) {
        acc.update(
            sec_index(acc, r.section_id),
            sec_add_row(acc[sec_index(acc, r.section_id)], r),
        )
    } else {
        acc.push(new_sec(r))
    }
}

/// The nested sections reconstructed from a flat row sequence: the
/// left-to-right fold of `add_row` starting from the empty accumulator.
pub open spec fn regroup(rows: Seq<RowV>) -> Seq<SecV>
    decreases rows.len(),
{
    if rows.len() == 0 {
        Seq::empty()
    } else {
        add_row(regroup(rows.drop_last()), rows.last())
    }
}

/// Spec view of a sequence of flat rows.
pub open spec fn rows_v(rows: Seq<SectionRow>) -> Seq<RowV> {
    rows.map(|i: int, r: SectionRow| r@)
}

/// Spec view of a sequence of accumulated questions.
pub open spec fn qs_v(qs: Seq<QuestionResponse>) -> Seq<QV> {
    qs.map(|i: int, q: QuestionResponse| q@)
}

pub(crate) proof fn lemma_sec_index_is(acc: Seq<SecV>, sid: int, k: int)
    requires
        0 <= k < acc.len(),
        acc[k].id == sid,
        forall|j: int| 0 <= j < k ==> acc[j].id != sid,
    ensures
        sec_index(acc, sid) == k,
        has_sec(acc, sid),
    decreases acc.len(),
{
    if k == 0 {
    } else {
        assert(acc[0].id != sid);
        let t = acc.drop_first();
        assert(forall|j: int| 0 <= j < t.len() ==> t[j] == acc[j + 1]);
        lemma_sec_index_is(t, sid, k - 1);
    }
}

pub(crate) proof fn lemma_q_index_is(qs: Seq<QV>, qid: int, k: int)
    requires
        0 <= k < qs.len(),
        qs[k].id == qid,
        forall|j: int| 0 <= j < k ==> qs[j].id != qid,
    ensures
        q_index(qs, qid) == k,
        has_q(qs, qid),
    decreases qs.len(),
{
    if k == 0 {
    } else {
        assert(qs[0].id != qid);
        let t = qs.drop_first();
        assert(forall|j: int| 0 <= j < t.len() ==> t[j] == qs[j + 1]);
        lemma_q_index_is(t, qid, k - 1);
    }
}

/// The index of the first accumulated section with the given id, when
/// there is one.
fn find_section(out: &Vec<SectionResponse>, sid: i32) -> (r: Option<usize>)
    ensures
        match r {
            Option::Some(k) => {
                &&& (k as int) < out@.len()
                &&& secs_v(out@)[k as int].id == sid as int
                &&& forall|j: int| 0 <= j < k ==> secs_v(out@)[j].id != sid as int
                &&& sec_index(secs_v(out@), sid as int) == k as int
                &&& has_sec(secs_v(out@), sid as int)
            },
            Option::None => !has_sec(secs_v(out@), sid as int),
        },
{
    let n: usize = out.len();
    let mut k: usize = 0;
    while k < n
        invariant
            n == out@.len(),
            0 <= k <= n,
            forall|j: int| 0 <= j < k ==> secs_v(out@)[j].id != sid as int,
        decreases n - k,
    {
        if out[k].base.id == sid {
            proof {
                lemma_sec_index_is(secs_v(out@), sid as int, k as int);
            }
            return Option::Some(k);
        }
        k = k + 1;
    }
    Option::None
}

/// The index of the first accumulated question with the given id, when
/// there is one.
fn find_question(qs: &Vec<QuestionResponse>, qid: i32) -> (r: Option<usize>)
    ensures
        match r {
            Option::Some(k) => {
                &&& (k as int) < qs@.len()
                &&& qs_v(qs@)[k as int].id == qid as int
                &&& forall|j: int| 0 <= j < k ==> qs_v(qs@)[j].id != qid as int
                &&& q_index(qs_v(qs@), qid as int) == k as int
                &&& has_q(qs_v(qs@), qid as int)
            },
            Option::None => !has_q(qs_v(qs@), qid as int),
        },
{
    let n: usize = qs.len();
    let mut k: usize = 0;
    while k < n
        invariant
            n == qs@.len(),
            0 <= k <= n,
            forall|j: int| 0 <= j < k ==> qs_v(qs@)[j].id != qid as int,
        decreases n - k,
    {
        if qs[k].base.id == qid {
            proof {
                lemma_q_index_is(qs_v(qs@), qid as int, k as int);
            }
            return Option::Some(k);
        }
        k = k + 1;
    }
    Option::None
}

/// The option built from the option columns of a row.
fn make_option(row: &SectionRow) -> (r: OptionResponseModel)
    requires
        row@.wf(),
        row@.option_id is Some,
    ensures
        r@ == opt_of_row(row@),
{
    OptionResponseModel {
        base: OptionsModel {
            id: match row.option_id {
                Option::Some(x) => x,
                Option::None => 0,
            },
            question_id: match row.question_id {
                Option::Some(x) => x,
                Option::None => 0,
            },
            text: match &row.option_text {
                Option::Some(t) => t.clone(),
                Option::None => String::new(),
            },
            is_correct: row.option_is_correct,
        },
    }
}

/// The question built on first sight of its id, holding the row's option
/// if one is present.
fn make_question(row: &SectionRow) -> (q: QuestionResponse)
    requires
        row@.wf(),
        row@.question_id is Some,
    ensures
        q@ == new_q(row@),
{
    let mut q = QuestionResponse {
        base: QuestionsModel {
            id: match row.question_id {
                Option::Some(x) => x,
                Option::None => 0,
            },
            section_id: row.section_id,
            text: match &row.question_text {
                Option::Some(t) => t.clone(),
                Option::None => String::new(),
            },
            description: clone_opt_string(&row.question_description),
            marks: match row.question_marks {
                Option::Some(m) => m,
                Option::None => 0,
            },
        },
        options: Vec::new(),
    };
    match row.option_id {
        Option::Some(_) => {
            let o = make_option(row);
            q.options.push(o);
        },
        Option::None => {},
    }
    proof {
        assert(q@ =~~= new_q(row@));
    }
    q
}

/// The section built on first sight of its id.
fn make_section(row: &SectionRow) -> (s: SectionResponse)
    requires
        row@.wf(),
    ensures
        s@ == new_sec(row@),
{
    let mut s = SectionResponse {
        base: SectionsModel {
            id: row.section_id,
            exam_description_id: row.section_exam_description_id,
            title: row.section_title.clone(),
        },
        questions: Vec::new(),
    };
    match row.question_id {
        Option::Some(_) => {
            let q = make_question(row);
            s.questions.push(q);
        },
        Option::None => {},
    }
    proof {
        assert(s@ =~~= new_sec(row@));
    }
    s
}

/// Maps the flat rows of the joined hierarchy query to the nested section
/// responses: each section and each question is created on first sight of
/// its id, and every present option is appended to its question, so the
/// join's row multiplication produces no duplicate section or question.
pub fn map_to_section_response(rows: Vec<SectionRow>) -> (out: Vec<SectionResponse>)
    requires
        forall|i: int| 0 <= i < rows@.len() ==> (#[trigger] rows@[i])@.wf(),
    ensures
        secs_v(out@) == regroup(rows_v(rows@)),
{
    let mut out: Vec<SectionResponse> = Vec::new();
    let n: usize = rows.len();
    let mut idx: usize = 0;
    proof {
        assert(rows_v(rows@).subrange(0, 0) =~= Seq::<RowV>::empty());
        assert(secs_v(out@) =~= Seq::<SecV>::empty());
    }
    while idx < n
        invariant
            n == rows@.len(),
            0 <= idx <= n,
            forall|i: int| 0 <= i < rows@.len() ==> (#[trigger] rows@[i])@.wf(),
            secs_v(out@) == regroup(rows_v(rows@).subrange(0, idx as int)),
        decreases n - idx,
    {
        let ghost pre = secs_v(out@);
        let ghost rv = rows@[idx as int]@;
        let row = &rows[idx];
        match find_section(&out, row.section_id) {
            Option::Some(k) => {
                let ghost oldsec = pre[k as int];
                let mut sec = out.remove(k);
                match row.question_id {
                    Option::None => {},
                    Option::Some(qid) => {
                        match find_question(&sec.questions, qid) {
                            Option::Some(qk) => {
                                match row.option_id {
                                    Option::None => {},
                                    Option::Some(_) => {
                                        let ghost oldqs = qs_v(sec.questions@);
                                        let mut q = sec.questions.remove(qk);
                                        let o = make_option(row);
                                        q.options.push(o);
                                        sec.questions.insert(qk, q);
                                        proof {
                                            assert(qs_v(sec.questions@) =~~= oldqs.update(
                                                qk as int,
                                                q_add_opt(oldqs[qk as int], rv),
                                            ));
                                        }
                                    },
                                }
                            },
                            Option::None => {
                                let q = make_question(row);
                                sec.questions.push(q);
                            },
                        }
                    },
                }
                out.insert(k, sec);
                proof {
                    assert(sec@ =~~= sec_add_row(oldsec, rv));
                    assert(secs_v(out@) =~~= add_row(pre, rv));
                }
            },
            Option::None => {
                let s = make_section(row);
                out.push(s);
                proof {
                    assert(secs_v(out@) =~~= add_row(pre, rv));
                }
            },
        }
        proof {
            let full = rows_v(rows@);
            let cur = full.subrange(0, idx + 1);
            assert(cur.drop_last() =~= full.subrange(0, idx as int));
            assert(cur.last() == rv);
            assert(regroup(cur) == add_row(pre, rv));
        }
        idx = idx + 1;
    }
    proof {
        assert(rows_v(rows@).subrange(0, n as int) =~= rows_v(rows@));
    }
    out
}


/// The view of a row list indexes to the view of its row.
pub broadcast proof fn lemma_rows_v_index(v: Seq<SectionRow>, i: int)
    requires
        0 <= i < v.len(),
    ensures
        #[trigger] rows_v(v)[i] == v[i]@,
{
}

/// Appending a row appends its view.
pub broadcast proof fn lemma_rows_v_push(v: Seq<SectionRow>, x: SectionRow)
    ensures
        #[trigger] rows_v(v.push(x)) =~= rows_v(v).push(x@),
{
    assert forall|j: int| 0 <= j < v.len() + 1 implies rows_v(v.push(x))[j] == rows_v(v).push(
        x@,
    )[j] by {
        if j < v.len() {
            assert(v.push(x)[j] == v[j]);
        } else {
            assert(v.push(x)[j] == x);
        }
    }
}

/// The row-view lemmas, used where a flat row list is grown row by row.
pub broadcast group group_row_views {
    lemma_rows_v_index,
    lemma_rows_v_push,
}


/// The prompt language used for a requested language.
pub fn map_to_prompt_language(language: &Language) -> (r: PromptLanguage)
    ensures
        r == match language {
            Language::Arabic => PromptLanguage::Arabic,
            Language::Urdu => PromptLanguage::Urdu,
        },
{
    match language {
        Language::Arabic => PromptLanguage::Arabic,
        Language::Urdu => PromptLanguage::Urdu,
    }
}

/// Strips the code-fence wrapping that generated output often carries:
/// surrounding whitespace, any leading fence markers with an optional
/// `json` tag, and any trailing fence markers.
pub fn clean_llm_json_output(json_text: &str) -> (r: Result<String, AppError>)
    ensures
        r is Ok,
        r->Ok_0@ == clean_llm_spec(json_text@),
{
    proof {
        reveal_strlit("```");
        reveal_strlit("json");
    }
    let t0 = trim(json_text);
    if starts_with(t0.as_str(), "```") {
        let stripped = strip_prefix_repeat(t0.as_str(), "```");
        let t1 = trim_start(stripped.as_str());
        let t2 = if starts_with(t1.as_str(), "json") {
            let tagless = strip_prefix_repeat(t1.as_str(), "json");
            trim_start(tagless.as_str())
        } else {
            t1
        };
        let t3 = if ends_with(t2.as_str(), "```") {
            let unfenced = strip_suffix_repeat(t2.as_str(), "```");
            trim(unfenced.as_str())
        } else {
            t2
        };
        Result::Ok(t3)
    } else {
        Result::Ok(t0)
    }
}


proof fn lemma_sec_index_props(acc: Seq<SecV>, sid: int)
    requires
        has_sec(acc, sid),
    ensures
        0 <= sec_index(acc, sid) < acc.len(),
        acc[sec_index(acc, sid)].id == sid,
    decreases acc.len(),
{
    if acc[0].id == sid {
    } else {
        let t = acc.drop_first();
        assert(forall|j: int| 0 <= j < t.len() ==> t[j] == acc[j + 1]);
        assert(has_sec(t, sid)) by {
            let k = choose|k: int| 0 <= k < acc.len() && acc[k].id == sid;
            assert(t[k - 1] == acc[k]);
        }
        lemma_sec_index_props(t, sid);
    }
}

proof fn lemma_q_index_props(qs: Seq<QV>, qid: int)
    requires
        has_q(qs, qid),
    ensures
        0 <= q_index(qs, qid) < qs.len(),
        qs[q_index(qs, qid)].id == qid,
    decreases qs.len(),
{
    if qs[0].id == qid {
    } else {
        let t = qs.drop_first();
        assert(forall|j: int| 0 <= j < t.len() ==> t[j] == qs[j + 1]);
        assert(has_q(t, qid)) by {
            let k = choose|k: int| 0 <= k < qs.len() && qs[k].id == qid;
            assert(t[k - 1] == qs[k]);
        }
        lemma_q_index_props(t, qid);
    }
}

/// No two accumulated sections share an id.
pub open spec fn sections_distinct(acc: Seq<SecV>) -> bool {
    forall|i: int, j: int| 0 <= i < j < acc.len() ==> acc[i].id != acc[j].id
}

/// Within every accumulated section, no two questions share an id.
pub open spec fn questions_distinct(acc: Seq<SecV>) -> bool {
    forall|i: int, j1: int, j2: int|
        0 <= i < acc.len() && 0 <= j1 < j2 < acc[i].questions.len()
            ==> acc[i].questions[j1].id != acc[i].questions[j2].id
}

/// Regrouping never duplicates: however many join rows repeat a section or
/// a question, the reconstruction holds each section id once and, within
/// each section, each question id once.
pub proof fn lemma_regroup_no_duplicates(rows: Seq<RowV>)
    ensures
        sections_distinct(regroup(rows)),
        questions_distinct(regroup(rows)),
    decreases rows.len(),
{
    if rows.len() > 0 {
        lemma_regroup_no_duplicates(rows.drop_last());
        let acc = regroup(rows.drop_last());
        let r = rows.last();
        if has_sec(acc, r.section_id) {
            lemma_sec_index_props(acc, r.section_id);
            let k = sec_index(acc, r.section_id);
            let sec = acc[k];
            let sec2 = sec_add_row(sec, r);
            assert(sec2.id == sec.id);
            assert(sections_distinct(acc.update(k, sec2)));
            match r.question_id {
                Option::None => {},
                Option::Some(qid) => {
                    if has_q(sec.questions, qid) {
                        lemma_q_index_props(sec.questions, qid);
                        let qk = q_index(sec.questions, qid);
                        assert(q_add_opt(sec.questions[qk], r).id == sec.questions[qk].id);
                        assert(forall|x: int|
                            0 <= x < sec2.questions.len() ==> #[trigger] sec2.questions[x].id
                                == sec.questions[x].id);
                    } else {
                        assert(forall|x: int|
                            0 <= x < sec.questions.len() ==> #[trigger] sec.questions[x].id
                                != qid);
                        assert(new_q(r).id == qid);
                    }
                },
            }
            assert(questions_distinct(acc.update(k, sec2)));
        } else {
            assert(forall|x: int| 0 <= x < acc.len() ==> #[trigger] acc[x].id != r.section_id);
            assert(new_sec(r).id == r.section_id);
            assert(sections_distinct(acc.push(new_sec(r))));
            assert(new_sec(r).questions.len() <= 1);
            assert(questions_distinct(acc.push(new_sec(r))));
        }
    }
}

} // verus!
