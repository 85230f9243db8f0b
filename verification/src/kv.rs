//! The compute side of the hash-structured key-value backend: key
//! construction, the hash entries written for an exam, the metadata and
//! question decoding of what is read back, and the grouping of questions
//! by section. The store calls themselves are made by the surrounding
//! program.

use vstd::prelude::*;
use vstd::string::*;

use crate::text::{dec_str, parse_u32, parse_u32_spec, u32_to_string};

verus! {


/// What parsing a JSON text as a list of strings yields, when it is one.
pub uninterp spec fn json_string_list(s: Seq<char>) -> Option<Seq<Seq<char>>>;

/// The JSON text for a list of strings.
pub uninterp spec fn json_of_string_list(v: Seq<Seq<char>>) -> Seq<char>;

/// Relies on serde_json::from_str for `Vec<String>`: what it returns
/// depends on the input text alone.
#[verifier::external_body]
pub(crate) fn parse_string_list(s: &str) -> (r: Option<Vec<String>>)
    ensures
        r is Some <==> json_string_list(s@) is Some,
        r is Some ==> r->0.deep_view() == json_string_list(s@)->0,
{
    match serde_json::from_str::<Vec<String>>(s) {
        Ok(v) => Some(v),
        Err(_) => None,
    }
}

/// Relies on serde_json::to_string for `Vec<String>`: what it returns
/// depends on the values alone, and serializing a list of strings does not
/// fail.
#[verifier::external_body]
pub(crate) fn string_list_to_json(v: &Vec<String>) -> (r: String)
    ensures
        r@ == json_of_string_list(v.deep_view()),
{
    serde_json::to_string(v).unwrap_or_default()
}

/// Relies on uuid::Uuid::new_v4 and its hyphenated display form: a fresh
/// random identifier rendered as 36 characters.
#[verifier::external_body]
fn random_uuid_string() -> (r: String)
    ensures
        r@.len() == 36,
{
    uuid::Uuid::new_v4().to_string()
}

/// A short random identifier: the first `length` characters of a random
/// identifier (all of it when `length` exceeds its size).
pub fn get_short_uuid(length: usize) -> (r: String)
    ensures
        r@.len() == if length <= 36 {
            length as int
        } else {
            36
        },
{
    let u = random_uuid_string();
    let n: usize = u.as_str().unicode_len();
    if length >= n {
        u
    } else {
        String::from_str(u.as_str().substring_char(0, length))
    }
}

/// The key of an exam's hash record.
pub open spec fn exam_key_spec(exam_id: Seq<char>) -> Seq<char> {
    "exam:"@ + exam_id
}

/// The key of a question's hash record under its exam.
pub open spec fn question_key_spec(exam_id: Seq<char>, question_id: Seq<char>) -> Seq<char> {
    "exam:"@ + exam_id + ":question:"@ + question_id
}

/// The key of a cached verse.
pub open spec fn quran_key_spec(surah: int, verse: int) -> Seq<char> {
    "quran:"@ + dec_str(surah) + ":"@ + dec_str(verse)
}

/// The key of an exam's hash record.
pub fn exam_key(exam_id: &str) -> (r: String)
    ensures
        r@ == exam_key_spec(exam_id@),
{
    let mut out = String::from_str("exam:");
    out.append(exam_id);
    out
}

/// The key of a question's hash record under its exam.
pub fn question_key(exam_id: &str, question_id: &str) -> (r: String)
    ensures
        r@ == question_key_spec(exam_id@, question_id@),
{
    let mut out = String::from_str("exam:");
    out.append(exam_id);
    out.append(":question:");
    out.append(question_id);
    out
}

/// The key of a cached verse.
pub fn quran_key(surah: u32, verse: u32) -> (r: String)
    ensures
        r@ == quran_key_spec(surah as int, verse as int),
{
    let mut out = String::from_str("quran:");
    let s = u32_to_string(surah);
    out.append(s.as_str());
    out.append(":");
    let v = u32_to_string(verse);
    out.append(v.as_str());
    out
}

/// The first value stored under this field name, if any.
pub open spec fn lookup_field(fields: Seq<(String, String)>, key: Seq<char>) -> Option<Seq<char>>
    decreases fields.len(),
{
    if fields.len() == 0 {
        Option::None
    } else if fields[0].0@ == key {
        Option::Some(fields[0].1@)
    } else {
        lookup_field(fields.drop_first(), key)
    }
}

/// The first value stored under this field name, or the empty string.
pub open spec fn field_or_empty(fields: Seq<(String, String)>, key: Seq<char>) -> Seq<char> {
    match lookup_field(fields, key) {
        Option::Some(v) => v,
        Option::None => Seq::empty(),
    }
}

/// The first value stored under this field name parsed as a number, or
/// zero.
pub open spec fn field_or_zero(fields: Seq<(String, String)>, key: Seq<char>) -> u32 {
    match lookup_field(fields, key) {
        Option::Some(v) => match parse_u32_spec(v) {
            Option::Some(n) => n,
            Option::None => 0u32,
        },
        Option::None => 0u32,
    }
}

/// Looks up the first value stored under this field name.
fn get_field(fields: &Vec<(String, String)>, key: &str) -> (r: Option<String>)
    ensures
        match r {
            Option::Some(v) => lookup_field(fields@, key@) == Option::Some(v@),
            Option::None => lookup_field(fields@, key@) is None,
        },
{
    let key_string = String::from_str(key);
    let n: usize = fields.len();
    let mut i: usize = 0;
    proof {
        assert(fields@.skip(0) =~= fields@);
    }
    while i < n
        invariant
            n == fields@.len(),
            0 <= i <= n,
            key_string@ == key@,
            lookup_field(fields@, key@) == lookup_field(fields@.skip(i as int), key@),
        decreases n - i,
    {
        let ghost t = fields@.skip(i as int);
        if fields[i].0 == key_string {
            proof {
                assert(t[0] == fields@[i as int]);
            }
            return Option::Some(fields[i].1.clone());
        }
        proof {
            assert(t[0] == fields@[i as int]);
            assert(t.drop_first() =~= fields@.skip(i + 1));
        }
        i = i + 1;
    }
    proof {
        assert(fields@.skip(n as int) =~= Seq::<(String, String)>::empty());
    }
    Option::None
}

/// The metadata of one exam record: its name, its details text, and its
/// duration.
#[derive(Debug)]
pub struct ExamMetadata {
    pub exam_name: String,
    pub details: String,
    pub duration: u32,
}

/// Decodes an exam's metadata from its hash fields: missing name or
/// details default to the empty string, and a missing or unparseable
/// duration defaults to zero.
pub fn exam_metadata_from_fields(fields: &Vec<(String, String)>) -> (r: ExamMetadata)
    ensures
        r.exam_name@ == field_or_empty(fields@, "name"@),
        r.details@ == field_or_empty(fields@, "details"@),
        r.duration == field_or_zero(fields@, "duration"@),
{
    let exam_name = match get_field(fields, "name") {
        Option::Some(v) => v,
        Option::None => String::new(),
    };
    let details = match get_field(fields, "details") {
        Option::Some(v) => v,
        Option::None => String::new(),
    };
    let duration = match get_field(fields, "duration") {
        Option::Some(v) => match parse_u32(v.as_str()) {
            Option::Some(n) => n,
            Option::None => 0,
        },
        Option::None => 0,
    };
    ExamMetadata { exam_name, details, duration }
}

/// The characters after the last occurrence of the separator (the whole
/// string when it does not occur).
pub open spec fn suffix_after_last_spec(s: Seq<char>, c: char) -> Seq<char>
    decreases s.len(),
{
    if s.len() == 0 {
        s
    } else if s.last() == c {
        Seq::empty()
    } else {
        suffix_after_last_spec(s.drop_last(), c).push(s.last())
    }
}

proof fn lemma_suffix_after_last(s: Seq<char>, c: char, j: int)
    requires
        0 <= j <= s.len(),
        j > 0 ==> s[j - 1] == c,
        forall|k: int| j <= k < s.len() ==> s[k] != c,
    ensures
        suffix_after_last_spec(s, c) == s.subrange(j, s.len() as int),
    decreases s.len(),
{
    if s.len() == 0 {
        assert(s.subrange(0, 0) =~= s);
    } else if j == s.len() {
        if s.last() == c {
            assert(suffix_after_last_spec(s, c) =~= s.subrange(j, s.len() as int));
        } else {
            // j == len and s[j-1] != c forces j == 0, so the string is empty
            assert(j == 0 || s[j - 1] == c);
            assert(j == 0);
            assert(s.len() == 0);
        }
    } else {
        assert(s.last() != c);
        let t = s.drop_last();
        assert(forall|k: int| j <= k < t.len() ==> t[k] == s[k]);
        if j > 0 {
            assert(t[j - 1] == s[j - 1]);
        }
        lemma_suffix_after_last(t, c, j);
        assert(suffix_after_last_spec(s, c) == t.subrange(j, t.len() as int).push(s.last()));
        assert(t.subrange(j, t.len() as int).push(s.last()) =~= s.subrange(j, s.len() as int));
    }
}

/// The characters after the last occurrence of the separator (the whole
/// string when it does not occur): how a question id is read off the end
/// of its record key.
pub fn suffix_after_last(s: &str, c: char) -> (r: String)
    ensures
        r@ == suffix_after_last_spec(s@, c),
{
    let n: usize = s.unicode_len();
    let mut j: usize = n;
    while j > 0
        invariant
            n == s@.len(),
            0 <= j <= n,
            forall|k: int| j <= k < n ==> s@[k] != c,
        ensures
            0 <= j <= n,
            forall|k: int| j <= k < n ==> s@[k] != c,
            j > 0 ==> s@[j - 1] == c,
        decreases j,
    {
        if s.get_char(j - 1) == c {
            break ;
        }
        j = j - 1;
    }
    proof {
        lemma_suffix_after_last(s@, c, j as int);
    }
    String::from_str(s.substring_char(j, n))
}

/// One question of an exam, as stored in and read back from the key-value
/// backend.
#[derive(Debug)]
pub struct QuestionResponse {
    pub question: String,
    pub options: Vec<String>,
    pub marks: u32,
    pub section: String,
    pub question_id: String,
    pub exam_id: String,
}

/// Ghost view of a stored question.
#[verifier::ext_equal]
pub ghost struct KvQuestionV {
    pub question: Seq<char>,
    pub options: Seq<Seq<char>>,
    pub marks: int,
    pub section: Seq<char>,
    pub question_id: Seq<char>,
    pub exam_id: Seq<char>,
}

impl View for QuestionResponse {
    type V = KvQuestionV;

    open spec fn view(&self) -> KvQuestionV {
        KvQuestionV {
            question: self.question@,
            options: self.options.deep_view(),
            marks: self.marks as int,
            section: self.section@,
            question_id: self.question_id@,
            exam_id: self.exam_id@,
        }
    }
}

/// Decodes one question from its hash fields and its record key: missing
/// text fields default to the empty string, missing options to the empty
/// list, and missing marks to zero; the question id is the tail of the
/// record key, after the last colon.
pub fn question_from_fields(fields: &Vec<(String, String)>, key: &str, exam_id: &str) -> (r:
    QuestionResponse)
    ensures
        r.question@ == field_or_empty(fields@, "name"@),
        r.options.deep_view() == match json_string_list(field_or_empty(fields@, "options"@)) {
            Option::Some(v) => v,
            Option::None => Seq::<Seq<char>>::empty(),
        },
        r.marks == field_or_zero(fields@, "marks"@),
        r.section@ == field_or_empty(fields@, "section"@),
        r.question_id@ == suffix_after_last_spec(key@, ':'),
        r.exam_id@ == exam_id@,
{
    let question = match get_field(fields, "name") {
        Option::Some(v) => v,
        Option::None => String::new(),
    };
    let options_raw = match get_field(fields, "options") {
        Option::Some(v) => v,
        Option::None => String::new(),
    };
    proof {
        reveal_strlit("");
        assert(""@ =~= Seq::<char>::empty());
    }
    let options = match parse_string_list(options_raw.as_str()) {
        Option::Some(v) => v,
        Option::None => Vec::new(),
    };
    proof {
        if json_string_list(options_raw@) is None {
            assert(options.deep_view() =~= Seq::<Seq<char>>::empty());
        }
    }
    let marks = match get_field(fields, "marks") {
        Option::Some(v) => match parse_u32(v.as_str()) {
            Option::Some(n) => n,
            Option::None => 0,
        },
        Option::None => 0,
    };
    let section = match get_field(fields, "section") {
        Option::Some(v) => v,
        Option::None => String::new(),
    };
    let question_id = suffix_after_last(key, ':');
    QuestionResponse {
        question,
        options,
        marks,
        section,
        question_id,
        exam_id: String::from_str(exam_id),
    }
}

/// Questions grouped by their section name, each section appearing once in
/// first-seen order.
#[derive(Debug)]
pub struct SectionedQuestions {
    pub sections: Vec<(String, Vec<QuestionResponse>)>,
}

/// Spec view of a list of stored questions.
pub open spec fn kv_qs_v(qs: Seq<QuestionResponse>) -> Seq<KvQuestionV> {
    qs.map(|i: int, q: QuestionResponse| q@)
}

/// Spec view of the grouped sections.
pub open spec fn sectioned_v(s: Seq<(String, Vec<QuestionResponse>)>) -> Seq<
    (Seq<char>, Seq<KvQuestionV>),
> {
    s.map(|i: int, p: (String, Vec<QuestionResponse>)| (p.0@, kv_qs_v(p.1@)))
}

/// Whether a group with this section name has been accumulated.
pub open spec fn has_group(acc: Seq<(Seq<char>, Seq<KvQuestionV>)>, key: Seq<char>) -> bool {
    exists|i: int| 0 <= i < acc.len() && acc[i].0 == key
}

/// The index of the first group with this section name.
pub open spec fn group_index(acc: Seq<(Seq<char>, Seq<KvQuestionV>)>, key: Seq<char>) -> int
    decreases acc.len(),
{
    if acc.len() == 0 {
        0
    } else if acc[0].0 == key {
        0
    } else {
        1 + group_index(acc.drop_first(), key)
    }
}

/// Folds one question into the groups: appended to its section's group,
/// created on first sight of the section name.
pub open spec fn add_question(acc: Seq<(Seq<char>, Seq<KvQuestionV>)>, q: KvQuestionV) -> Seq<
    (Seq<char>, Seq<KvQuestionV>),
> {
    if has_group(acc, q.section) {
        let i = group_index(acc, q.section);
        acc.update(i, (acc[i].0, acc[i].1.push(q)))
    } else {
        acc.push((q.section, seq![q]))
    }
}

/// The questions grouped by section name: the left-to-right fold of
/// `add_question` from the empty accumulator.
pub open spec fn group_spec(qs: Seq<KvQuestionV>) -> Seq<(Seq<char>, Seq<KvQuestionV>)>
    decreases qs.len(),
{
    if qs.len() == 0 {
        Seq::empty()
    } else {
        add_question(group_spec(qs.drop_last()), qs.last())
    }
}

proof fn lemma_group_index_is(acc: Seq<(Seq<char>, Seq<KvQuestionV>)>, key: Seq<char>, k: int)
    requires
        0 <= k < acc.len(),
        acc[k].0 == key,
        forall|j: int| 0 <= j < k ==> acc[j].0 != key,
    ensures
        group_index(acc, key) == k,
        has_group(acc, key),
    decreases acc.len(),
{
    if k == 0 {
    } else {
        assert(acc[0].0 != key);
        let t = acc.drop_first();
        assert(forall|j: int| 0 <= j < t.len() ==> t[j] == acc[j + 1]);
        lemma_group_index_is(t, key, k - 1);
    }
}

/// A copy of a list of strings.
fn copy_strings(v: &Vec<String>) -> (out: Vec<String>)
    ensures
        out.deep_view() == v.deep_view(),
{
    let mut out: Vec<String> = Vec::new();
    let n: usize = v.len();
    let mut i: usize = 0;
    while i < n
        invariant
            n == v@.len(),
            0 <= i <= n,
            out@.len() == i,
            forall|j: int| 0 <= j < i ==> out.deep_view()[j] == v.deep_view()[j],
        decreases n - i,
    {
        out.push(v[i].clone());
        i = i + 1;
    }
    proof {
        assert(out.deep_view() =~= v.deep_view());
    }
    out
}

/// A copy of a stored question.
fn clone_question(q: &QuestionResponse) -> (out: QuestionResponse)
    ensures
        out@ == q@,
{
    QuestionResponse {
        question: q.question.clone(),
        options: copy_strings(&q.options),
        marks: q.marks,
        section: q.section.clone(),
        question_id: q.question_id.clone(),
        exam_id: q.exam_id.clone(),
    }
}

/// The index of the first group with this section name, when there is one.
fn find_group(groups: &Vec<(String, Vec<QuestionResponse>)>, key: &String) -> (r: Option<usize>)
    ensures
        match r {
            Option::Some(k) => {
                &&& (k as int) < groups@.len()
                &&& sectioned_v(groups@)[k as int].0 == key@
                &&& group_index(sectioned_v(groups@), key@) == k as int
                &&& has_group(sectioned_v(groups@), key@)
            },
            Option::None => !has_group(sectioned_v(groups@), key@),
        },
{
    let n: usize = groups.len();
    let mut k: usize = 0;
    while k < n
        invariant
            n == groups@.len(),
            0 <= k <= n,
            forall|j: int| 0 <= j < k ==> sectioned_v(groups@)[j].0 != key@,
        decreases n - k,
    {
        if groups[k].0 == *key {
            proof {
                assert(sectioned_v(groups@)[k as int].0 == key@);
                lemma_group_index_is(sectioned_v(groups@), key@, k as int);
            }
            return Option::Some(k);
        }
        k = k + 1;
    }
    Option::None
}

/// Groups the stored questions by their section name, each section
/// appearing once in first-seen order with its questions in input order.
pub fn group_questions_by_section(questions: &Vec<QuestionResponse>) -> (out: SectionedQuestions)
    ensures
        sectioned_v(out.sections@) == group_spec(kv_qs_v(questions@)),
{
    let mut groups: Vec<(String, Vec<QuestionResponse>)> = Vec::new();
    let n: usize = questions.len();
    let mut i: usize = 0;
    proof {
        assert(kv_qs_v(questions@).subrange(0, 0) =~= Seq::<KvQuestionV>::empty());
        assert(sectioned_v(groups@) =~= Seq::<(Seq<char>, Seq<KvQuestionV>)>::empty());
    }
    while i < n
        invariant
            n == questions@.len(),
            0 <= i <= n,
            sectioned_v(groups@) == group_spec(kv_qs_v(questions@).subrange(0, i as int)),
        decreases n - i,
    {
        let ghost pre = sectioned_v(groups@);
        let ghost qv = questions@[i as int]@;
        let q = clone_question(&questions[i]);
        match find_group(&groups, &q.section) {
            Option::Some(k) => {
                let ghost oldg = pre[k as int];
                let mut g = groups.remove(k);
                g.1.push(q);
                groups.insert(k, g);
                proof {
                    assert(kv_qs_v(g.1@) =~= oldg.1.push(qv));
                    assert(sectioned_v(groups@) =~~= add_question(pre, qv));
                }
            },
            Option::None => {
                let key = q.section.clone();
                let mut list: Vec<QuestionResponse> = Vec::new();
                list.push(q);
                groups.push((key, list));
                proof {
                    assert(kv_qs_v(list@) =~= seq![qv]);
                    assert(sectioned_v(groups@) =~~= add_question(pre, qv));
                }
            },
        }
        proof {
            let full = kv_qs_v(questions@);
            let cur = full.subrange(0, i + 1);
            assert(cur.drop_last() =~= full.subrange(0, i as int));
            assert(cur.last() == qv);
            assert(group_spec(cur) == add_question(pre, qv));
        }
        i = i + 1;
    }
    proof {
        assert(kv_qs_v(questions@).subrange(0, n as int) =~= kv_qs_v(questions@));
    }
    SectionedQuestions { sections: groups }
}

/// An exam as written to the key-value backend: its metadata and its
/// questions.
#[derive(Debug)]
pub struct Exam {
    pub exam_name: String,
    pub details: String,
    pub duration: u32,
    pub questions: Vec<QuestionResponse>,
}

/// Spec view of a field list.
pub open spec fn fields_v(v: Seq<(String, String)>) -> Seq<(Seq<char>, Seq<char>)> {
    v.map(|i: int, p: (String, String)| (p.0@, p.1@))
}

/// The metadata fields written for an exam record.
pub open spec fn exam_meta_fields(e: Exam) -> Seq<(Seq<char>, Seq<char>)> {
    seq![
        ("name"@, e.exam_name@),
        ("details"@, e.details@),
        ("duration"@, dec_str(e.duration as int)),
    ]
}

/// The fields written for one question record.
pub open spec fn question_record_fields(q: QuestionResponse) -> Seq<(Seq<char>, Seq<char>)> {
    seq![
        ("name"@, q.question@),
        ("options"@, json_of_string_list(q.options.deep_view())),
        ("marks"@, dec_str(q.marks as int)),
        ("section"@, q.section@),
    ]
}

/// The hash records written when an exam is persisted: one record of
/// metadata under the exam key, then one record per question under its
/// question key, using the supplied fresh question ids.
pub fn exam_hash_entries(exam: &Exam, exam_id: &str, question_ids: &Vec<String>) -> (out: Vec<
    (String, Vec<(String, String)>),
>)
    requires
        question_ids@.len() == exam.questions@.len(),
    ensures
        out@.len() == 1 + exam.questions@.len(),
        out@[0].0@ == exam_key_spec(exam_id@),
        fields_v(out@[0].1@) == exam_meta_fields(*exam),
        forall|i: int|
            0 <= i < exam.questions@.len() ==> (#[trigger] out@[i + 1]).0@ == question_key_spec(
                exam_id@,
                question_ids@[i]@,
            ) && fields_v(out@[i + 1].1@) == question_record_fields(exam.questions@[i]),
{
    let mut out: Vec<(String, Vec<(String, String)>)> = Vec::new();
    let mut meta: Vec<(String, String)> = Vec::new();
    meta.push((String::from_str("name"), exam.exam_name.clone()));
    meta.push((String::from_str("details"), exam.details.clone()));
    meta.push((String::from_str("duration"), u32_to_string(exam.duration)));
    proof {
        assert(fields_v(meta@) =~~= exam_meta_fields(*exam));
    }
    out.push((exam_key(exam_id), meta));
    let n: usize = exam.questions.len();
    let mut i: usize = 0;
    while i < n
        invariant
            n == exam.questions@.len(),
            question_ids@.len() == n,
            0 <= i <= n,
            out@.len() == 1 + i,
            out@[0].0@ == exam_key_spec(exam_id@),
            fields_v(out@[0].1@) == exam_meta_fields(*exam),
            forall|j: int|
                0 <= j < i ==> (#[trigger] out@[j + 1]).0@ == question_key_spec(
                    exam_id@,
                    question_ids@[j]@,
                ) && fields_v(out@[j + 1].1@) == question_record_fields(exam.questions@[j]),
        decreases n - i,
    {
        let q = &exam.questions[i];
        let mut fields: Vec<(String, String)> = Vec::new();
        fields.push((String::from_str("name"), q.question.clone()));
        fields.push((String::from_str("options"), string_list_to_json(&q.options)));
        fields.push((String::from_str("marks"), u32_to_string(q.marks)));
        fields.push((String::from_str("section"), q.section.clone()));
        proof {
            assert(fields_v(fields@) =~~= question_record_fields(exam.questions@[i as int]));
        }
        let key = question_key(exam_id, question_ids[i].as_str());
        out.push((key, fields));
        i = i + 1;
    }
    out
}

} // verus!
