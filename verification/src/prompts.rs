//! Prompt construction: the configured template set, the generic
//! placeholder substitution, and the builders for each endpoint's prompt.
//! Templates are plain data handed in by the caller at startup, selected by
//! distractor kind and filled by replacing the question and answer
//! placeholders with the trimmed inputs.

use vstd::prelude::*;
use vstd::string::*;

use crate::errors::AppError;
use crate::llm::{DistractorType, PromptLanguage};
use crate::text::{replace_all, replace_spec, trim, trim_spec};

verus! {

/// The configured prompt templates, loaded once at startup and passed to
/// whichever builder needs them.
#[derive(Debug)]
pub struct PromptTemplates {
    pub prompt_context_urdu: String,
    pub prompt_quranic_verse: String,
    pub prompt_quranic_verse_distractor_collection: String,
    pub prompt_quranic_verse_diacritic_distractor: String,
    pub prompt_quranic_verse_phonetic_distractor: String,
    pub prompt_quranic_verse_morfological_distractor: String,
    pub prompt_quranic_verse_grammatical_distractor: String,
    pub prompt_quranic_verse_alternate_verse_distractor: String,
    pub prompt_quranic_verse_thematic_distractor: String,
    pub prompt_quranic_verse_collocational_distractor: String,
}

/// The template used for one distractor kind.
pub open spec fn template_for(t: PromptTemplates, d: DistractorType) -> Seq<char> {
    match d {
        DistractorType::Collection => t.prompt_quranic_verse_distractor_collection@,
        DistractorType::Diacritic => t.prompt_quranic_verse_diacritic_distractor@,
        DistractorType::Phonetic => t.prompt_quranic_verse_phonetic_distractor@,
        DistractorType::Morphological => t.prompt_quranic_verse_morfological_distractor@,
        DistractorType::Grammatical => t.prompt_quranic_verse_grammatical_distractor@,
        DistractorType::AlternateVerse => t.prompt_quranic_verse_alternate_verse_distractor@,
        DistractorType::Thematic => t.prompt_quranic_verse_thematic_distractor@,
        DistractorType::Collocational => t.prompt_quranic_verse_collocational_distractor@,
    }
}

/// A template with its question and answer placeholders replaced by the
/// trimmed inputs.
pub open spec fn fill_spec(t: Seq<char>, q: Seq<char>, a: Seq<char>) -> Seq<char> {
    replace_spec(
        replace_spec(t, "{question}"@, trim_spec(q)),
        "{correct_answer}"@,
        trim_spec(a),
    )
}

/// Replaces the question and answer placeholders of a template with the
/// trimmed inputs.
pub fn fill_template(template: &str, question: &str, correct_answer: &str) -> (r: String)
    ensures
        r@ == fill_spec(template@, question@, correct_answer@),
{
    proof {
        reveal_strlit("{question}");
        reveal_strlit("{correct_answer}");
    }
    let q = trim(question);
    let a = trim(correct_answer);
    let step = replace_all(template, "{question}", q.as_str());
    replace_all(step.as_str(), "{correct_answer}", a.as_str())
}

/// The scripture-verse distractor prompt for one distractor kind, in
/// Arabic: the kind's template with the placeholders filled.
pub fn arabic_prompt_template_quranic_verse_distractor_mcq(
    templates: &PromptTemplates,
    question: &String,
    correct_answer: &String,
    distractor_type: DistractorType,
) -> (r: String)
    ensures
        r@ == fill_spec(template_for(*templates, distractor_type), question@, correct_answer@),
{
    let template = match distractor_type {
        DistractorType::Collection => &templates.prompt_quranic_verse_distractor_collection,
        DistractorType::Diacritic => &templates.prompt_quranic_verse_diacritic_distractor,
        DistractorType::Phonetic => &templates.prompt_quranic_verse_phonetic_distractor,
        DistractorType::Morphological => &templates.prompt_quranic_verse_morfological_distractor,
        DistractorType::Grammatical => &templates.prompt_quranic_verse_grammatical_distractor,
        DistractorType::AlternateVerse => {
            &templates.prompt_quranic_verse_alternate_verse_distractor
        },
        DistractorType::Thematic => &templates.prompt_quranic_verse_thematic_distractor,
        DistractorType::Collocational => {
            &templates.prompt_quranic_verse_collocational_distractor
        },
    };
    fill_template(template.as_str(), question.as_str(), correct_answer.as_str())
}

/// The Urdu context prompt: the configured Urdu template with the
/// placeholders filled.
pub fn urdu_prompt_template_context_mcq(
    templates: &PromptTemplates,
    question: &String,
    correct_answer: &String,
) -> (r: String)
    ensures
        r@ == fill_spec(templates.prompt_context_urdu@, question@, correct_answer@),
{
    fill_template(
        templates.prompt_context_urdu.as_str(),
        question.as_str(),
        correct_answer.as_str(),
    )
}

/// What the built-in Arabic prompt says: the fixed instruction text around
/// the trimmed question and answer.
pub open spec fn arabic_similar_prompt_spec(q: Seq<char>, a: Seq<char>) -> Seq<char> {
    r#"
            **المهمة (Kaam):** قم بإنشاء 4 خيارات متعددة باللغة العربية لسؤال ملء الفراغات أدناه. يجب أن تكون الخيارات مربكة للغاية وذات صلة بسياق الجملة المعطاة.
            
            **الجملة المعطاة (بالعربية):** ["#@ + trim_spec(q) + r#"]
            **الإجابة الصحيحة المعطاة (بالعربية):** ["#@ + trim_spec(a)
        + r#"]
            
            **تعليمات إنشاء الخيارات:**
            1.  قم بتضمين **الإجابة الصحيحة** كأحد الخيارات.
            2.  يجب أن تكون الخيارات الثلاثة المتبقية **مشتتات عربية مربكة** عن قصد.
            3.  يجب أن تكون المشتتات **من نفس فئة الإجابة الصحيحة** (مثلاً، إذا كانت الإجابة مدينة، فيجب أن تكون الخيارات الأخرى مدناً أيضاً؛ إذا كانت الإجابة فعلاً، فيجب أن تكون الخيارات الأخرى أفعالاً؛ إذا كانت صفة، فيجب أن تكون الخيارات الأخرى صفات، وهكذا).
            4.  يجب أن تبدو المشتتات **معقولة (plausible) في سياق الجملة المعطاة**. أي، يجب أن تكون كلمات *يمكن أن تناسب الفراغ في تلك الجملة المحددة*، حتى لو جعلت المعنى خاطئاً. مجرد كونها من نفس الفئة ليس كافياً.
            5.  يجب أن تسبب مجموعة الخيارات **ارتباكاً شديداً** للمتعلم.
            6.  ضع **الإجابة الصحيحة** في موضع عشوائي ضمن الخيارات الأربعة.
            
            **تنسيق الإخراج المطلوب بشدة:**
            *   يجب أن يكون الإخراج بتنسيق JSON بالهيكل التالي:
                ```json
                {"responses": ["الخيار الأول كنص عربي", "الخيار الثاني كنص عربي", "الخيار الثالث كنص عربي", "الخيار الرابع كنص عربي"]}
                ```
            *   يجب أن يحتوي مفتاح "responses" على مصفوفة (array) من أربعة سلاسل نصية (strings) بالضبط.
            *   كل سلسلة نصية في المصفوفة يجب أن تكون أحد الخيارات (الكلمة أو العبارة العربية فقط).
            *   **لا تقم** بتضمين أي بادئات مثل "أ)"، "ب)"، "ج)"، "د)" أو أي أرقام أو فواصل ضمن السلاسل النصية نفسها.
            *   **لا تقم** بتضمين الجملة الأصلية، أو تأكيد الإجابة الصحيحة، أو أي نص أو جمل أو توضيحات أخرى خارج هيكل JSON المحدد. يجب أن يكون الرد هو كائن JSON فقط.
            
            **مثال على تنسيق الإخراج المطلوب (هذا الهيكل فقط، المحتوى مجرد مثال):**
            ```json
            {"responses": ["تفاحة", "برتقالة", "موزة", "عنب"]}
            ```
            
            **الآن، بناءً على 'الجملة المعطاة' و 'الإجابة الصحيحة المعطاة' أعلاه، قم بإنشاء الخيارات مع الالتزام الصارم بتنسيق الإخراج.**
            "#@
}

/// What the built-in Urdu prompt says: the fixed instruction text around
/// the trimmed question and answer.
pub open spec fn urdu_similar_prompt_spec(q: Seq<char>, a: Seq<char>) -> Seq<char> {
    r#"
            **Kaam (Task):** Neechay diye gaye fill-in-the-blank sawal ke liye 4 multiple-choice options Roman Urdu mein banayein. Options bohat zyada confusing aur diye gaye jumlay ke context ke lihaz se relevant hone chahiye.

            **Diya Gaya Jumla (Roman Urdu):** ["#@ + trim_spec(q) + r#"]
            **Diya Gaya Sahi Jawab (Roman Urdu):** ["#@ + trim_spec(a) + r#"]

            **Options Banane Ki Hidayat:**
            1.  **Sahi Jawab** ko ek option ke tor par shamil karein.
            2.  Baaki 3 options jaan boojh kar **confuse karne wale Roman Urdu distractors** hone chahiye.
            3.  Distractors **sahi jawab jaisi category ke hone chahiye** (maslan, agar jawab sheher hai to doosre options bhi sheher hon; agar jawab ek kaam/verb hai to doosre options bhi kaam/verb hon; agar sifat/adjective hai to baaqi bhi sifat/adjective hon, waghera).
            4.  Distractors ko **diye gaye jumlay ke context mein munasib (plausible) lagna chahiye**. Yani aisay alfaz hon jo *us khaas jumlay ki khaali jagah mein fit ho sakte hon*, bhale hi woh ma'ni (meaning) ko ghalat kar dein. Sirf category same hona kafi nahin.
            5.  Options ka majmua learner ke liye **shadeed confusion** paida kare.
            6.  **Sahi jawab** ko options mein randomly shamil karein.

            **NIHAYAT ZAROORI OUTPUT FORMAT:**
            *   Output neeche diye gaye JSON format mein hona chahiye:
                ```json
                {"responses": ["Pehla Roman Urdu option", "Doosra Roman Urdu option", "Teesra Roman Urdu option", "Chotha Roman Urdu option"]}
                ```
            *   "responses" key mein theek char (4) Roman Urdu strings ki ek array honi chahiye.
            *   Array mein har string sirf Roman Urdu option (lafz ya jumla) hona chahiye.
            *   Strings ke andar "A)", "B)", "C)", "D)" jaisay prefixes ya koi number ya fawasil (separators) **NAHI** hone chahiye.
            *   Diye gaye JSON structure ke bahar asal jumla, sahi jawab ki tasdeeq, ya koi aur text, jumlay, ya wazahat shamil **NA KAREIN**. Jawab sirf JSON object hona chahiye.

            **Matlooba Output Format Ki Misaal (Sirf yeh structure, content sirf misaal hai):**
            ```json
            {"responses": ["Kiya", "Kahan", "Kab", "Kaise"]}
            ```

            **Ab upar diye gaye 'Diya Gaya Jumla' aur 'Diya Gaya Sahi Jawab' ki bunyad par, sakht output format ki pairwi karte hue, options banayein.**
            "#@
}

/// The built-in Arabic prompt asking for four confusing options around a
/// fill-in-the-blank sentence.
pub fn arabic_prompt_template_similar_fill_in_the_blank(
    question: &String,
    correct_answer: &String,
) -> (r: String)
    ensures
        r@ == arabic_similar_prompt_spec(question@, correct_answer@),
{
    let mut out = String::from_str(r#"
            **المهمة (Kaam):** قم بإنشاء 4 خيارات متعددة باللغة العربية لسؤال ملء الفراغات أدناه. يجب أن تكون الخيارات مربكة للغاية وذات صلة بسياق الجملة المعطاة.
            
            **الجملة المعطاة (بالعربية):** ["#);
    let q = trim(question.as_str());
    out.append(q.as_str());
    out.append(r#"]
            **الإجابة الصحيحة المعطاة (بالعربية):** ["#);
    let a = trim(correct_answer.as_str());
    out.append(a.as_str());
    out.append(r#"]
            
            **تعليمات إنشاء الخيارات:**
            1.  قم بتضمين **الإجابة الصحيحة** كأحد الخيارات.
            2.  يجب أن تكون الخيارات الثلاثة المتبقية **مشتتات عربية مربكة** عن قصد.
            3.  يجب أن تكون المشتتات **من نفس فئة الإجابة الصحيحة** (مثلاً، إذا كانت الإجابة مدينة، فيجب أن تكون الخيارات الأخرى مدناً أيضاً؛ إذا كانت الإجابة فعلاً، فيجب أن تكون الخيارات الأخرى أفعالاً؛ إذا كانت صفة، فيجب أن تكون الخيارات الأخرى صفات، وهكذا).
            4.  يجب أن تبدو المشتتات **معقولة (plausible) في سياق الجملة المعطاة**. أي، يجب أن تكون كلمات *يمكن أن تناسب الفراغ في تلك الجملة المحددة*، حتى لو جعلت المعنى خاطئاً. مجرد كونها من نفس الفئة ليس كافياً.
            5.  يجب أن تسبب مجموعة الخيارات **ارتباكاً شديداً** للمتعلم.
            6.  ضع **الإجابة الصحيحة** في موضع عشوائي ضمن الخيارات الأربعة.
            
            **تنسيق الإخراج المطلوب بشدة:**
            *   يجب أن يكون الإخراج بتنسيق JSON بالهيكل التالي:
                ```json
                {"responses": ["الخيار الأول كنص عربي", "الخيار الثاني كنص عربي", "الخيار الثالث كنص عربي", "الخيار الرابع كنص عربي"]}
                ```
            *   يجب أن يحتوي مفتاح "responses" على مصفوفة (array) من أربعة سلاسل نصية (strings) بالضبط.
            *   كل سلسلة نصية في المصفوفة يجب أن تكون أحد الخيارات (الكلمة أو العبارة العربية فقط).
            *   **لا تقم** بتضمين أي بادئات مثل "أ)"، "ب)"، "ج)"، "د)" أو أي أرقام أو فواصل ضمن السلاسل النصية نفسها.
            *   **لا تقم** بتضمين الجملة الأصلية، أو تأكيد الإجابة الصحيحة، أو أي نص أو جمل أو توضيحات أخرى خارج هيكل JSON المحدد. يجب أن يكون الرد هو كائن JSON فقط.
            
            **مثال على تنسيق الإخراج المطلوب (هذا الهيكل فقط، المحتوى مجرد مثال):**
            ```json
            {"responses": ["تفاحة", "برتقالة", "موزة", "عنب"]}
            ```
            
            **الآن، بناءً على 'الجملة المعطاة' و 'الإجابة الصحيحة المعطاة' أعلاه، قم بإنشاء الخيارات مع الالتزام الصارم بتنسيق الإخراج.**
            "#);
    out
}

/// The built-in Urdu prompt asking for four confusing options around a
/// fill-in-the-blank sentence.
pub fn urdu_prompt_template_similar_fill_in_the_blank(
    question: &String,
    correct_answer: &String,
) -> (r: String)
    ensures
        r@ == urdu_similar_prompt_spec(question@, correct_answer@),
{
    let mut out = String::from_str(r#"
            **Kaam (Task):** Neechay diye gaye fill-in-the-blank sawal ke liye 4 multiple-choice options Roman Urdu mein banayein. Options bohat zyada confusing aur diye gaye jumlay ke context ke lihaz se relevant hone chahiye.

            **Diya Gaya Jumla (Roman Urdu):** ["#);
    let q = trim(question.as_str());
    out.append(q.as_str());
    out.append(r#"]
            **Diya Gaya Sahi Jawab (Roman Urdu):** ["#);
    let a = trim(correct_answer.as_str());
    out.append(a.as_str());
    out.append(r#"]

            **Options Banane Ki Hidayat:**
            1.  **Sahi Jawab** ko ek option ke tor par shamil karein.
            2.  Baaki 3 options jaan boojh kar **confuse karne wale Roman Urdu distractors** hone chahiye.
            3.  Distractors **sahi jawab jaisi category ke hone chahiye** (maslan, agar jawab sheher hai to doosre options bhi sheher hon; agar jawab ek kaam/verb hai to doosre options bhi kaam/verb hon; agar sifat/adjective hai to baaqi bhi sifat/adjective hon, waghera).
            4.  Distractors ko **diye gaye jumlay ke context mein munasib (plausible) lagna chahiye**. Yani aisay alfaz hon jo *us khaas jumlay ki khaali jagah mein fit ho sakte hon*, bhale hi woh ma'ni (meaning) ko ghalat kar dein. Sirf category same hona kafi nahin.
            5.  Options ka majmua learner ke liye **shadeed confusion** paida kare.
            6.  **Sahi jawab** ko options mein randomly shamil karein.

            **NIHAYAT ZAROORI OUTPUT FORMAT:**
            *   Output neeche diye gaye JSON format mein hona chahiye:
                ```json
                {"responses": ["Pehla Roman Urdu option", "Doosra Roman Urdu option", "Teesra Roman Urdu option", "Chotha Roman Urdu option"]}
                ```
            *   "responses" key mein theek char (4) Roman Urdu strings ki ek array honi chahiye.
            *   Array mein har string sirf Roman Urdu option (lafz ya jumla) hona chahiye.
            *   Strings ke andar "A)", "B)", "C)", "D)" jaisay prefixes ya koi number ya fawasil (separators) **NAHI** hone chahiye.
            *   Diye gaye JSON structure ke bahar asal jumla, sahi jawab ki tasdeeq, ya koi aur text, jumlay, ya wazahat shamil **NA KAREIN**. Jawab sirf JSON object hona chahiye.

            **Matlooba Output Format Ki Misaal (Sirf yeh structure, content sirf misaal hai):**
            ```json
            {"responses": ["Kiya", "Kahan", "Kab", "Kaise"]}
            ```

            **Ab upar diye gaye 'Diya Gaya Jumla' aur 'Diya Gaya Sahi Jawab' ki bunyad par, sakht output format ki pairwi karte hue, options banayein.**
            "#);
    out
}

/// The prompt for a similarity-based option request: the built-in template
/// of the requested language around the trimmed question and answer.
pub fn build_mcq_prompt(question: &String, correct_answer: &String, language: PromptLanguage) -> (r:
    String)
    ensures
        r@ == match language {
            PromptLanguage::Arabic => arabic_similar_prompt_spec(question@, correct_answer@),
            PromptLanguage::Urdu => urdu_similar_prompt_spec(question@, correct_answer@),
        },
{
    match language {
        PromptLanguage::Arabic => arabic_prompt_template_similar_fill_in_the_blank(
            question,
            correct_answer,
        ),
        PromptLanguage::Urdu => urdu_prompt_template_similar_fill_in_the_blank(
            question,
            correct_answer,
        ),
    }
}

/// The prompt for a context-based option request: only Urdu is supported,
/// and an Arabic request is rejected.
pub fn build_contextual_mcq_prompt(
    templates: &PromptTemplates,
    question: &String,
    correct_answer: &String,
    language: PromptLanguage,
) -> (r: Result<String, AppError>)
    ensures
        match r {
            Result::Ok(p) => language is Urdu && p@ == fill_spec(
                templates.prompt_context_urdu@,
                question@,
                correct_answer@,
            ),
            Result::Err(e) => language is Arabic && e is ValidationError,
        },
{
    match language {
        PromptLanguage::Arabic => Result::Err(
            AppError::ValidationError(
                String::from_str("Arabic language is not supported for this endpoint"),
            ),
        ),
        PromptLanguage::Urdu => Result::Ok(
            urdu_prompt_template_context_mcq(templates, question, correct_answer),
        ),
    }
}

/// The prompt for a scripture-verse distractor request: only Arabic is
/// supported, and an Urdu request is rejected.
pub fn get_quranic_verse_distractor_prompt(
    templates: &PromptTemplates,
    question: &String,
    correct_answer: &String,
    language: PromptLanguage,
    distractor_type: DistractorType,
) -> (r: Result<String, AppError>)
    ensures
        match r {
            Result::Ok(p) => language is Arabic && p@ == fill_spec(
                template_for(*templates, distractor_type),
                question@,
                correct_answer@,
            ),
            Result::Err(e) => language is Urdu && e is ValidationError,
        },
{
    match language {
        PromptLanguage::Urdu => Result::Err(
            AppError::ValidationError(
                String::from_str("Urdu language is not supported for this endpoint"),
            ),
        ),
        PromptLanguage::Arabic => Result::Ok(
            arabic_prompt_template_quranic_verse_distractor_mcq(
                templates,
                question,
                correct_answer,
                distractor_type,
            ),
        ),
    }
}








} // verus!
