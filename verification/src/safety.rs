//! The safety guard: a request may not override the platform's rules, and a reading may not give
//! medical, legal or financial advice, predict death or pregnancy, claim certainty, touch a
//! forbidden topic, or drop its symbolic framing and disclaimer.
use vstd::prelude::*;

use crate::payload_sanitizer::{contains_prompt_injection, has_injection};
use crate::period_payload::{join, join_strings};
use crate::quality::{framing_markers, has_interpretive_framing, holds_any, warn_if};
use crate::reading::NatalReading;
use crate::script_guard::{reading_script_violations, script_violations_for_reading};
use crate::text::{
    contains, is_blank, lowercase_of, str_contains, str_equal, str_is_blank, string_views,
    to_lowercase, trim, trim_str,
};

verus! {

/// The safety rules that apply to a reading.
#[derive(Debug)]
pub struct SafetyPolicy {
    pub require_disclaimer: bool,
    pub forbid_medical_advice: bool,
    pub forbid_legal_advice: bool,
    pub forbid_financial_advice: bool,
    pub forbid_death_prediction: bool,
    pub forbid_pregnancy_prediction: bool,
    pub forbid_deterministic_claims: bool,
    pub require_symbolic_framing: bool,
    pub custom_forbidden_topics: Vec<String>,
}

/// The patterns of the canonical catalog, by type.
#[derive(Debug)]
pub struct SafetyPatterns {
    pub medical: Vec<String>,
    pub legal: Vec<String>,
    pub financial: Vec<String>,
    pub death: Vec<String>,
    pub pregnancy: Vec<String>,
    pub deterministic: Vec<String>,
    pub symbolic: Vec<String>,
    pub injection: Vec<String>,
}

/// What the guard reads of a generation request.
#[derive(Debug)]
pub struct SafetyRequest {
    pub contract_version: String,
    pub output_schema_version: String,
    pub custom_instructions: Option<String>,
    pub include_legal_disclaimer: bool,
}

/// The lower-cased text holds one of the patterns, lower-cased.
pub open spec fn matches_any(text: Seq<char>, patterns: Seq<String>) -> bool {
    exists|k: int| 0 <= k < patterns.len() && contains(lowercase_of(text), lowercase_of(#[trigger] patterns[k]@))
}

/// Whether the lower-cased text holds one of the patterns, lower-cased.
pub fn matches_patterns(text: &str, patterns: &Vec<String>) -> (r: bool)
    ensures
        r == matches_any(text@, patterns@),
{
    let n = patterns.len();
    if n == 0 {
        return false;
    }
    let lower = to_lowercase(text);
    let mut k: usize = 0;
    while k < n
        invariant
            n == patterns@.len(),
            lower@ == lowercase_of(text@),
            k <= n,
            forall|j: int| 0 <= j < k ==> !contains(lowercase_of(text@), lowercase_of(#[trigger] patterns@[j]@)),
        decreases n - k,
    {
        let p = to_lowercase(patterns[k].as_str());
        if str_contains(lower.as_str(), p.as_str()) {
            return true;
        }
        k = k + 1;
    }
    false
}

/// The text is framed symbolically: a catalog pattern or a built-in framing marker.
pub open spec fn symbolic_framing(text: Seq<char>, catalog: SafetyPatterns) -> bool {
    matches_any(text, catalog.symbolic@) || holds_any(lowercase_of(text), framing_markers())
}

/// Whether the text is framed symbolically.
pub fn has_symbolic_framing(text: &str, catalog: &SafetyPatterns) -> (r: bool)
    ensures
        r == symbolic_framing(text@, *catalog),
{
    if matches_patterns(text, &catalog.symbolic) {
        return true;
    }
    has_interpretive_framing(text)
}

/// `<prefix><item>` for every item that the lower-cased text holds, lower-cased, in order.
pub open spec fn listed_violations(text: Seq<char>, items: Seq<String>, prefix: Seq<char>) -> Seq<Seq<char>>
    decreases items.len(),
{
    if items.len() == 0 {
        seq![]
    } else {
        listed_violations(text, items.drop_last(), prefix) + warn_if(
            contains(lowercase_of(text), lowercase_of(items.last()@)),
            prefix + items.last()@,
        )
    }
}

/// The violations of a text against a policy, in the order the guard raises them.
pub open spec fn text_violations(
    text: Seq<char>,
    policy: SafetyPolicy,
    forbidden_wording: Seq<String>,
    catalog: SafetyPatterns,
) -> Seq<Seq<char>> {
    warn_if(policy.forbid_medical_advice && matches_any(text, catalog.medical@), "medical advice detected"@)
        + warn_if(policy.forbid_legal_advice && matches_any(text, catalog.legal@), "legal advice detected"@)
        + warn_if(
        policy.forbid_financial_advice && matches_any(text, catalog.financial@),
        "financial advice detected"@,
    ) + warn_if(policy.forbid_death_prediction && matches_any(text, catalog.death@), "death prediction detected"@)
        + warn_if(
        policy.forbid_pregnancy_prediction && matches_any(text, catalog.pregnancy@),
        "pregnancy prediction detected"@,
    ) + warn_if(
        policy.forbid_deterministic_claims && matches_any(text, catalog.deterministic@),
        "deterministic claim detected"@,
    ) + warn_if(
        policy.require_symbolic_framing && !symbolic_framing(text, catalog),
        "missing symbolic/interpretive framing"@,
    ) + listed_violations(text, policy.custom_forbidden_topics@, "forbidden topic detected: "@)
        + listed_violations(text, forbidden_wording, "forbidden wording detected: "@)
}

fn push_if(out: &mut Vec<String>, cond: bool, message: &str)
    ensures
        string_views(final(out)@) == string_views(old(out)@) + warn_if(cond, message@),
{
    if cond {
        out.push(message.to_owned());
        assert(string_views(out@) =~= string_views(old(out)@) + warn_if(cond, message@));
    } else {
        assert(string_views(out@) =~= string_views(old(out)@) + warn_if(cond, message@));
    }
}

fn push_listed(out: &mut Vec<String>, text: &str, items: &Vec<String>, prefix: &str)
    ensures
        string_views(final(out)@) == string_views(old(out)@) + listed_violations(text@, items@, prefix@),
{
    let lower = to_lowercase(text);
    let n = items.len();
    let mut i: usize = 0;
    proof {
        assert(string_views(out@) =~= string_views(old(out)@) + listed_violations(text@, items@.take(0), prefix@));
    }
    while i < n
        invariant
            n == items@.len(),
            i <= n,
            lower@ == lowercase_of(text@),
            string_views(out@) == string_views(old(out)@) + listed_violations(text@, items@.take(i as int), prefix@),
        decreases n - i,
    {
        proof {
            assert(items@.take(i + 1).drop_last() =~= items@.take(i as int));
            assert(items@.take(i + 1).last() == items@[i as int]);
        }
        let item_lower = to_lowercase(items[i].as_str());
        let hit = str_contains(lower.as_str(), item_lower.as_str());
        let mut m = prefix.to_owned();
        m.append(items[i].as_str());
        let ghost before = string_views(out@);
        push_if(out, hit, m.as_str());
        proof {
            assert(string_views(out@) =~= string_views(old(out)@) + listed_violations(text@, items@.take(i + 1), prefix@));
        }
        i = i + 1;
    }
    proof {
        assert(items@.take(n as int) =~= items@);
    }
}

#[verifier::rlimit(40)]
fn push_text_violations(
    out: &mut Vec<String>,
    text: &str,
    policy: &SafetyPolicy,
    forbidden_wording: &Vec<String>,
    catalog: &SafetyPatterns,
)
    ensures
        string_views(final(out)@) == string_views(old(out)@) + text_violations(text@, *policy, forbidden_wording@, *catalog),
{
    let ghost start = string_views(out@);
    let mut local: Vec<String> = Vec::new();
    proof {
        assert(string_views(local@) =~= Seq::<Seq<char>>::empty());
    }
    let c1 = policy.forbid_medical_advice && matches_patterns(text, &catalog.medical);
    push_if(&mut local, c1, "medical advice detected");
    let ghost s1 = string_views(local@);
    let c2 = policy.forbid_legal_advice && matches_patterns(text, &catalog.legal);
    push_if(&mut local, c2, "legal advice detected");
    let ghost s2 = string_views(local@);
    let c3 = policy.forbid_financial_advice && matches_patterns(text, &catalog.financial);
    push_if(&mut local, c3, "financial advice detected");
    let ghost s3 = string_views(local@);
    let c4 = policy.forbid_death_prediction && matches_patterns(text, &catalog.death);
    push_if(&mut local, c4, "death prediction detected");
    let ghost s4 = string_views(local@);
    let c5 = policy.forbid_pregnancy_prediction && matches_patterns(text, &catalog.pregnancy);
    push_if(&mut local, c5, "pregnancy prediction detected");
    let ghost s5 = string_views(local@);
    let c6 = policy.forbid_deterministic_claims && matches_patterns(text, &catalog.deterministic);
    push_if(&mut local, c6, "deterministic claim detected");
    let ghost s6 = string_views(local@);
    let c7 = policy.require_symbolic_framing && !has_symbolic_framing(text, catalog);
    push_if(&mut local, c7, "missing symbolic/interpretive framing");
    let ghost s7 = string_views(local@);
    push_listed(&mut local, text, &policy.custom_forbidden_topics, "forbidden topic detected: ");
    let ghost s8 = string_views(local@);
    push_listed(&mut local, text, forbidden_wording, "forbidden wording detected: ");
    proof {
        assert(string_views(local@) == s8 + listed_violations(text@, forbidden_wording@, "forbidden wording detected: "@));
        assert(s8 == s7 + listed_violations(text@, policy.custom_forbidden_topics@, "forbidden topic detected: "@));
        assert(string_views(local@) =~= text_violations(text@, *policy, forbidden_wording@, *catalog));
    }
    let ghost lv = string_views(local@);
    out.append(&mut local);
    proof {
        assert(string_views(out@) =~= start + lv);
    }
}

/// `Ok` where there is no violation, else every violation.
pub open spec fn violations_outcome(r: Result<(), Vec<String>>, expected: Seq<Seq<char>>) -> bool {
    match r {
        Ok(_) => expected.len() == 0,
        Err(v) => expected.len() > 0 && string_views(v@) == expected,
    }
}

/// The texts of a reading that the guard reads, joined by newlines: summary title and text,
/// disclaimer, then each chapter's title, summary sentence and body.
pub open spec fn reading_parts(reading: NatalReading) -> Seq<Seq<char>> {
    seq![reading.summary_title@, reading.summary_short_text@, reading.disclaimer@] + chapter_parts(
        reading.chapters@,
    )
}

/// The title, summary sentence and body of each chapter, in order.
pub open spec fn chapter_parts(chs: Seq<crate::reading::ReadingChapter>) -> Seq<Seq<char>>
    decreases chs.len(),
{
    if chs.len() == 0 {
        seq![]
    } else {
        chapter_parts(chs.drop_last()) + seq![
            chs.last().title@,
            chs.last().summary_sentence@,
            chs.last().body@,
        ]
    }
}

fn collect_text(reading: &NatalReading) -> (r: String)
    ensures
        r@ == join(reading_parts(*reading), "\n"@),
{
    let mut parts: Vec<String> = Vec::new();
    parts.push(reading.summary_title.clone());
    parts.push(reading.summary_short_text.clone());
    parts.push(reading.disclaimer.clone());
    let n = reading.chapters.len();
    let mut i: usize = 0;
    proof {
        assert(string_views(parts@) =~= seq![reading.summary_title@, reading.summary_short_text@, reading.disclaimer@] + chapter_parts(reading.chapters@.take(0)));
    }
    while i < n
        invariant
            n == reading.chapters@.len(),
            i <= n,
            string_views(parts@) == seq![reading.summary_title@, reading.summary_short_text@, reading.disclaimer@]
                + chapter_parts(reading.chapters@.take(i as int)),
        decreases n - i,
    {
        proof {
            assert(reading.chapters@.take(i + 1).drop_last() =~= reading.chapters@.take(i as int));
            assert(reading.chapters@.take(i + 1).last() == reading.chapters@[i as int]);
        }
        let ghost before = string_views(parts@);
        parts.push(reading.chapters[i].title.clone());
        parts.push(reading.chapters[i].summary_sentence.clone());
        parts.push(reading.chapters[i].body.clone());
        proof {
            let ch = reading.chapters@[i as int];
            assert(string_views(parts@) =~= before + seq![ch.title@, ch.summary_sentence@, ch.body@]);
            assert(chapter_parts(reading.chapters@.take(i + 1)) == chapter_parts(reading.chapters@.take(i as int))
                + seq![ch.title@, ch.summary_sentence@, ch.body@]);
            assert(string_views(parts@) =~= seq![reading.summary_title@, reading.summary_short_text@, reading.disclaimer@]
                + chapter_parts(reading.chapters@.take(i + 1)));
        }
        i = i + 1;
    }
    proof {
        assert(reading.chapters@.take(n as int) =~= reading.chapters@);
    }
    join_strings(&parts, "\n")
}

/// The violations of a reading, in the order the guard raises them.
pub open spec fn response_violations(
    reading: NatalReading,
    policy: SafetyPolicy,
    forbidden_wording: Seq<String>,
    catalog: SafetyPatterns,
) -> Seq<Seq<char>> {
    text_violations(join(reading_parts(reading), "\n"@), policy, forbidden_wording, catalog)
        + reading_script_violations(reading.language@, reading) + warn_if(
        policy.require_disclaimer && is_blank(reading.disclaimer@),
        "missing legal disclaimer"@,
    )
}

/// The violations of a request, in the order the guard raises them.
pub open spec fn request_violations(request: SafetyRequest, policy: SafetyPolicy, catalog: SafetyPatterns) -> Seq<Seq<char>> {
    warn_if(request.contract_version@.len() == 0, "astro_result.contract_version is required"@)
        + warn_if(
        request.output_schema_version@.len() == 0,
        "response_contract.output_schema_version is required"@,
    ) + warn_if(
        request.custom_instructions matches Some(c) && (has_injection(c@) || matches_any(c@, catalog.injection@)),
        "custom_instructions attempt to override platform or safety rules"@,
    ) + warn_if(
        !policy.require_disclaimer && request.include_legal_disclaimer,
        "legal disclaimer required by contract but disabled by policy"@,
    )
}

/// The safety guard.
pub struct SafetyGuard;

impl SafetyGuard {
    /// Checks a request: its contract and schema versions are set, its custom instructions do not
    /// try to override the rules, and a disclaimer the contract asks for is not disabled.
    pub fn validate_request(request: &SafetyRequest, policy: &SafetyPolicy, catalog: &SafetyPatterns) -> (r: Result<
        (),
        Vec<String>,
    >)
        ensures
            violations_outcome(r, request_violations(*request, *policy, *catalog)),
    {
        let mut violations: Vec<String> = Vec::new();
        proof {
            assert(string_views(violations@) =~= Seq::<Seq<char>>::empty());
        }
        push_if(&mut violations, request.contract_version.as_str().is_empty(), "astro_result.contract_version is required");
        push_if(
            &mut violations,
            request.output_schema_version.as_str().is_empty(),
            "response_contract.output_schema_version is required",
        );
        let unsafe_override = match &request.custom_instructions {
            Some(c) => contains_prompt_injection(c.as_str()) || matches_patterns(c.as_str(), &catalog.injection),
            None => false,
        };
        push_if(&mut violations, unsafe_override, "custom_instructions attempt to override platform or safety rules");
        push_if(
            &mut violations,
            !policy.require_disclaimer && request.include_legal_disclaimer,
            "legal disclaimer required by contract but disabled by policy",
        );
        proof {
            assert(string_views(violations@) =~= request_violations(*request, *policy, *catalog));
        }
        if violations.len() == 0 {
            Ok(())
        } else {
            Err(violations)
        }
    }

    /// Checks a reading: the policy's forbidden advice and predictions, symbolic framing,
    /// forbidden topics and wording, the script of a French reading, and the disclaimer.
    pub fn validate_response(
        reading: &NatalReading,
        policy: &SafetyPolicy,
        forbidden_wording: &Vec<String>,
        catalog: &SafetyPatterns,
    ) -> (r: Result<(), Vec<String>>)
        ensures
            violations_outcome(r, response_violations(*reading, *policy, forbidden_wording@, *catalog)),
    {
        let mut violations: Vec<String> = Vec::new();
        let corpus = collect_text(reading);
        proof {
            assert(string_views(violations@) =~= Seq::<Seq<char>>::empty());
        }
        push_text_violations(&mut violations, corpus.as_str(), policy, forbidden_wording, catalog);
        let mut script = script_violations_for_reading(reading.language.as_str(), reading);
        let ghost before = string_views(violations@);
        let ghost added = string_views(script@);
        violations.append(&mut script);
        proof {
            assert(string_views(violations@) =~= before + added);
        }
        push_if(
            &mut violations,
            policy.require_disclaimer && str_is_blank(reading.disclaimer.as_str()),
            "missing legal disclaimer",
        );
        proof {
            assert(string_views(violations@) =~= response_violations(*reading, *policy, forbidden_wording@, *catalog));
        }
        if violations.len() == 0 {
            Ok(())
        } else {
            Err(violations)
        }
    }

    /// Checks the text of one chapter against the policy.
    pub fn validate_chapter_text(
        body: &str,
        policy: &SafetyPolicy,
        forbidden_wording: &Vec<String>,
        catalog: &SafetyPatterns,
    ) -> (r: Result<(), Vec<String>>)
        ensures
            violations_outcome(r, text_violations(body@, *policy, forbidden_wording@, *catalog)),
    {
        let mut violations: Vec<String> = Vec::new();
        proof {
            assert(string_views(violations@) =~= Seq::<Seq<char>>::empty());
        }
        push_text_violations(&mut violations, body, policy, forbidden_wording, catalog);
        proof {
            assert(string_views(violations@) =~= text_violations(body@, *policy, forbidden_wording@, *catalog));
        }
        if violations.len() == 0 {
            Ok(())
        } else {
            Err(violations)
        }
    }
}

/// The sentence that frames a text symbolically, in French or else in English.
pub open spec fn framing_sentence(language: Seq<char>) -> Seq<char> {
    if language == "fr"@ {
        "Sur le plan symbolique, cela suggere des tendances a relire a la lumiere de votre experience."@
    } else {
        "Symbolically, this suggests tendencies to read alongside lived experience."@
    }
}

fn symbolic_framing_sentence(language: &str) -> (r: &'static str)
    ensures
        r@ == framing_sentence(language@),
{
    if str_equal(language, "fr") {
        "Sur le plan symbolique, cela suggere des tendances a relire a la lumiere de votre experience."
    } else {
        "Symbolically, this suggests tendencies to read alongside lived experience."
    }
}

/// A text that already carries symbolic framing is kept; otherwise the framing sentence is
/// appended to the trimmed text (or stands alone for a blank text).
pub fn ensure_symbolic_framing_text(text: &str, language: &str, catalog: &SafetyPatterns) -> (r: String)
    ensures
        r@ == if symbolic_framing(text@, *catalog) {
            text@
        } else if trim(text@).len() == 0 {
            framing_sentence(language@)
        } else {
            trim(text@) + " "@ + framing_sentence(language@)
        },
{
    if has_symbolic_framing(text, catalog) {
        return text.to_owned();
    }
    let trimmed = trim_str(text);
    if trimmed.as_str().is_empty() {
        return symbolic_framing_sentence(language).to_owned();
    }
    let mut out = trimmed;
    out.append(" ");
    out.append(symbolic_framing_sentence(language));
    out
}

} // verus!
