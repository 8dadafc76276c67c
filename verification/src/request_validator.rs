//! The checks a reading request passes before any work: required fields, supported values and
//! limits, each failure reported as one violation.
use vstd::prelude::*;

use crate::error::{GenerationError, GenerationErrorCode, err_code, err_kind, error_with_kind};
use crate::json::{JsonValue, field_arr, set_member};
use crate::payload_sanitizer::{first_injected, injection_report, scan_json_for_injection};
use crate::public_request::utf8_len;
use crate::semantic_brief::strings_in;
use crate::text::{chars_of, decimal, decimal_string, is_blank, lowercase_of, str_equal, str_is_blank, to_lowercase, trim, trim_str};

verus! {

/// The product whose requests name an interpretation profile.
pub const NATAL_PROMPTER_PRODUCT: &'static str = "natal_prompter";

/// What the validation reads of a reading request, with the catalog's answers about it and the size
/// of its astrological data once serialized.
pub struct ReadingRequestFacts {
    pub product_code: String,
    pub interpretation_profile_code: Option<String>,
    /// The catalog holds the trimmed profile code as an active profile.
    pub profile_known: bool,
    pub user_language: String,
    /// The catalog lists writing locales.
    pub writing_locales_configured: bool,
    /// The catalog holds the trimmed, lower-cased language as a writing locale.
    pub locale_known: bool,
    pub astro_contract_version: String,
    pub astro_data: JsonValue,
    /// The length in bytes of the astrological data serialized as JSON.
    pub astro_json_bytes: usize,
    pub output_schema_version: String,
    pub chapter_count: usize,
    pub provider_is_custom: bool,
    pub domain_count: Option<u32>,
    /// A temperature is given and lies outside 0.0 to 2.0.
    pub temperature_out_of_range: bool,
    pub custom_instructions: Option<String>,
    /// The catalog holds at least one astrological domain.
    pub domains_configured: bool,
}

/// The limits of the service.
pub struct ServiceLimits {
    pub max_domain_count: u32,
    pub max_custom_instructions_chars: usize,
    pub max_astro_json_bytes: usize,
    pub max_chapters_per_request: u32,
}

/// A violation where the condition holds, none else.
pub open spec fn violation_if(cond: bool, text: Seq<char>) -> Seq<Seq<char>> {
    if cond {
        seq![text]
    } else {
        seq![]
    }
}

/// The trimmed profile code, where it is not blank.
pub open spec fn profile_code(f: ReadingRequestFacts) -> Option<Seq<char>> {
    match f.interpretation_profile_code {
        Some(c) => if trim(c@).len() > 0 {
            Some(trim(c@))
        } else {
            None
        },
        None => None,
    }
}

/// The violations of the natal prompter's profile: none given, or one the catalog does not hold.
pub open spec fn profile_violations(f: ReadingRequestFacts) -> Seq<Seq<char>> {
    if f.product_code@ != NATAL_PROMPTER_PRODUCT@ {
        seq![]
    } else {
        match profile_code(f) {
            None => seq!["product_context.interpretation_profile_code is required for natal_prompter"@],
            Some(c) => violation_if(!f.profile_known, "interpretation profile not found or inactive: "@ + c),
        }
    }
}

/// The violations of the language: not two bytes once trimmed and lower-cased, or no active
/// writing locale where the catalog lists some.
pub open spec fn language_violations(f: ReadingRequestFacts) -> Seq<Seq<char>> {
    let lang = lowercase_of(trim(f.user_language@));
    if utf8_len(lang) != 2 {
        seq!["product_context.user_language must be a 2-letter ISO code"@]
    } else {
        violation_if(
            f.writing_locales_configured && !f.locale_known,
            "product_context.user_language '"@ + lang + "' is not an active writing locale"@,
        )
    }
}

/// The number of chapters a request asks for: those it lists, else its domain count (three by
/// default).
pub open spec fn chapters_asked(f: ReadingRequestFacts) -> nat {
    if f.chapter_count == 0 {
        match f.domain_count {
            Some(c) => c as nat,
            None => 3,
        }
    } else {
        f.chapter_count as nat
    }
}

/// The violations of the product and its profile, and of the language.
pub open spec fn context_violations(f: ReadingRequestFacts) -> Seq<Seq<char>> {
    violation_if(is_blank(f.product_code@), "product_context.product_code is required"@) + profile_violations(f)
        + language_violations(f)
}

/// The violations of the versions, the provider, the domain count and the temperature.
pub open spec fn engine_violations(f: ReadingRequestFacts, l: ServiceLimits) -> Seq<Seq<char>> {
    violation_if(f.astro_contract_version@.len() == 0, "astro_result.contract_version is required"@)
        + violation_if(f.output_schema_version@.len() == 0, "response_contract.output_schema_version is required"@)
        + violation_if(f.provider_is_custom, "engine.provider custom values are not supported"@)
        + violation_if(
        f.domain_count matches Some(c) && (c == 0 || c > l.max_domain_count),
        "engine.domain_count must be between 1 and "@ + decimal(l.max_domain_count as nat),
    ) + violation_if(f.temperature_out_of_range, "engine.temperature must be between 0.0 and 2.0"@)
}

/// The violations of the instructions, the astrological data, the catalog, the schema version
/// and the number of chapters.
pub open spec fn content_violations(f: ReadingRequestFacts, l: ServiceLimits) -> Seq<Seq<char>> {
    violation_if(
        f.custom_instructions matches Some(c) && utf8_len(c@) > l.max_custom_instructions_chars,
        "custom_instructions exceeds "@ + decimal(l.max_custom_instructions_chars as nat) + " characters"@,
    ) + violation_if(
        f.astro_json_bytes > l.max_astro_json_bytes,
        "astro_result.data exceeds "@ + decimal(l.max_astro_json_bytes as nat) + " bytes"@,
    ) + match first_injected(f.astro_data) {
        Some(s) => seq![injection_report(s)],
        None => seq![],
    } + violation_if(!f.domains_configured, "no astrological domains configured in canonical catalog"@)
        + violation_if(
        f.output_schema_version@ != "natal_reading_v1"@ && f.output_schema_version@ != "chapter_provider_v1"@,
        "unsupported output_schema_version: "@ + f.output_schema_version@,
    ) + violation_if(
        chapters_asked(f) > l.max_chapters_per_request,
        "too many chapters requested (max "@ + decimal(l.max_chapters_per_request as nat) + ")"@,
    )
}

/// Every violation of a request, in the order the validation checks them.
pub open spec fn request_violations(f: ReadingRequestFacts, l: ServiceLimits) -> Seq<Seq<char>> {
    context_violations(f) + engine_violations(f, l) + content_violations(f, l)
}

fn cat(a: &str, b: &str) -> (r: String)
    ensures
        r@ == a@ + b@,
{
    let mut s = a.to_owned();
    s.append(b);
    s
}

fn push_if(out: &mut Vec<String>, cond: bool, text: String)
    ensures
        crate::text::string_views(final(out)@) == crate::text::string_views(old(out)@) + violation_if(cond, text@),
{
    let ghost before = crate::text::string_views(out@);
    if cond {
        out.push(text);
        assert(crate::text::string_views(out@) =~= before + seq![text@]);
    } else {
        assert(before + violation_if(cond, text@) =~= before);
    }
}

/// The length in bytes of a text encoded as UTF-8.
fn utf8_length(s: &str) -> (r: u128)
    ensures
        r as nat == utf8_len(s@),
{
    let cs = chars_of(s);
    let n = cs.len();
    let mut total: u128 = 0;
    let mut i: usize = 0;
    while i < n
        invariant
            n == cs@.len(),
            cs@ == s@,
            i <= n,
            total as nat == utf8_len(cs@.take(i as int)),
            total <= 4 * i,
        decreases n - i,
    {
        let code = cs[i] as u32;
        let w: u128 = if code < 0x80 {
            1
        } else if code < 0x800 {
            2
        } else if code < 0x10000 {
            3
        } else {
            4
        };
        proof {
            assert(cs@.take(i + 1).drop_last() =~= cs@.take(i as int));
        }
        total = total + w;
        i = i + 1;
    }
    proof {
        assert(cs@.take(n as int) =~= cs@);
    }
    total
}

fn context_violation_list(facts: &ReadingRequestFacts) -> (r: Vec<String>)
    ensures
        crate::text::string_views(r@) == context_violations(*facts),
{
    let mut v: Vec<String> = Vec::new();
    proof {
        assert(crate::text::string_views(v@) =~= Seq::<Seq<char>>::empty());
    }
    push_if(&mut v, str_is_blank(facts.product_code.as_str()), "product_context.product_code is required".to_owned());
    let ghost v1 = crate::text::string_views(v@);
    if str_equal(facts.product_code.as_str(), NATAL_PROMPTER_PRODUCT) {
        let code = match &facts.interpretation_profile_code {
            Some(c) => {
                let t = trim_str(c.as_str());
                if chars_of(t.as_str()).len() > 0 {
                    Some(t)
                } else {
                    None
                }
            },
            None => None,
        };
        match code {
            None => push_if(&mut v, true, "product_context.interpretation_profile_code is required for natal_prompter".to_owned()),
            Some(c) => push_if(&mut v, !facts.profile_known, cat("interpretation profile not found or inactive: ", c.as_str())),
        }
    }
    assert(crate::text::string_views(v@) == v1 + profile_violations(*facts));
    let trimmed = trim_str(facts.user_language.as_str());
    let lang = to_lowercase(trimmed.as_str());
    if utf8_length(lang.as_str()) != 2 {
        push_if(&mut v, true, "product_context.user_language must be a 2-letter ISO code".to_owned());
    } else {
        let text = cat(cat("product_context.user_language '", lang.as_str()).as_str(), "' is not an active writing locale");
        push_if(&mut v, facts.writing_locales_configured && !facts.locale_known, text);
    }
    assert(crate::text::string_views(v@) =~= context_violations(*facts));
    v
}

fn engine_violation_list(facts: &ReadingRequestFacts, limits: &ServiceLimits) -> (r: Vec<String>)
    ensures
        crate::text::string_views(r@) == engine_violations(*facts, *limits),
{
    let mut v: Vec<String> = Vec::new();
    proof {
        assert(crate::text::string_views(v@) =~= Seq::<Seq<char>>::empty());
    }
    push_if(&mut v, chars_of(facts.astro_contract_version.as_str()).len() == 0, "astro_result.contract_version is required".to_owned());
    push_if(&mut v, chars_of(facts.output_schema_version.as_str()).len() == 0, "response_contract.output_schema_version is required".to_owned());
    push_if(&mut v, facts.provider_is_custom, "engine.provider custom values are not supported".to_owned());
    let bad_count = match facts.domain_count {
        Some(c) => c == 0 || c > limits.max_domain_count,
        None => false,
    };
    push_if(&mut v, bad_count, cat("engine.domain_count must be between 1 and ", decimal_string(limits.max_domain_count as usize).as_str()));
    push_if(&mut v, facts.temperature_out_of_range, "engine.temperature must be between 0.0 and 2.0".to_owned());
    assert(crate::text::string_views(v@) =~= engine_violations(*facts, *limits));
    v
}

fn content_violation_list(facts: &ReadingRequestFacts, limits: &ServiceLimits) -> (r: Vec<String>)
    ensures
        crate::text::string_views(r@) == content_violations(*facts, *limits),
{
    let mut v: Vec<String> = Vec::new();
    proof {
        assert(crate::text::string_views(v@) =~= Seq::<Seq<char>>::empty());
    }
    let too_long = match &facts.custom_instructions {
        Some(c) => utf8_length(c.as_str()) > limits.max_custom_instructions_chars as u128,
        None => false,
    };
    let text = cat(
        cat("custom_instructions exceeds ", decimal_string(limits.max_custom_instructions_chars).as_str()).as_str(),
        " characters",
    );
    push_if(&mut v, too_long, text);
    let text = cat(cat("astro_result.data exceeds ", decimal_string(limits.max_astro_json_bytes).as_str()).as_str(), " bytes");
    push_if(&mut v, facts.astro_json_bytes > limits.max_astro_json_bytes, text);
    match scan_json_for_injection(&facts.astro_data) {
        Some(report) => push_if(&mut v, true, report),
        None => {},
    }
    push_if(&mut v, !facts.domains_configured, "no astrological domains configured in canonical catalog".to_owned());
    let known = str_equal(facts.output_schema_version.as_str(), "natal_reading_v1") || str_equal(
        facts.output_schema_version.as_str(),
        "chapter_provider_v1",
    );
    push_if(&mut v, !known, cat("unsupported output_schema_version: ", facts.output_schema_version.as_str()));
    let asked: usize = if facts.chapter_count == 0 {
        match facts.domain_count {
            Some(c) => c as usize,
            None => 3,
        }
    } else {
        facts.chapter_count
    };
    let text = cat(cat("too many chapters requested (max ", decimal_string(limits.max_chapters_per_request as usize).as_str()).as_str(), ")");
    push_if(&mut v, asked > limits.max_chapters_per_request as usize, text);
    assert(crate::text::string_views(v@) =~= content_violations(*facts, *limits));
    v
}

/// The validation of a reading request.
pub struct RequestValidator;

impl RequestValidator {
    /// Checks a reading request: it passes where it has no violation (see `request_violations`);
    /// else it is refused as an invalid input, `request validation failed`, whose detail lists
    /// every violation in order under `violations`.
    pub fn validate(facts: &ReadingRequestFacts, limits: &ServiceLimits) -> (r: Result<(), GenerationError>)
        ensures
            r is Ok <==> request_violations(*facts, *limits).len() == 0,
            r matches Err(e) ==> (err_kind(e) == GenerationErrorCode::InvalidInput && err_code(e) == "request validation failed"@
                && (field_arr(e.detail.details, "violations"@) matches Some(items) && strings_in(items) == request_violations(
                *facts,
                *limits,
            ) && items.len() == request_violations(*facts, *limits).len())),
    {
        let mut v = context_violation_list(facts);
        let mut e = engine_violation_list(facts, limits);
        let mut c = content_violation_list(facts, limits);
        let ghost (v0, e0, c0) = (crate::text::string_views(v@), crate::text::string_views(e@), crate::text::string_views(c@));
        v.append(&mut e);
        v.append(&mut c);
        assert(crate::text::string_views(v@) =~= v0 + e0 + c0);
        assert(crate::text::string_views(v@) =~= request_violations(*facts, *limits));
        if v.len() == 0 {
            return Ok(());
        }
        let ghost views = crate::text::string_views(v@);
        let mut items: Vec<JsonValue> = Vec::new();
        let n = v.len();
        let mut i: usize = 0;
        while i < n
            invariant
                n == v@.len(),
                views == crate::text::string_views(v@),
                i <= n,
                items@.len() == i,
                strings_in(items@) == views.take(i as int),
            decreases n - i,
        {
            let ghost before = items@;
            items.push(JsonValue::Str(v[i].clone()));
            proof {
                assert(items@.drop_last() =~= before);
                assert(views.take(i + 1) =~= views.take(i as int).push(v@[i as int]@));
            }
            i = i + 1;
        }
        proof {
            assert(views.take(n as int) =~= views);
        }
        let mut details = JsonValue::Null;
        set_member(&mut details, "violations", JsonValue::Array(items));
        Err(error_with_kind(GenerationErrorCode::InvalidInput, "request validation failed", details))
    }
}

/// Every violation is a text that does not open with `bad`.
pub open spec fn none_opens_with(vs: Seq<Seq<char>>, bad: char) -> bool {
    forall|i: int| 0 <= i < vs.len() ==> (#[trigger] vs[i]).len() > 0 && vs[i][0] != bad
}

proof fn lemma_opens_concat(a: Seq<Seq<char>>, b: Seq<Seq<char>>, bad: char)
    requires
        none_opens_with(a, bad),
        none_opens_with(b, bad),
    ensures
        none_opens_with(a + b, bad),
{
    assert forall|i: int| 0 <= i < (a + b).len() implies (#[trigger] (a + b)[i]).len() > 0 && (a + b)[i][0] != bad by {
        if i < a.len() {
            assert((a + b)[i] == a[i]);
        } else {
            assert((a + b)[i] == b[i - a.len()]);
        }
    }
}

proof fn lemma_opens_piece(cond: bool, head: Seq<char>, rest: Seq<char>, bad: char)
    requires
        head.len() > 0,
        head[0] != bad,
    ensures
        none_opens_with(violation_if(cond, head + rest), bad),
{
    assert((head + rest)[0] == head[0]);
}

proof fn lemma_context_opens(f: ReadingRequestFacts)
    ensures
        none_opens_with(context_violations(f), 'u'),
{
    let e: Seq<char> = Seq::empty();
    reveal_strlit("product_context.product_code is required");
    reveal_strlit("product_context.interpretation_profile_code is required for natal_prompter");
    reveal_strlit("interpretation profile not found or inactive: ");
    reveal_strlit("product_context.user_language must be a 2-letter ISO code");
    reveal_strlit("product_context.user_language '");
    let u = 'u';
    // The context: the product, its profile, the language.
    lemma_opens_piece(is_blank(f.product_code@), "product_context.product_code is required"@, e, u);
    assert("product_context.product_code is required"@ + e =~= "product_context.product_code is required"@);
    if f.product_code@ == NATAL_PROMPTER_PRODUCT@ {
        match profile_code(f) {
            None => {
                lemma_opens_piece(true, "product_context.interpretation_profile_code is required for natal_prompter"@, e, u);
                assert("product_context.interpretation_profile_code is required for natal_prompter"@ + e
                    =~= "product_context.interpretation_profile_code is required for natal_prompter"@);
            },
            Some(c) => lemma_opens_piece(!f.profile_known, "interpretation profile not found or inactive: "@, c, u),
        }
    }
    let lang = lowercase_of(trim(f.user_language@));
    if utf8_len(lang) != 2 {
        lemma_opens_piece(true, "product_context.user_language must be a 2-letter ISO code"@, e, u);
        assert("product_context.user_language must be a 2-letter ISO code"@ + e
            =~= "product_context.user_language must be a 2-letter ISO code"@);
    } else {
        lemma_opens_piece(
            f.writing_locales_configured && !f.locale_known,
            "product_context.user_language '"@,
            lang + "' is not an active writing locale"@,
            u,
        );
        assert("product_context.user_language '"@ + (lang + "' is not an active writing locale"@) =~= "product_context.user_language '"@
            + lang + "' is not an active writing locale"@);
    }
    assert(none_opens_with(profile_violations(f), u));
    assert(none_opens_with(language_violations(f), u));
    lemma_opens_concat(violation_if(is_blank(f.product_code@), "product_context.product_code is required"@), profile_violations(f), u);
    lemma_opens_concat(
        violation_if(is_blank(f.product_code@), "product_context.product_code is required"@) + profile_violations(f),
        language_violations(f),
        u,
    );
}

proof fn lemma_engine_opens(f: ReadingRequestFacts, l: ServiceLimits)
    ensures
        none_opens_with(engine_violations(f, l), 'u'),
{
    let e: Seq<char> = Seq::empty();
    reveal_strlit("astro_result.contract_version is required");
    reveal_strlit("response_contract.output_schema_version is required");
    reveal_strlit("engine.provider custom values are not supported");
    reveal_strlit("engine.domain_count must be between 1 and ");
    reveal_strlit("engine.temperature must be between 0.0 and 2.0");
    let u = 'u';
    // The engine: versions, provider, domain count, temperature.
    let p1 = violation_if(f.astro_contract_version@.len() == 0, "astro_result.contract_version is required"@);
    let p2 = violation_if(f.output_schema_version@.len() == 0, "response_contract.output_schema_version is required"@);
    let p3 = violation_if(f.provider_is_custom, "engine.provider custom values are not supported"@);
    let p4 = violation_if(
        f.domain_count matches Some(c) && (c == 0 || c > l.max_domain_count),
        "engine.domain_count must be between 1 and "@ + decimal(l.max_domain_count as nat),
    );
    let p5 = violation_if(f.temperature_out_of_range, "engine.temperature must be between 0.0 and 2.0"@);
    lemma_opens_piece(f.astro_contract_version@.len() == 0, "astro_result.contract_version is required"@, e, u);
    assert("astro_result.contract_version is required"@ + e =~= "astro_result.contract_version is required"@);
    lemma_opens_piece(f.output_schema_version@.len() == 0, "response_contract.output_schema_version is required"@, e, u);
    assert("response_contract.output_schema_version is required"@ + e =~= "response_contract.output_schema_version is required"@);
    lemma_opens_piece(f.provider_is_custom, "engine.provider custom values are not supported"@, e, u);
    assert("engine.provider custom values are not supported"@ + e =~= "engine.provider custom values are not supported"@);
    lemma_opens_piece(
        f.domain_count matches Some(c) && (c == 0 || c > l.max_domain_count),
        "engine.domain_count must be between 1 and "@,
        decimal(l.max_domain_count as nat),
        u,
    );
    lemma_opens_piece(f.temperature_out_of_range, "engine.temperature must be between 0.0 and 2.0"@, e, u);
    assert("engine.temperature must be between 0.0 and 2.0"@ + e =~= "engine.temperature must be between 0.0 and 2.0"@);
    lemma_opens_concat(p1, p2, u);
    lemma_opens_concat(p1 + p2, p3, u);
    lemma_opens_concat(p1 + p2 + p3, p4, u);
    lemma_opens_concat(p1 + p2 + p3 + p4, p5, u);
}

proof fn lemma_content_opens(f: ReadingRequestFacts, l: ServiceLimits)
    requires
        f.output_schema_version@ == "natal_reading_v1"@ || f.output_schema_version@ == "chapter_provider_v1"@,
    ensures
        none_opens_with(content_violations(f, l), 'u'),
{
    let e: Seq<char> = Seq::empty();
    reveal_strlit("natal_reading_v1");
    reveal_strlit("chapter_provider_v1");
    reveal_strlit("unsupported output_schema_version: ");
    reveal_strlit("custom_instructions exceeds ");
    reveal_strlit("astro_result.data exceeds ");
    reveal_strlit("suspicious instruction in astro payload: ");
    reveal_strlit("no astrological domains configured in canonical catalog");
    reveal_strlit("too many chapters requested (max ");
    let u = 'u';
    // The content: instructions, data, injection, catalog, version, chapters.
    let q1 = violation_if(
        f.custom_instructions matches Some(c) && utf8_len(c@) > l.max_custom_instructions_chars,
        "custom_instructions exceeds "@ + decimal(l.max_custom_instructions_chars as nat) + " characters"@,
    );
    let q2 = violation_if(
        f.astro_json_bytes > l.max_astro_json_bytes,
        "astro_result.data exceeds "@ + decimal(l.max_astro_json_bytes as nat) + " bytes"@,
    );
    let q3 = match crate::payload_sanitizer::first_injected(f.astro_data) {
        Some(t) => seq![crate::payload_sanitizer::injection_report(t)],
        None => Seq::<Seq<char>>::empty(),
    };
    let q4 = violation_if(!f.domains_configured, "no astrological domains configured in canonical catalog"@);
    let q5 = violation_if(
        !(f.output_schema_version@ == "natal_reading_v1"@ || f.output_schema_version@ == "chapter_provider_v1"@),
        "unsupported output_schema_version: "@ + f.output_schema_version@,
    );
    let q6 = violation_if(
        chapters_asked(f) > l.max_chapters_per_request,
        "too many chapters requested (max "@ + decimal(l.max_chapters_per_request as nat) + ")"@,
    );
    lemma_opens_piece(
        f.custom_instructions matches Some(c) && utf8_len(c@) > l.max_custom_instructions_chars,
        "custom_instructions exceeds "@,
        decimal(l.max_custom_instructions_chars as nat) + " characters"@,
        u,
    );
    assert("custom_instructions exceeds "@ + (decimal(l.max_custom_instructions_chars as nat) + " characters"@) =~= "custom_instructions exceeds "@
        + decimal(l.max_custom_instructions_chars as nat) + " characters"@);
    lemma_opens_piece(f.astro_json_bytes > l.max_astro_json_bytes, "astro_result.data exceeds "@, decimal(l.max_astro_json_bytes as nat) + " bytes"@, u);
    assert("astro_result.data exceeds "@ + (decimal(l.max_astro_json_bytes as nat) + " bytes"@) =~= "astro_result.data exceeds "@
        + decimal(l.max_astro_json_bytes as nat) + " bytes"@);
    match crate::payload_sanitizer::first_injected(f.astro_data) {
        Some(t) => {
            assert(("suspicious instruction in astro payload: "@ + t)[0] == 's');
        },
        None => {},
    }
    assert(none_opens_with(q3, u));
    lemma_opens_piece(!f.domains_configured, "no astrological domains configured in canonical catalog"@, e, u);
    assert("no astrological domains configured in canonical catalog"@ + e =~= "no astrological domains configured in canonical catalog"@);
    assert(q5.len() == 0);
    lemma_opens_piece(
        chapters_asked(f) > l.max_chapters_per_request,
        "too many chapters requested (max "@,
        decimal(l.max_chapters_per_request as nat) + ")"@,
        u,
    );
    assert("too many chapters requested (max "@ + (decimal(l.max_chapters_per_request as nat) + ")"@) =~= "too many chapters requested (max "@
        + decimal(l.max_chapters_per_request as nat) + ")"@);
    lemma_opens_concat(q1, q2, u);
    lemma_opens_concat(q1 + q2, q3, u);
    lemma_opens_concat(q1 + q2 + q3, q4, u);
    lemma_opens_concat(q1 + q2 + q3 + q4, q5, u);
    lemma_opens_concat(q1 + q2 + q3 + q4 + q5, q6, u);
}

/// A request whose output schema version is one of the two supported, `natal_reading_v1` or
/// `chapter_provider_v1`, draws no violation about it: no violation reports its version as
/// unsupported.
pub proof fn law_supported_schema_versions_pass(f: ReadingRequestFacts, l: ServiceLimits)
    requires
        f.output_schema_version@ == "natal_reading_v1"@ || f.output_schema_version@ == "chapter_provider_v1"@,
    ensures
        !request_violations(f, l).contains("unsupported output_schema_version: "@ + f.output_schema_version@),
{
    let u = 'u';
    reveal_strlit("unsupported output_schema_version: ");
    lemma_context_opens(f);
    lemma_engine_opens(f, l);
    lemma_content_opens(f, l);
    lemma_opens_concat(context_violations(f), engine_violations(f, l), u);
    lemma_opens_concat(context_violations(f) + engine_violations(f, l), content_violations(f, l), u);
    let target = "unsupported output_schema_version: "@ + f.output_schema_version@;
    assert(target[0] == 'u');
    if request_violations(f, l).contains(target) {
        let i = choose|i: int| 0 <= i < request_violations(f, l).len() && request_violations(f, l)[i] == target;
        assert(request_violations(f, l)[i][0] != u);
    }
}

} // verus!
