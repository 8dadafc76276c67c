//! The public request of a seven-day reading: target language, astrologer persona, and the
//! checks that the request passes before any calculation.
use vstd::prelude::*;

use chrono::Datelike;

use crate::error::{GenerationError, err_code, horoscope_error, quality_error, detail_str};
use crate::json::{JsonEntry, JsonValue, field_str, json_at, json_int};
use crate::period_payload::views;
use crate::quality::holds_any;
use crate::text::{
    chars_of, contains, is_blank, str_contains, str_equal, str_is_blank, string_from_chars, trim,
    trim_str,
};

verus! {

/// The format of a calendar date.
pub const DATE_FORMAT: &'static str = "%Y-%m-%d";

/// What `NaiveDate::parse_from_str(s, format)` makes of a text: `None` where it refuses it,
/// else the date's day of the week (counted from Monday as 0), day of the month and month.
pub uninterp spec fn chrono_date_parts(format: Seq<char>, s: Seq<char>) -> Option<(u32, u32, u32)>;

/// What the date format makes of a text (see `chrono_date_parts`).
pub open spec fn chrono_ymd_parts(s: Seq<char>) -> Option<(u32, u32, u32)> {
    chrono_date_parts(DATE_FORMAT@, s)
}

/// `chrono::NaiveDate::parse_from_str(s, format)`, the date read as its day of the week
/// (`weekday().num_days_from_monday()`), day (`day()`) and month (`month()`): the result is the
/// named reading of the text, and chrono documents the ranges of the three numbers (a weekday
/// below 7, a day from 1 to 31, a month from 1 to 12).
#[verifier::external_body]
pub(crate) fn date_parts(format: &str, s: &str) -> (r: Option<(u32, u32, u32)>)
    ensures
        r == chrono_date_parts(format@, s@),
        r matches Some(p) ==> p.0 < 7 && 1 <= p.1 <= 31 && 1 <= p.2 <= 12,
{
    match chrono::NaiveDate::parse_from_str(s, format) {
        Ok(d) => Some((d.weekday().num_days_from_monday(), d.day(), d.month())),
        Err(_) => None,
    }
}

/// The date of a text in the date format (see `chrono_ymd_parts`).
pub(crate) fn ymd_date_parts(s: &str) -> (r: Option<(u32, u32, u32)>)
    ensures
        r == chrono_ymd_parts(s@),
        r matches Some(p) ==> p.0 < 7 && 1 <= p.1 <= 31 && 1 <= p.2 <= 12,
{
    date_parts(DATE_FORMAT, s)
}

/// The languages a reading can be written in.
#[derive(Debug, Clone, Copy, PartialEq, Eq, Structural)]
pub enum TargetLanguageCode {
    Fr,
    En,
    Es,
    De,
}

/// The code of a language.
pub open spec fn language_code_text(l: TargetLanguageCode) -> Seq<char> {
    match l {
        TargetLanguageCode::Fr => "fr"@,
        TargetLanguageCode::En => "en"@,
        TargetLanguageCode::Es => "es"@,
        TargetLanguageCode::De => "de"@,
    }
}

/// ASCII letters lower-cased, every other character kept (`str::to_ascii_lowercase`).
pub open spec fn ascii_lower(s: Seq<char>) -> Seq<char> {
    s.map_values(|c: char| ascii_lower_char(c))
}

/// An ASCII upper-case letter lower-cased, any other character kept.
pub open spec fn ascii_lower_char(c: char) -> char {
    if 'A' <= c && c <= 'Z' {
        ((c as u8) + 32) as char
    } else {
        c
    }
}

fn lower_ascii_char(c: char) -> (r: char)
    ensures
        r == ascii_lower_char(c),
{
    if 'A' <= c && c <= 'Z' {
        ((c as u8) + 32) as char
    } else {
        c
    }
}

/// `s.to_ascii_lowercase()`.
pub fn to_ascii_lowercase(s: &str) -> (r: String)
    ensures
        r@ == ascii_lower(s@),
{
    let cs = chars_of(s);
    let n = cs.len();
    let mut out: Vec<char> = Vec::new();
    let mut i: usize = 0;
    while i < n
        invariant
            n == cs@.len(),
            cs@ == s@,
            i <= n,
            out@ == ascii_lower(cs@.take(i as int)),
        decreases n - i,
    {
        out.push(lower_ascii_char(cs[i]));
        proof {
            assert(ascii_lower(cs@.take(i + 1)) =~= ascii_lower(cs@.take(i as int)).push(
                ascii_lower_char(cs@[i as int]),
            ));
        }
        i = i + 1;
    }
    proof {
        assert(cs@.take(n as int) =~= cs@);
    }
    string_from_chars(out.as_slice())
}

/// The language a text names, trimmed and lower-cased: `fr` (or nothing), `en`, `es`, `de`.
pub open spec fn parsed_language(value: Seq<char>) -> Option<TargetLanguageCode> {
    let v = ascii_lower(trim(value));
    if v.len() == 0 || v == "fr"@ {
        Some(TargetLanguageCode::Fr)
    } else if v == "en"@ {
        Some(TargetLanguageCode::En)
    } else if v == "es"@ {
        Some(TargetLanguageCode::Es)
    } else if v == "de"@ {
        Some(TargetLanguageCode::De)
    } else {
        None
    }
}

impl TargetLanguageCode {
    /// The code of the language.
    pub fn as_str(&self) -> (r: &'static str)
        ensures
            r@ == language_code_text(*self),
    {
        match self {
            TargetLanguageCode::Fr => "fr",
            TargetLanguageCode::En => "en",
            TargetLanguageCode::Es => "es",
            TargetLanguageCode::De => "de",
        }
    }

    /// Reads a language code, trimmed and case-insensitive; an empty code means French. An
    /// unknown code is refused as unsupported.
    pub fn parse(value: &str) -> (r: Result<Self, GenerationError>)
        ensures
            match parsed_language(value@) {
                Some(l) => r == Ok::<TargetLanguageCode, GenerationError>(l),
                None => (r matches Err(e) && err_code(e) == "HOROSCOPE_PERIOD_LANGUAGE_UNSUPPORTED"@
                    && field_str(e.detail.details, "target_language_code"@) == Some(value@)),
            },
    {
        let trimmed = trim_str(value);
        let v = to_ascii_lowercase(trimmed.as_str());
        if v.as_str().is_empty() || str_equal(v.as_str(), "fr") {
            Ok(TargetLanguageCode::Fr)
        } else if str_equal(v.as_str(), "en") {
            Ok(TargetLanguageCode::En)
        } else if str_equal(v.as_str(), "es") {
            Ok(TargetLanguageCode::Es)
        } else if str_equal(v.as_str(), "de") {
            Ok(TargetLanguageCode::De)
        } else {
            Err(
                quality_error(
                    "HOROSCOPE_PERIOD_LANGUAGE_UNSUPPORTED",
                    detail_str("target_language_code", value),
                ),
            )
        }
    }
}

/// The voice a client asks the astrologer to write in.
#[derive(Debug)]
pub struct AstrologerPersona {
    pub persona_id: Option<String>,
    pub tone: Vec<String>,
    pub lexical_field: Vec<String>,
    pub priority_domains: Vec<String>,
    pub avoid_style: Vec<String>,
    pub interpretation_style: Option<String>,
}

/// The public request of a seven-day reading.
#[derive(Debug)]
pub struct HoroscopePeriodPublicRequest {
    pub anchor_date: String,
    pub timezone: String,
    pub target_language: String,
    pub target_language_code: Option<TargetLanguageCode>,
    pub chart_calculation_id: String,
    pub audience_level: String,
    pub astrologer_persona: Option<AstrologerPersona>,
    pub language_compat_warning: Option<JsonValue>,
}

/// The language a request asks for: the explicit code, or the legacy text read as a code.
pub open spec fn requested_language(r: HoroscopePeriodPublicRequest) -> Option<TargetLanguageCode> {
    match r.target_language_code {
        Some(l) => Some(l),
        None => parsed_language(r.target_language@),
    }
}

impl HoroscopePeriodPublicRequest {
    /// The language the request asks for; an unknown legacy code is refused.
    pub fn normalized_target_language_code(&self) -> (r: Result<TargetLanguageCode, GenerationError>)
        ensures
            match requested_language(*self) {
                Some(l) => r == Ok::<TargetLanguageCode, GenerationError>(l),
                None => (r matches Err(e) && err_code(e) == "HOROSCOPE_PERIOD_LANGUAGE_UNSUPPORTED"@),
            },
    {
        match self.target_language_code {
            Some(l) => Ok(l),
            None => TargetLanguageCode::parse(self.target_language.as_str()),
        }
    }
}

/// The UTF-8 length of a character.
pub open spec fn utf8_width(c: char) -> nat {
    if (c as u32) < 0x80 {
        1
    } else if (c as u32) < 0x800 {
        2
    } else if (c as u32) < 0x10000 {
        3
    } else {
        4
    }
}

/// The UTF-8 length of a text (`str::len`).
pub open spec fn utf8_len(s: Seq<char>) -> nat
    decreases s.len(),
{
    if s.len() == 0 {
        0
    } else {
        utf8_len(s.drop_last()) + utf8_width(s.last())
    }
}

/// Whether the UTF-8 length of the text exceeds the limit.
pub(crate) fn utf8_len_exceeds(s: &str, limit: usize) -> (r: bool)
    requires
        limit < usize::MAX - 4,
    ensures
        r == (utf8_len(s@) > limit),
{
    let cs = chars_of(s);
    let n = cs.len();
    let mut total: usize = 0;
    let mut i: usize = 0;
    while i < n
        invariant
            n == cs@.len(),
            cs@ == s@,
            i <= n,
            limit < usize::MAX - 4,
            total as nat == utf8_len(cs@.take(i as int)),
            total <= limit,
        decreases n - i,
    {
        let code = cs[i] as u32;
        let w: usize = if code < 0x80 {
            1
        } else if code < 0x800 {
            2
        } else if code < 0x10000 {
            3
        } else {
            4
        };
        proof {
            assert(cs@.take(i + 1).drop_last() =~= cs@.take(i as int));
        }
        total = total + w;
        i = i + 1;
        if total > limit {
            proof {
                lemma_utf8_len_prefix(cs@, i as int);
            }
            return true;
        }
    }
    proof {
        assert(cs@.take(n as int) =~= cs@);
    }
    false
}

proof fn lemma_utf8_len_prefix(s: Seq<char>, i: int)
    requires
        0 <= i <= s.len(),
    ensures
        utf8_len(s.take(i)) <= utf8_len(s),
    decreases s.len() - i,
{
    if i < s.len() {
        lemma_utf8_len_prefix(s, i + 1);
        assert(s.take(i + 1).drop_last() =~= s.take(i));
    } else {
        assert(s.take(i) =~= s);
    }
}

/// The fragments a persona may not carry.
pub open spec fn persona_forbidden() -> Seq<Seq<char>> {
    seq![
        "ignore previous"@,
        "ignore toutes"@,
        "system prompt"@,
        "developer message"@,
        "hors schema"@,
        "diagnostic médical"@,
        "diagnostic medical"@,
        "certitude"@,
        "tu vas mourir"@,
        "gain garanti"@,
    ]
}

/// A persona fragment is refused when, trimmed, it is longer than 120 bytes or holds a forbidden
/// fragment (ASCII case ignored).
pub open spec fn fragment_refused(value: Seq<char>) -> bool {
    utf8_len(trim(value)) > 120 || holds_any(ascii_lower(trim(value)), persona_forbidden())
}

/// Refuses a persona fragment that is too long or holds a forbidden fragment.
pub fn validate_persona_fragment(value: &str) -> (r: Result<(), GenerationError>)
    ensures
        r is Err <==> fragment_refused(value@),
        r matches Err(e) ==> err_code(e) == "HOROSCOPE_PERIOD_PERSONA_INVALID"@ && field_str(
            e.detail.details,
            "reason"@,
        ) == Some(
            if utf8_len(trim(value@)) > 120 {
                "fragment_too_long"@
            } else {
                "forbidden_fragment"@
            },
        ),
{
    let trimmed = trim_str(value);
    if utf8_len_exceeds(trimmed.as_str(), 120) {
        return Err(quality_error("HOROSCOPE_PERIOD_PERSONA_INVALID", detail_str("reason", "fragment_too_long")));
    }
    let lower = to_ascii_lowercase(trimmed.as_str());
    let forbidden = [
        "ignore previous",
        "ignore toutes",
        "system prompt",
        "developer message",
        "hors schema",
        "diagnostic médical",
        "diagnostic medical",
        "certitude",
        "tu vas mourir",
        "gain garanti",
    ];
    proof {
        assert(views(forbidden@) =~= persona_forbidden());
    }
    if crate::quality::contains_any(lower.as_str(), &forbidden) {
        return Err(quality_error("HOROSCOPE_PERIOD_PERSONA_INVALID", detail_str("reason", "forbidden_fragment")));
    }
    Ok(())
}

/// Refuses a persona list longer than `max`; the detail names the field and the maximum.
pub fn validate_persona_vec(field: &str, values: &Vec<String>, max: usize) -> (r: Result<(), GenerationError>)
    ensures
        r is Err <==> values@.len() > max,
        r matches Err(e) ==> err_code(e) == "HOROSCOPE_PERIOD_PERSONA_INVALID"@ && field_str(
            e.detail.details,
            "field"@,
        ) == Some(field@),
{
    if values.len() > max {
        let mut entries: Vec<JsonEntry> = Vec::new();
        entries.push(JsonEntry { key: "field".to_owned(), value: JsonValue::Str(field.to_owned()) });
        let wide = max as u64;
        let n: i64 = if wide <= 0x7fff_ffff_ffff_ffffu64 { wide as i64 } else { 0x7fff_ffff_ffff_ffffi64 };
        entries.push(JsonEntry { key: "max_items".to_owned(), value: JsonValue::Int(n) });
        proof {
            assert(entries@.last().key@ != "field"@) by {
                reveal_strlit("max_items");
                reveal_strlit("field");
                assert(entries@.last().key@.len() != "field"@.len());
            }
            assert(entries@.drop_last().drop_last().len() == 0);
            assert(entries@.drop_first()[0] == entries@[1]);
        }
        return Err(quality_error("HOROSCOPE_PERIOD_PERSONA_INVALID", JsonValue::Object(entries)));
    }
    Ok(())
}

/// The strings of a persona in the order they are checked: tone, lexical field, priority
/// domains, avoided styles, then the persona id and the interpretation style where present.
pub open spec fn persona_fragments(p: AstrologerPersona) -> Seq<Seq<char>> {
    crate::text::string_views(p.tone@) + crate::text::string_views(p.lexical_field@)
        + crate::text::string_views(p.priority_domains@) + crate::text::string_views(p.avoid_style@)
        + match p.persona_id {
        Some(s) => seq![s@],
        None => seq![],
    } + match p.interpretation_style {
        Some(s) => seq![s@],
        None => seq![],
    }
}

/// A persona passes when its lists are within their sizes and none of its strings is refused.
pub open spec fn persona_ok(p: AstrologerPersona) -> bool {
    &&& p.tone@.len() <= 8
    &&& p.lexical_field@.len() <= 20
    &&& p.priority_domains@.len() <= 12
    &&& p.avoid_style@.len() <= 20
    &&& forall|i: int| 0 <= i < persona_fragments(p).len() ==> !fragment_refused(#[trigger] persona_fragments(p)[i])
}

fn validate_fragments(values: &Vec<String>) -> (r: Result<(), GenerationError>)
    ensures
        r is Ok <==> forall|i: int| 0 <= i < values@.len() ==> !fragment_refused(#[trigger] values@[i]@),
        r matches Err(e) ==> err_code(e) == "HOROSCOPE_PERIOD_PERSONA_INVALID"@,
{
    let n = values.len();
    let mut i: usize = 0;
    while i < n
        invariant
            n == values@.len(),
            i <= n,
            forall|j: int| 0 <= j < i ==> !fragment_refused(#[trigger] values@[j]@),
        decreases n - i,
    {
        let res = validate_persona_fragment(values[i].as_str());
        if res.is_err() {
            return res;
        }
        i = i + 1;
    }
    Ok(())
}

/// Refuses a persona with too many items in a list, or with a refused string.
pub fn validate_astrologer_persona(persona: &AstrologerPersona) -> (r: Result<(), GenerationError>)
    ensures
        r is Ok <==> persona_ok(*persona),
        r matches Err(e) ==> err_code(e) == "HOROSCOPE_PERIOD_PERSONA_INVALID"@,
{
    validate_persona_vec("tone", &persona.tone, 8)?;
    validate_persona_vec("lexical_field", &persona.lexical_field, 20)?;
    validate_persona_vec("priority_domains", &persona.priority_domains, 12)?;
    validate_persona_vec("avoid_style", &persona.avoid_style, 20)?;
    let ghost all = persona_fragments(*persona);
    let ghost a = crate::text::string_views(persona.tone@);
    let ghost b = crate::text::string_views(persona.lexical_field@);
    let ghost c = crate::text::string_views(persona.priority_domains@);
    let ghost d = crate::text::string_views(persona.avoid_style@);
    let r1 = validate_fragments(&persona.tone);
    if r1.is_err() {
        proof {
            let j = choose|j: int| 0 <= j < persona.tone@.len() && fragment_refused(#[trigger] persona.tone@[j]@);
            assert(all[j] == a[j]);
        }
        return r1;
    }
    let r2 = validate_fragments(&persona.lexical_field);
    if r2.is_err() {
        proof {
            let j = choose|j: int| 0 <= j < persona.lexical_field@.len() && fragment_refused(#[trigger] persona.lexical_field@[j]@);
            assert(all[a.len() + j] == b[j]);
        }
        return r2;
    }
    let r3 = validate_fragments(&persona.priority_domains);
    if r3.is_err() {
        proof {
            let j = choose|j: int| 0 <= j < persona.priority_domains@.len() && fragment_refused(#[trigger] persona.priority_domains@[j]@);
            assert(all[a.len() + b.len() + j] == c[j]);
        }
        return r3;
    }
    let r4 = validate_fragments(&persona.avoid_style);
    if r4.is_err() {
        proof {
            let j = choose|j: int| 0 <= j < persona.avoid_style@.len() && fragment_refused(#[trigger] persona.avoid_style@[j]@);
            assert(all[a.len() + b.len() + c.len() + j] == d[j]);
        }
        return r4;
    }
    let ghost base = a.len() + b.len() + c.len() + d.len();
    match &persona.persona_id {
        Some(s) => {
            let r5 = validate_persona_fragment(s.as_str());
            if r5.is_err() {
                assert(all[base as int] == s@);
                return r5;
            }
        },
        None => {},
    }
    match &persona.interpretation_style {
        Some(s) => {
            let r6 = validate_persona_fragment(s.as_str());
            if r6.is_err() {
                assert(all[all.len() - 1] == s@);
                return r6;
            }
        },
        None => {},
    }
    proof {
        assert forall|i: int| 0 <= i < all.len() implies !fragment_refused(#[trigger] all[i]) by {
            if i < a.len() {
                assert(all[i] == persona.tone@[i]@);
            } else if i < a.len() + b.len() {
                assert(all[i] == persona.lexical_field@[i - a.len()]@);
            } else if i < a.len() + b.len() + c.len() {
                assert(all[i] == persona.priority_domains@[i - a.len() - b.len()]@);
            } else if i < a.len() + b.len() + c.len() + d.len() {
                assert(all[i] == persona.avoid_style@[i - a.len() - b.len() - c.len()]@);
            }
        }
    }
    Ok(())
}

/// The first failure of a public request, in the order the checks run.
pub open spec fn public_request_check(
    request: HoroscopePeriodPublicRequest,
    timezone_known: bool,
) -> Option<Seq<char>> {
    if is_blank(request.chart_calculation_id@) {
        Some("HOROSCOPE_PERIOD_NATAL_CHART_REQUIRED"@)
    } else if chrono_ymd_parts(request.anchor_date@) is None {
        Some("HOROSCOPE_PERIOD_ANCHOR_DATE_REQUIRED"@)
    } else if !timezone_known {
        Some("HOROSCOPE_PERIOD_TIMEZONE_REQUIRED"@)
    } else if requested_language(request) is None {
        Some("HOROSCOPE_PERIOD_LANGUAGE_UNSUPPORTED"@)
    } else if request.astrologer_persona matches Some(p) && !persona_ok(p) {
        Some("HOROSCOPE_PERIOD_PERSONA_INVALID"@)
    } else {
        None
    }
}

/// The legacy language text is ignored: the payload carried it, an explicit code takes
/// precedence, and the legacy text names another language.
pub open spec fn legacy_language_ignored(request: HoroscopePeriodPublicRequest, payload_has_target_language: bool) -> bool {
    &&& payload_has_target_language
    &&& request.target_language_code is Some
    &&& ascii_lower(trim(request.target_language@)).len() > 0
    &&& ascii_lower(trim(request.target_language@)) != language_code_text(request.target_language_code->0)
}

/// Checks a parsed public request: a natal chart, a calendar anchor date, a known time zone
/// (`timezone_known`, which the caller establishes), a supported language and a sound persona.
/// The accepted request carries the normalized language both as code and as text; where an
/// explicit code overrides a different legacy language, a compatibility warning records it.
pub fn validate_period_public_request(
    request: HoroscopePeriodPublicRequest,
    payload_has_target_language: bool,
    timezone_known: bool,
) -> (r: Result<HoroscopePeriodPublicRequest, GenerationError>)
    ensures
        match public_request_check(request, timezone_known) {
            Some(code) => (r matches Err(e) && err_code(e) == code),
            None => (r matches Ok(out) && {
                let l = requested_language(request)->0;
                &&& out.target_language_code == Some(l)
                &&& out.target_language@ == language_code_text(l)
                &&& out.anchor_date == request.anchor_date
                &&& out.timezone == request.timezone
                &&& out.chart_calculation_id == request.chart_calculation_id
                &&& out.audience_level == request.audience_level
                &&& out.astrologer_persona == request.astrologer_persona
                &&& if legacy_language_ignored(request, payload_has_target_language) {
                    out.language_compat_warning matches Some(w) && field_str(w, "target_language"@)
                        == Some(ascii_lower(trim(request.target_language@))) && field_str(
                        w,
                        "target_language_code"@,
                    ) == Some(language_code_text(request.target_language_code->0)) && field_str(
                        w,
                        "reason"@,
                    ) == Some("target_language_code_takes_precedence"@)
                } else {
                    out.language_compat_warning == request.language_compat_warning
                }
            }),
        },
{
    let mut request = request;
    if str_is_blank(request.chart_calculation_id.as_str()) {
        return Err(horoscope_error("HOROSCOPE_PERIOD_NATAL_CHART_REQUIRED"));
    }
    if ymd_date_parts(request.anchor_date.as_str()).is_none() {
        return Err(horoscope_error("HOROSCOPE_PERIOD_ANCHOR_DATE_REQUIRED"));
    }
    if !timezone_known {
        return Err(horoscope_error("HOROSCOPE_PERIOD_TIMEZONE_REQUIRED"));
    }
    let language = request.normalized_target_language_code()?;
    if payload_has_target_language {
        match request.target_language_code {
            Some(explicit) => {
                let trimmed = trim_str(request.target_language.as_str());
                let legacy = to_ascii_lowercase(trimmed.as_str());
                if !legacy.as_str().is_empty() && !str_equal(legacy.as_str(), explicit.as_str()) {
                    request.language_compat_warning = Some(compat_warning(legacy.as_str(), explicit.as_str()));
                }
            },
            None => {},
        }
    }
    request.target_language = language.as_str().to_owned();
    request.target_language_code = Some(language);
    match &request.astrologer_persona {
        Some(p) => {
            validate_astrologer_persona(p)?;
        },
        None => {},
    }
    Ok(request)
}

/// The warning that a legacy language was ignored in favour of the explicit code.
fn compat_warning(legacy: &str, code: &str) -> (r: JsonValue)
    ensures
        field_str(r, "target_language"@) == Some(legacy@),
        field_str(r, "target_language_code"@) == Some(code@),
        field_str(r, "reason"@) == Some("target_language_code_takes_precedence"@),
{
    let mut entries: Vec<JsonEntry> = Vec::new();
    entries.push(JsonEntry { key: "legacy_target_language_ignored".to_owned(), value: JsonValue::Bool(true) });
    entries.push(JsonEntry { key: "target_language".to_owned(), value: JsonValue::Str(legacy.to_owned()) });
    entries.push(JsonEntry { key: "target_language_code".to_owned(), value: JsonValue::Str(code.to_owned()) });
    entries.push(
        JsonEntry {
            key: "reason".to_owned(),
            value: JsonValue::Str("target_language_code_takes_precedence".to_owned()),
        },
    );
    proof {
        reveal_strlit("legacy_target_language_ignored");
        reveal_strlit("target_language");
        reveal_strlit("target_language_code");
        reveal_strlit("reason");
        let e = entries@;
        assert(e[0].key@[0] != "target_language"@[0]);
        assert(e[0].key@[0] != "target_language_code"@[0]);
        assert(e[0].key@[0] != "reason"@[0]);
        assert(e[1].key@.len() != "target_language_code"@.len());
        assert(e[1].key@[0] != "reason"@[0]);
        assert(e[2].key@[0] != "reason"@[0]);
        crate::json::lemma_lookup_first(e, 1, "target_language"@);
        crate::json::lemma_lookup_first(e, 2, "target_language_code"@);
        crate::json::lemma_lookup_first(e, 3, "reason"@);
    }
    JsonValue::Object(entries)
}

} // verus!
