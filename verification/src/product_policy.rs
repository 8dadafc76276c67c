//! The generation policy of a product: which provider, model and mode it allows, and how many
//! domains, chapters and output tokens a request may ask for.
use vstd::prelude::*;

use crate::error::{GenerationError, GenerationErrorCode, err_code, err_kind, error_with_kind, detail_str};
use crate::json::{JsonEntry, JsonValue};

verus! {

/// The limits of a product's generation policy.
#[derive(Debug)]
pub struct ProductGenerationLimits {
    pub product_code: String,
    pub max_domains: u8,
    pub max_chapters: u8,
    pub max_output_tokens: u32,
}

/// What the policy check reads of a request and of the resolved engine. The three verdicts are
/// those of the product policy on the resolved provider, model and generation mode.
#[derive(Debug)]
pub struct PolicyRequest {
    pub provider_allowed: bool,
    pub model_allowed: bool,
    pub mode_allowed: bool,
    pub provider: String,
    pub model: String,
    pub generation_mode: String,
    pub domain_count: Option<u8>,
    pub requested_chapters: usize,
    pub max_output_tokens: Option<u32>,
}

/// The number of domains a request asks for: the explicit count, else 3.
pub open spec fn requested_domains(r: PolicyRequest) -> u8 {
    match r.domain_count {
        Some(d) => d,
        None => 3,
    }
}

/// The number of chapters a request asks for: the domain count where it lists none, else the
/// number it lists, as a `u8` (taken modulo 256).
pub open spec fn requested_chapter_count(r: PolicyRequest) -> u8 {
    if r.requested_chapters == 0 {
        requested_domains(r)
    } else {
        r.requested_chapters as u8
    }
}

/// The first rule of the policy that the request breaks.
pub open spec fn policy_check(r: PolicyRequest, p: ProductGenerationLimits) -> Option<Seq<char>> {
    if !r.provider_allowed {
        Some("provider not allowed for this product"@)
    } else if !r.model_allowed {
        Some("model not allowed for this product"@)
    } else if !r.mode_allowed {
        Some("generation mode not allowed for this product"@)
    } else if requested_domains(r) > p.max_domains {
        Some("domain_count exceeds product maximum ("@ + crate::text::decimal(p.max_domains as nat) + ")"@)
    } else if requested_chapter_count(r) > p.max_chapters {
        Some("chapter count exceeds product maximum ("@ + crate::text::decimal(p.max_chapters as nat) + ")"@)
    } else if r.max_output_tokens matches Some(t) && t > p.max_output_tokens {
        Some("max_output_tokens exceeds product limit"@)
    } else {
        None
    }
}

/// The product policy check.
pub struct ProductPolicyValidator;

impl ProductPolicyValidator {
    /// Refuses a request that the product's policy does not allow: provider, model and mode
    /// first, then the number of domains, of chapters, and the output budget.
    pub fn validate_against_policy(request: &PolicyRequest, policy: &ProductGenerationLimits) -> (r: Result<
        (),
        GenerationError,
    >)
        ensures
            match policy_check(*request, *policy) {
                Some(m) => (r matches Err(e) && err_code(e) == m),
                None => r is Ok,
            },
            r matches Err(e) ==> err_kind(e) == GenerationErrorCode::ProductPolicyViolation,
    {
        if !request.provider_allowed {
            return Err(
                error_with_kind(GenerationErrorCode::ProductPolicyViolation, "provider not allowed for this product", detail_str("provider", request.provider.as_str())),
            );
        }
        if !request.model_allowed {
            return Err(error_with_kind(GenerationErrorCode::ProductPolicyViolation, "model not allowed for this product", detail_str("model", request.model.as_str())));
        }
        if !request.mode_allowed {
            return Err(
                error_with_kind(GenerationErrorCode::ProductPolicyViolation, 
                    "generation mode not allowed for this product",
                    detail_str("generation_mode", request.generation_mode.as_str()),
                ),
            );
        }
        let domain_count: u8 = match request.domain_count {
            Some(d) => d,
            None => 3,
        };
        if domain_count > policy.max_domains {
            let mut m = "domain_count exceeds product maximum (".to_owned();
            let digits = crate::text::decimal_string(policy.max_domains as usize);
            m.append(digits.as_str());
            m.append(")");
            let mut details: Vec<JsonEntry> = Vec::new();
            details.push(JsonEntry { key: "max_domains".to_owned(), value: JsonValue::Int(policy.max_domains as i64) });
            return Err(error_with_kind(GenerationErrorCode::ProductPolicyViolation, m.as_str(), JsonValue::Object(details)));
        }
        let chapter_count: u8 = if request.requested_chapters == 0 {
            domain_count
        } else {
            request.requested_chapters as u8
        };
        if chapter_count > policy.max_chapters {
            let mut m = "chapter count exceeds product maximum (".to_owned();
            let digits = crate::text::decimal_string(policy.max_chapters as usize);
            m.append(digits.as_str());
            m.append(")");
            let mut details: Vec<JsonEntry> = Vec::new();
            details.push(JsonEntry { key: "max_chapters".to_owned(), value: JsonValue::Int(policy.max_chapters as i64) });
            return Err(error_with_kind(GenerationErrorCode::ProductPolicyViolation, m.as_str(), JsonValue::Object(details)));
        }
        match request.max_output_tokens {
            Some(tokens) => {
                if tokens > policy.max_output_tokens {
                    let mut details: Vec<JsonEntry> = Vec::new();
                    details.push(
                        JsonEntry {
                            key: "max_output_tokens".to_owned(),
                            value: JsonValue::Int(policy.max_output_tokens as i64),
                        },
                    );
                    return Err(error_with_kind(GenerationErrorCode::ProductPolicyViolation, "max_output_tokens exceeds product limit", JsonValue::Object(details)));
                }
            },
            None => {},
        }
        Ok(())
    }
}

} // verus!
