//! The service codes of the horoscope products.
use vstd::prelude::*;

use crate::error::{GenerationError, err_code, horoscope_error};
use crate::text::str_equal;

verus! {

pub const HOROSCOPE_BASIC_DAILY_NATAL_SERVICE_CODE: &'static str = "horoscope_basic_daily_natal_3_slots";

pub const HOROSCOPE_FREE_DAILY_SERVICE_CODE: &'static str = "horoscope_free_daily";

pub const HOROSCOPE_PREMIUM_DAILY_LOCAL_2H_SLOTS_SERVICE_CODE: &'static str =
    "horoscope_premium_daily_local_2h_slots";

pub const HOROSCOPE_BASIC_NEXT_7_DAYS_NATAL_SERVICE_CODE: &'static str =
    "horoscope_basic_next_7_days_natal";

pub const HOROSCOPE_FREE_NEXT_7_DAYS_NATAL_SERVICE_CODE: &'static str = "horoscope_free_next_7_days_natal";

pub const HOROSCOPE_PREMIUM_NEXT_7_DAYS_NATAL_SERVICE_CODE: &'static str =
    "horoscope_premium_next_7_days_natal";

/// The daily services that the daily pipeline implements.
pub open spec fn is_supported_daily_service(code: Seq<char>) -> bool {
    ||| code == HOROSCOPE_BASIC_DAILY_NATAL_SERVICE_CODE@
    ||| code == HOROSCOPE_FREE_DAILY_SERVICE_CODE@
    ||| code == HOROSCOPE_PREMIUM_DAILY_LOCAL_2H_SLOTS_SERVICE_CODE@
}

/// The seven-day services that the period pipeline implements.
pub open spec fn is_period_service(code: Seq<char>) -> bool {
    ||| code == HOROSCOPE_FREE_NEXT_7_DAYS_NATAL_SERVICE_CODE@
    ||| code == HOROSCOPE_BASIC_NEXT_7_DAYS_NATAL_SERVICE_CODE@
    ||| code == HOROSCOPE_PREMIUM_NEXT_7_DAYS_NATAL_SERVICE_CODE@
}

/// Accepts the daily services, refuses any other code as not implemented.
pub fn validate_supported_service_code(service_code: &str) -> (r: Result<(), GenerationError>)
    ensures
        r is Ok <==> is_supported_daily_service(service_code@),
        r matches Err(e) ==> err_code(e) == "HOROSCOPE_SERVICE_NOT_IMPLEMENTED"@,
{
    if str_equal(service_code, HOROSCOPE_BASIC_DAILY_NATAL_SERVICE_CODE) || str_equal(
        service_code,
        HOROSCOPE_FREE_DAILY_SERVICE_CODE,
    ) || str_equal(service_code, HOROSCOPE_PREMIUM_DAILY_LOCAL_2H_SLOTS_SERVICE_CODE) {
        return Ok(());
    }
    Err(horoscope_error("HOROSCOPE_SERVICE_NOT_IMPLEMENTED"))
}

/// Accepts the seven-day services, refuses any other code as not implemented.
pub fn validate_period_service_code(service_code: &str) -> (r: Result<(), GenerationError>)
    ensures
        r is Ok <==> is_period_service(service_code@),
        r matches Err(e) ==> err_code(e) == "HOROSCOPE_SERVICE_NOT_IMPLEMENTED"@,
{
    if str_equal(service_code, HOROSCOPE_FREE_NEXT_7_DAYS_NATAL_SERVICE_CODE) || str_equal(
        service_code,
        HOROSCOPE_BASIC_NEXT_7_DAYS_NATAL_SERVICE_CODE,
    ) || str_equal(service_code, HOROSCOPE_PREMIUM_NEXT_7_DAYS_NATAL_SERVICE_CODE) {
        return Ok(());
    }
    Err(horoscope_error("HOROSCOPE_SERVICE_NOT_IMPLEMENTED"))
}

/// The free seven-day service.
pub open spec fn free_period_service(code: Seq<char>) -> bool {
    code == HOROSCOPE_FREE_NEXT_7_DAYS_NATAL_SERVICE_CODE@
}

/// The premium seven-day service.
pub open spec fn premium_period_service(code: Seq<char>) -> bool {
    code == HOROSCOPE_PREMIUM_NEXT_7_DAYS_NATAL_SERVICE_CODE@
}

/// Whether a service code is the free seven-day service.
pub fn is_free_period_service(service_code: &str) -> (r: bool)
    ensures
        r == free_period_service(service_code@),
{
    str_equal(service_code, HOROSCOPE_FREE_NEXT_7_DAYS_NATAL_SERVICE_CODE)
}

/// Whether a service code is the premium seven-day service.
pub fn is_premium_period_service(service_code: &str) -> (r: bool)
    ensures
        r == premium_period_service(service_code@),
{
    str_equal(service_code, HOROSCOPE_PREMIUM_NEXT_7_DAYS_NATAL_SERVICE_CODE)
}

} // verus!
