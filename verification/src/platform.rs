//! Per-source balance extraction and currency normalization.
//!
//! Modrinth reports two optional string-encoded USD amounts, `available` and
//! `pending`; their exact sum is the balance. CurseForge reports one optional
//! integer count of reward points, worth five dollars per hundred points.
//! Both normalize to whole USD cents by flooring — never rounding up, a
//! deliberate conservative-estimate policy.

use vstd::prelude::*;
use vstd::arithmetic::div_mod::{
    lemma_div_multiples_vanish, lemma_fundamental_div_mod, lemma_mod_division_less_than_divisor,
};
use crate::decimal::{decimal_nanos, is_decimal_string, parse_decimal_nanos};
use crate::error::{BalanceError, ExtractionFailure};
use crate::jsonval::{get_str_field, get_u64_field, str_field, u64_field};

verus! {

/// A validated Modrinth balance: the exact sum of the `available` and
/// `pending` amounts, in nanodollars.
#[derive(Clone, Copy, Debug)]
pub struct ModrinthBalance {
    pub nanos: u64,
}

/// A validated CurseForge balance: a count of reward points.
#[derive(Clone, Copy, Debug)]
pub struct CurseForgeBalance {
    pub points: u64,
}

/// A normalized USD amount: whole cents. Non-negative by construction and
/// whole, so it carries at most two fractional decimal digits of USD.
#[derive(Clone, Copy, Debug)]
pub struct NormalizedAmount {
    pub cents: u128,
}

/// The three-way outcome of extracting one source's balance from its raw
/// payload: the source reported nothing, a present field was malformed, or a
/// validated balance. Absence and failure are distinct on purpose: a parse
/// error must never pass for a legitimate "nothing to report".
#[derive(Debug)]
pub enum Extraction<T> {
    Absent,
    Failed(ExtractionFailure),
    Present(T),
}

/// Both of Modrinth's relevant fields are missing from the payload: the
/// source reports nothing at all this cycle.
pub open spec fn modrinth_absent(v: serde_json::Value) -> bool {
    str_field(v, "available"@) is None && str_field(v, "pending"@) is None
}

/// The field under `key` is either absent or a well-formed decimal amount.
pub open spec fn field_parses(v: serde_json::Value, key: Seq<char>) -> bool {
    match str_field(v, key) {
        Some(s) => is_decimal_string(s),
        None => true,
    }
}

/// The nanodollar value of the field under `key`, an absent field counting
/// as zero.
pub open spec fn field_nanos(v: serde_json::Value, key: Seq<char>) -> int {
    match str_field(v, key) {
        Some(s) => decimal_nanos(s),
        None => 0,
    }
}

/// The Modrinth balance a payload denotes: the sum of both fields.
pub open spec fn modrinth_nanos(v: serde_json::Value) -> int {
    field_nanos(v, "available"@) + field_nanos(v, "pending"@)
}

/// Extracts Modrinth's balance from a raw payload.
///
/// Both fields absent is legitimate absence, not an error. A present field
/// that does not parse is a structured failure naming that field — checked
/// for `available` first — and carrying the whole payload. Otherwise the
/// balance is the exact sum of the present fields, a missing one counting as
/// zero.
pub fn extract_modrinth_balance(payload: serde_json::Value) -> (r: Extraction<ModrinthBalance>)
    ensures
        (r is Absent <==> modrinth_absent(payload)),
        (r is Present <==> !modrinth_absent(payload) && field_parses(payload, "available"@)
            && field_parses(payload, "pending"@)),
        (r matches Extraction::Present(b) ==> b.nanos == modrinth_nanos(payload)),
        (r matches Extraction::Failed(f) ==> {
            &&& f.json == payload
            &&& f.platform@ == "Modrinth"@
            &&& f.error matches BalanceError::ParseError(field)
            &&& (if !field_parses(payload, "available"@) {
                field@ == "available"@
            } else {
                field@ == "pending"@ && !field_parses(payload, "pending"@)
            })
        }),
{
    let available = get_str_field(&payload, "available");
    let pending = get_str_field(&payload, "pending");
    if available.is_none() && pending.is_none() {
        return Extraction::Absent;
    }
    let available_nanos: u64 = match available {
        Some(s) => match parse_decimal_nanos(s.as_str()) {
            Some(n) => n,
            None => {
                return Extraction::Failed(ExtractionFailure {
                    platform: "Modrinth".to_owned(),
                    error: BalanceError::ParseError("available"),
                    json: payload,
                });
            },
        },
        None => 0,
    };
    let pending_nanos: u64 = match pending {
        Some(s) => match parse_decimal_nanos(s.as_str()) {
            Some(n) => n,
            None => {
                return Extraction::Failed(ExtractionFailure {
                    platform: "Modrinth".to_owned(),
                    error: BalanceError::ParseError("pending"),
                    json: payload,
                });
            },
        },
        None => 0,
    };
    Extraction::Present(ModrinthBalance { nanos: available_nanos + pending_nanos })
}

/// Extracts CurseForge's balance from a raw payload.
///
/// The source distinguishes nothing beyond presence: a missing `userPoints`
/// field, or one that is not a non-negative integer, is absence, and this
/// extraction never fails.
pub fn extract_curseforge_balance(payload: serde_json::Value) -> (r: Extraction<CurseForgeBalance>)
    ensures
        (r is Absent <==> u64_field(payload, "userPoints"@) is None),
        (r matches Extraction::Present(b) ==> u64_field(payload, "userPoints"@) == Some(b.points)),
        !(r is Failed),
{
    match get_u64_field(&payload, "userPoints") {
        Some(p) => Extraction::Present(CurseForgeBalance { points: p }),
        None => Extraction::Absent,
    }
}

/// The truncation shared by both sources: a nanodollar value floored to whole
/// cents, i.e. floor(usd * 100) / 100 expressed in integers.
pub open spec fn nanos_to_cents(nanos: int) -> int {
    nanos / 10_000_000
}

/// Normalizes a Modrinth balance — already a USD amount — by truncating to
/// two decimal places. The result never exceeds the balance: flooring, not
/// rounding, so the pipeline never reports more money than is held.
pub fn modrinth_balance_as_usd(balance: ModrinthBalance) -> (r: NormalizedAmount)
    ensures
        r.cents == nanos_to_cents(balance.nanos as int),
        r.cents * 10_000_000 <= balance.nanos,
        balance.nanos < (r.cents + 1) * 10_000_000,
{
    proof {
        lemma_fundamental_div_mod(balance.nanos as int, 10_000_000);
        lemma_mod_division_less_than_divisor(balance.nanos as int, 10_000_000);
    }
    NormalizedAmount { cents: (balance.nanos / 10_000_000) as u128 }
}

/// Converts CurseForge points to USD: every hundred points is five dollars,
/// truncated to two decimal places. Since points are whole, points / 100 * 5
/// dollars is exactly 5 * points cents and the truncation drops nothing.
pub fn curseforge_points_to_usd(points: u64) -> (r: NormalizedAmount)
    ensures
        r.cents == 5 * points,
{
    NormalizedAmount { cents: 5u128 * (points as u128) }
}

/// Law: the CurseForge shortcut agrees with the truncation rule shared by
/// both sources. A point is worth five hundredths of a dollar — 50,000,000
/// nanodollars — and flooring that value to whole cents drops nothing: it is
/// exactly five cents per point, as the conversion computes.
pub proof fn lemma_curseforge_truncation_exact(points: u64)
    ensures
        nanos_to_cents(points * 50_000_000) == 5 * points,
{
    lemma_div_multiples_vanish(5 * points, 10_000_000);
    assert(points * 50_000_000 == 10_000_000 * (5 * points)) by (nonlinear_arith);
}

/// Law: normalization is idempotent. An amount that is already whole cents —
/// the result of a previous truncation, re-expressed in nanodollars — is
/// returned unchanged by a second truncation.
pub proof fn lemma_normalization_idempotent(nanos: u64)
    ensures
        nanos_to_cents(nanos_to_cents(nanos as int) * 10_000_000) == nanos_to_cents(nanos as int),
{
    let c = nanos_to_cents(nanos as int);
    lemma_div_multiples_vanish(c, 10_000_000);
    assert(10_000_000 * c == c * 10_000_000);
}

} // verus!
