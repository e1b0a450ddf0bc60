//! Time-bucketed snapshot of both sources' normalized balances, and the
//! thirty-minute bucketing rule that keys idempotent persistence.

use vstd::prelude::*;
use vstd::arithmetic::div_mod::{
    lemma_fundamental_div_mod, lemma_fundamental_div_mod_converse_div,
    lemma_fundamental_div_mod_converse_mod, lemma_mod_division_less_than_divisor,
};
use crate::error::ExtractionFailure;
use crate::jsonval::u64_field;
use crate::platform::{
    curseforge_points_to_usd, extract_curseforge_balance, extract_modrinth_balance, field_parses,
    modrinth_absent, modrinth_balance_as_usd, modrinth_nanos, nanos_to_cents, Extraction,
    NormalizedAmount,
};

verus! {

/// Width of one storage bucket, in seconds: thirty minutes.
pub const BUCKET_SECONDS: u64 = 1800;

/// The bucket an instant falls into: the instant floored to a whole
/// thirty-minute boundary. Buckets are the natural key of persisted rows, so
/// every cycle that runs within one window writes the same key.
pub open spec fn bucket_of(now_epoch_seconds: u64) -> int {
    (now_epoch_seconds as int / 1800) * 1800
}

/// Floors an epoch timestamp to its thirty-minute bucket.
pub fn time_bucket(now_epoch_seconds: u64) -> (r: u64)
    ensures
        r == bucket_of(now_epoch_seconds),
        r <= now_epoch_seconds,
        r % 1800 == 0,
{
    proof {
        let n = now_epoch_seconds as int;
        let q = n / 1800;
        lemma_fundamental_div_mod(n, 1800);
        lemma_mod_division_less_than_divisor(n, 1800);
        lemma_fundamental_div_mod_converse_mod(q * 1800, 1800, q, 0);
    }
    (now_epoch_seconds / 1800) * 1800
}

/// Law: two instants in the same thirty-minute window are assigned the same
/// bucket, so consecutive cycles within one window supply identical keys and
/// the second write is a no-op at the store.
pub proof fn lemma_same_bucket(now1: u64, now2: u64)
    requires
        now1 <= now2,
        now2 < bucket_of(now1) + 1800,
    ensures
        bucket_of(now2) == bucket_of(now1),
{
    let n1 = now1 as int;
    let n2 = now2 as int;
    let q = n1 / 1800;
    lemma_fundamental_div_mod(n1, 1800);
    lemma_mod_division_less_than_divisor(n1, 1800);
    lemma_fundamental_div_mod_converse_div(n2, 1800, q, n2 - q * 1800);
}

/// One cycle's result: both sources' normalized balances — or their absence —
/// keyed by the thirty-minute bucket the cycle ran in. A snapshot with both
/// fields absent is still valid and storable: it records "no data this
/// cycle".
#[derive(Debug)]
pub struct Snapshot {
    pub time_bucket: u64,
    pub modrinth_usd: Option<NormalizedAmount>,
    pub curseforge_usd: Option<NormalizedAmount>,
}

/// Modrinth's side of a cycle ends in an extraction failure: a payload
/// arrived, was not entirely absent, and some present field was malformed.
pub open spec fn modrinth_cycle_failed(p: Option<serde_json::Value>) -> bool {
    match p {
        Some(v) => !modrinth_absent(v) && !(field_parses(v, "available"@) && field_parses(
            v,
            "pending"@,
        )),
        None => false,
    }
}

/// Runs one aggregation cycle over whatever payloads the fetch step could
/// supply — `None` stands for a transport failure, treated as absence.
///
/// The two sources are independent: each is extracted and normalized on its
/// own, an extraction failure is turned into absence in the snapshot and
/// reported in the returned failure list, and neither source's failure ever
/// blocks the other's reading or the cycle itself.
pub fn build_snapshot(
    now_epoch_seconds: u64,
    modrinth_payload: Option<serde_json::Value>,
    curseforge_payload: Option<serde_json::Value>,
) -> (r: (Snapshot, Vec<ExtractionFailure>))
    ensures
        r.0.time_bucket == bucket_of(now_epoch_seconds),
        (match modrinth_payload {
            Some(v) => {
                &&& (r.0.modrinth_usd is Some <==> !modrinth_absent(v) && field_parses(
                    v,
                    "available"@,
                ) && field_parses(v, "pending"@))
                &&& (r.0.modrinth_usd matches Some(a) ==> a.cents == nanos_to_cents(
                    modrinth_nanos(v),
                ))
            },
            None => r.0.modrinth_usd is None,
        }),
        (match curseforge_payload {
            Some(v) => {
                &&& (r.0.curseforge_usd is Some <==> u64_field(v, "userPoints"@) is Some)
                &&& (r.0.curseforge_usd matches Some(a) ==> u64_field(v, "userPoints"@)
                    matches Some(p) && a.cents == 5 * p)
            },
            None => r.0.curseforge_usd is None,
        }),
        r.1.len() == (if modrinth_cycle_failed(modrinth_payload) {
            1int
        } else {
            0int
        }),
        (modrinth_payload matches Some(v) ==> (modrinth_cycle_failed(modrinth_payload) ==> {
            &&& r.1[0].json == v
            &&& r.1[0].platform@ == "Modrinth"@
        })),
{
    let bucket = time_bucket(now_epoch_seconds);
    let mut failures: Vec<ExtractionFailure> = Vec::new();
    let modrinth_usd: Option<NormalizedAmount> = match modrinth_payload {
        Some(v) => match extract_modrinth_balance(v) {
            Extraction::Absent => None,
            Extraction::Failed(f) => {
                failures.push(f);
                None
            },
            Extraction::Present(b) => Some(modrinth_balance_as_usd(b)),
        },
        None => None,
    };
    let curseforge_usd: Option<NormalizedAmount> = match curseforge_payload {
        Some(v) => match extract_curseforge_balance(v) {
            Extraction::Absent => None,
            Extraction::Failed(f) => {
                failures.push(f);
                None
            },
            Extraction::Present(b) => Some(curseforge_points_to_usd(b.points)),
        },
        None => None,
    };
    (Snapshot { time_bucket: bucket, modrinth_usd, curseforge_usd }, failures)
}

} // verus!
