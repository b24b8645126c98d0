//! The decisions of the write path, the read path and the cleanup tick. The
//! caller does the store's I/O between the steps and hands the results in.

use vstd::prelude::*;
use crate::cache::{evicted_keys, lists_key, survivors, CachedEntryView, CourseCache};
use crate::instant::{GridPeriod, Instant};
use crate::models::{ClassData, ClassDataView, SigningCode};
use crate::regenerate::{is_outcome, regenerate, regenerated_code, RegenerateError};
use crate::signing_code::{is_well_formed, parse_signing_code, parsed, raw_code};
use crate::store::{record_of, scan_update, ClassUpdate, ExpiryUpdate};
use crate::time_utils::{minutes_since, minutes_since_spec};

verus! {

/// Minutes after which a cached view is no longer trusted, where none is
/// configured.
pub const DEFAULT_CACHE_TTL_MINUTES: i64 = 5;

/// Minutes after its scan at which a session is over, where none is configured.
pub const DEFAULT_COURSE_TTL_MINUTES: i64 = 20;

/// Seconds between two cleanup ticks, where none is configured.
pub const DEFAULT_SWEEP_INTERVAL_SECONDS: u64 = 300;

/// Minutes for which a scan is shown as valid in the list of active
/// sessions, where none is configured.
pub const DEFAULT_VALIDITY_MINUTES: u32 = 45;

/// The age in minutes beyond which a scanned code is refused, where none is
/// configured.
pub const DEFAULT_MAX_SCAN_AGE_MINUTES: i64 = 200;

/// The time windows of the core. Each is configured on its own.
#[derive(Clone, Copy, Debug, PartialEq, Eq)]
pub struct Settings {
    pub cache_ttl_minutes: i64,
    pub course_ttl_minutes: i64,
    pub sweep_interval_seconds: u64,
    pub grid_period: GridPeriod,
    pub validity_minutes: u32,
    pub max_scan_age_minutes: i64,
}

impl Default for Settings {
    fn default() -> (settings: Self)
        ensures
            settings.cache_ttl_minutes == DEFAULT_CACHE_TTL_MINUTES,
            settings.course_ttl_minutes == DEFAULT_COURSE_TTL_MINUTES,
            settings.sweep_interval_seconds == DEFAULT_SWEEP_INTERVAL_SECONDS,
            settings.grid_period@ == crate::instant::DEFAULT_GRID_PERIOD_MILLIS,
            settings.validity_minutes == DEFAULT_VALIDITY_MINUTES,
            settings.max_scan_age_minutes == DEFAULT_MAX_SCAN_AGE_MINUTES,
    {
        Settings {
            cache_ttl_minutes: DEFAULT_CACHE_TTL_MINUTES,
            course_ttl_minutes: DEFAULT_COURSE_TTL_MINUTES,
            sweep_interval_seconds: DEFAULT_SWEEP_INTERVAL_SECONDS,
            grid_period: GridPeriod::default(),
            validity_minutes: DEFAULT_VALIDITY_MINUTES,
            max_scan_age_minutes: DEFAULT_MAX_SCAN_AGE_MINUTES,
        }
    }
}

/// Why a scanned text is refused.
#[derive(Debug, PartialEq, Eq)]
pub enum ScanRejection {
    /// The text is no code.
    InvalidFormat,
    /// The code was issued more than the allowed minutes from now; carries the
    /// minutes.
    TooOld(i64),
    /// The store holds a scan of the same site that lies nearer to now.
    Superseded,
}

/// The first step of a submission.
#[derive(Debug, PartialEq, Eq)]
pub enum ScanStep {
    /// The text is refused.
    Rejected(ScanRejection),
    /// The text is this code; the stored record of its site is needed next.
    Lookup(SigningCode),
}

/// The outcome of a submission.
#[derive(Debug, PartialEq, Eq)]
pub enum ScanVerdict {
    /// The code is refused.
    Rejected(ScanRejection),
    /// The code is accepted: `update` goes to the store, then the entry of
    /// `key` leaves the cache, and the client is sent on to `key`.
    Accepted { update: ClassUpdate, key: String },
}

/// The whole minutes between the instant that a timestamp names and `now`,
/// whichever comes first; zero where the timestamp names no instant.
pub open spec fn minutes_apart(time: Seq<char>, now: int) -> int {
    if minutes_since_spec(time, now) >= 0 {
        minutes_since_spec(time, now)
    } else {
        -minutes_since_spec(time, now)
    }
}

/// The whole minutes between the instant that `time` names and `now`,
/// whichever comes first; zero where `time` names no instant.
pub fn scan_age(time: &str, now: Instant) -> (minutes: i64)
    ensures
        minutes == minutes_apart(time@, now@),
        minutes >= 0,
{
    let signed: i64 = minutes_since(time, now);
    if signed >= 0 {
        signed
    } else {
        -signed
    }
}

/// Whether the stored record holds a scan that lies nearer to `now` than the
/// code's.
pub open spec fn is_superseded(
    code_time: Seq<char>,
    existing: Option<ClassDataView>,
    now: int,
) -> bool {
    match existing {
        Some(stored) => match stored.last_created_time {
            Some(stored_time) => minutes_apart(code_time, now) > minutes_apart(
                stored_time,
                now,
            ),
            None => false,
        },
        None => false,
    }
}

/// Reads a scanned text and checks the age of its code. Refuses a text that
/// is no code, and a code whose timestamp lies more than `max_age` whole
/// minutes from `now`, before or after; a timestamp that names no instant
/// counts as zero minutes old.
pub fn begin_submit(raw: &str, now: Instant, max_age: i64) -> (step: ScanStep)
    ensures
        match step {
            ScanStep::Rejected(ScanRejection::InvalidFormat) => parsed(raw@) is None,
            ScanStep::Rejected(ScanRejection::TooOld(minutes)) => parsed(raw@) is Some && minutes
                == minutes_apart(parsed(raw@)->0.create_time, now@) && minutes > max_age,
            ScanStep::Rejected(ScanRejection::Superseded) => false,
            ScanStep::Lookup(code) => parsed(raw@) == Some(code@) && is_well_formed(code@)
                && raw_code(code@) == raw@ && minutes_apart(code@.create_time, now@) <= max_age,
        },
{
    match parse_signing_code(raw) {
        None => ScanStep::Rejected(ScanRejection::InvalidFormat),
        Some(code) => {
            let age: i64 = scan_age(code.create_time.as_str(), now);
            if age > max_age {
                ScanStep::Rejected(ScanRejection::TooOld(age))
            } else {
                ScanStep::Lookup(code)
            }
        },
    }
}

/// Decides on a code once the stored record of its site is known. Refuses the
/// code where the store holds a scan that lies nearer to `now`; else accepts
/// it, with the update that carries its three scan fields.
pub fn finish_submit(code: &SigningCode, existing: Option<&ClassData>, now: Instant) -> (verdict:
    ScanVerdict)
    ensures
        match verdict {
            ScanVerdict::Rejected(ScanRejection::Superseded) => is_superseded(
                code@.create_time,
                record_of(existing),
                now@,
            ),
            ScanVerdict::Rejected(_) => false,
            ScanVerdict::Accepted { update, key } => !is_superseded(
                code@.create_time,
                record_of(existing),
                now@,
            ) && update@ == scan_update(code@) && key@ == code@.site_id,
        },
{
    let superseded = match existing {
        Some(stored) => match &stored.last_created_time {
            Some(stored_time) => scan_age(code.create_time.as_str(), now) > scan_age(
                stored_time.as_str(),
                now,
            ),
            None => false,
        },
        None => false,
    };
    if superseded {
        ScanVerdict::Rejected(ScanRejection::Superseded)
    } else {
        ScanVerdict::Accepted { update: ClassUpdate::from_scan(code), key: code.site_id.clone() }
    }
}

/// Why no code is served for a site.
#[derive(Debug, PartialEq, Eq)]
pub enum FetchError {
    /// Neither cache nor store holds a record of the site: scan first.
    NotScanned,
    /// The record of the site gives no code.
    Regenerate(RegenerateError),
}

/// Whether `result` is what regenerating from the record at `now` gives: the
/// error that the record calls for, or the text of the fresh code, whose time
/// has three fraction digits and which reads back as the code where the
/// identifiers of the record are numbers.
pub open spec fn served(record: ClassDataView, now: int, period: int, result: Result<
    String,
    RegenerateError,
>) -> bool {
    is_outcome(record, regenerated_code(record, now, period), result)
}

/// Serves a fresh code for the site `key` from the cache. None where the cache
/// holds no record of the site: the caller loads it from the store and goes on
/// with `fetch_loaded`.
pub fn fetch_cached(cache: &CourseCache, key: &str, now: Instant, period: GridPeriod) -> (answer:
    Option<Result<String, RegenerateError>>)
    ensures
        match answer {
            None => !cache@.dom().contains(key@),
            Some(result) => cache@.dom().contains(key@) && served(
                cache@[key@].record,
                now@,
                period@,
                result,
            ),
        },
{
    match cache.get(key) {
        Some(record) => Some(regenerate(&record, now, period)),
        None => None,
    }
}

/// Serves a fresh code from what the store returned for a site. Where the
/// store holds no record the answer is `NotScanned` and the cache stays as it
/// is; else the record is cached as of `now` and a code is regenerated from it.
pub fn fetch_loaded(
    cache: &mut CourseCache,
    loaded: Option<ClassData>,
    now: Instant,
    period: GridPeriod,
) -> (answer: Result<String, FetchError>)
    ensures
        final(cache).swept_at() == old(cache).swept_at(),
        match loaded {
            None => answer == Err::<String, FetchError>(FetchError::NotScanned) && final(cache)@
                == old(cache)@,
            Some(record) => final(cache)@ == old(cache)@.insert(
                record.site_id@,
                CachedEntryView { record: record@, cached_at: now@ },
            ) && match answer {
                Ok(raw) => served(record@, now@, period@, Ok(raw)),
                Err(FetchError::Regenerate(e)) => served(record@, now@, period@, Err(e)),
                Err(FetchError::NotScanned) => false,
            },
        },
{
    match loaded {
        None => Err(FetchError::NotScanned),
        Some(record) => {
            let answer = match regenerate(&record, now, period) {
                Ok(raw) => Ok(raw),
                Err(e) => Err(FetchError::Regenerate(e)),
            };
            cache.insert(record, now);
            answer
        },
    }
}

/// Whether one of the changes is of the site `key`.
pub open spec fn changes_key(updates: Seq<ExpiryUpdate>, key: Seq<char>) -> bool {
    exists|j: int| 0 <= j < updates.len() && #[trigger] updates[j].site_id@ == key
}

/// One cleanup tick: sweeps the cache once at `now` and returns, for each
/// evicted site, once, the change that flags it expired in the store. The
/// caller writes the changes one by one, outside the cache's lock; a failed
/// write is logged and left to the next tick.
pub fn cleanup_tick(cache: &mut CourseCache, now: Instant, settings: &Settings) -> (updates: Vec<
    ExpiryUpdate,
>)
    ensures
        final(cache)@ == survivors(
            old(cache)@,
            now@,
            settings.cache_ttl_minutes as int,
            settings.course_ttl_minutes as int,
        ),
        final(cache).swept_at() == Some(now@),
        forall|j: int| 0 <= j < updates@.len() ==> (#[trigger] updates@[j]).is_expired,
        forall|key: Seq<char>|
            changes_key(updates@, key) <==> evicted_keys(
                old(cache)@,
                now@,
                settings.cache_ttl_minutes as int,
                settings.course_ttl_minutes as int,
            ).contains(key),
        forall|i: int, j: int|
            0 <= i < updates@.len() && 0 <= j < updates@.len() && i != j ==> updates@[i].site_id@
                != updates@[j].site_id@,
{
    let evicted =
        cache.cleanup_expired(now, settings.cache_ttl_minutes, settings.course_ttl_minutes);
    let mut updates: Vec<ExpiryUpdate> = Vec::new();
    let mut i: usize = 0;
    while i < evicted.len()
        invariant
            i <= evicted.len(),
            updates@.len() == i,
            forall|j: int|
                0 <= j < i ==> (#[trigger] updates@[j]).is_expired && updates@[j].site_id@
                    == evicted@[j]@,
        decreases evicted.len() - i,
    {
        updates.push(ExpiryUpdate { site_id: evicted[i].clone(), is_expired: true });
        i += 1;
    }
    proof {
        assert forall|key: Seq<char>| changes_key(updates@, key) <==> lists_key(
            evicted@,
            key,
        ) by {
            if changes_key(updates@, key) {
                let j = choose|j: int|
                    0 <= j < updates@.len() && #[trigger] updates@[j].site_id@ == key;
                assert(evicted@[j]@ == key);
            }
            if lists_key(evicted@, key) {
                let j = choose|j: int| 0 <= j < evicted@.len() && #[trigger] evicted@[j]@ == key;
                assert(updates@[j].site_id@ == key);
            }
        }
    }
    updates
}

/// The cache after the records are cached one after the other as of `now`.
pub open spec fn preloaded(
    cache: Map<Seq<char>, CachedEntryView>,
    records: Seq<ClassData>,
    now: int,
) -> Map<Seq<char>, CachedEntryView>
    decreases records.len(),
{
    if records.len() == 0 {
        cache
    } else {
        preloaded(cache, records.drop_last(), now).insert(
            records.last().site_id@,
            CachedEntryView { record: records.last()@, cached_at: now },
        )
    }
}

/// Caches the records that the store returned, one after the other, as of
/// `now`. A later record of a site replaces an earlier one.
pub fn preload_courses_to_cache(cache: &mut CourseCache, courses: &Vec<ClassData>, now: Instant)
    ensures
        final(cache)@ == preloaded(old(cache)@, courses@, now@),
        final(cache).swept_at() == old(cache).swept_at(),
{
    let mut i: usize = 0;
    assert(courses@.take(0) =~= Seq::<ClassData>::empty());
    while i < courses.len()
        invariant
            i <= courses.len(),
            cache@ == preloaded(old(cache)@, courses@.take(i as int), now@),
            cache.swept_at() == old(cache).swept_at(),
        decreases courses.len() - i,
    {
        proof {
            assert(courses@.take(i + 1).drop_last() =~= courses@.take(i as int));
            assert(courses@.take(i + 1).last() == courses@[i as int]);
        }
        cache.insert(courses[i].clone(), now);
        i += 1;
    }
    assert(courses@.take(courses.len() as int) =~= courses@);
}

} // verus!
