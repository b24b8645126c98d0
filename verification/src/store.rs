//! The rules that the core applies to the records of the persistent store:
//! how a partial update merges into a record, when a stored record changes its
//! expiry flag, and which records are listed as active.

use vstd::prelude::*;
use vstd::seq_lib::{to_multiset_build, to_multiset_insert};
use crate::instant::{elapsed_minutes, elapsed_minutes_spec, Instant};
use crate::models::{copy_text, text_of, ClassData, ClassDataView, SigningCode, SigningCodeView};
use crate::text::{
    comes_before, lemma_precedes_is_asymmetric, lemma_precedes_is_transitive, precedes,
};
use crate::time_utils::{parsed_time, TimeProcessor};

verus! {

/// A partial update of the record of one site. A field that is not supplied
/// leaves the stored field as it is.
#[derive(Debug, PartialEq, Eq)]
pub struct ClassUpdate {
    pub site_id: String,
    pub class_name: Option<String>,
    pub classes: Option<String>,
    pub checkwork_id: Option<String>,
    pub class_lesson_id: Option<String>,
    pub created_time: Option<String>,
}

pub struct ClassUpdateView {
    pub site_id: Seq<char>,
    pub class_name: Option<Seq<char>>,
    pub classes: Option<Seq<char>>,
    pub checkwork_id: Option<Seq<char>>,
    pub class_lesson_id: Option<Seq<char>>,
    pub created_time: Option<Seq<char>>,
}

impl ClassUpdateView {
    /// Whether the update supplies a field of a scan.
    pub open spec fn carries_scan(self) -> bool {
        self.checkwork_id is Some || self.class_lesson_id is Some || self.created_time is Some
    }

    /// Whether the update supplies all three fields of a scan.
    pub open spec fn carries_whole_scan(self) -> bool {
        self.checkwork_id is Some && self.class_lesson_id is Some && self.created_time is Some
    }
}

impl View for ClassUpdate {
    type V = ClassUpdateView;

    open spec fn view(&self) -> ClassUpdateView {
        ClassUpdateView {
            site_id: self.site_id@,
            class_name: text_of(self.class_name),
            classes: text_of(self.classes),
            checkwork_id: text_of(self.checkwork_id),
            class_lesson_id: text_of(self.class_lesson_id),
            created_time: text_of(self.created_time),
        }
    }
}

/// The update that a scanned code makes: its three scan fields, no names.
pub open spec fn scan_update(code: SigningCodeView) -> ClassUpdateView {
    ClassUpdateView {
        site_id: code.site_id,
        class_name: None,
        classes: None,
        checkwork_id: Some(code.id),
        class_lesson_id: Some(code.class_lesson_id),
        created_time: Some(code.create_time),
    }
}

/// The supplied field, or the stored one where none is supplied.
pub open spec fn supplied_or(
    supplied: Option<Seq<char>>,
    stored: Option<Seq<char>>,
) -> Option<Seq<char>> {
    if supplied is Some {
        supplied
    } else {
        stored
    }
}

/// The name that a site gets where an update that creates its record supplies
/// none.
pub open spec fn default_class_name(site_id: Seq<char>) -> Seq<char> {
    "Course_"@ + site_id
}

/// The record of a site after an update. Where a record is stored, each
/// supplied field replaces the stored one, and a supplied scan field clears the
/// expiry flag. Where none is stored, the record is made of the update, with
/// default names and not expired.
pub open spec fn updated(
    existing: Option<ClassDataView>,
    update: ClassUpdateView,
) -> ClassDataView {
    match existing {
        Some(stored) => ClassDataView {
            site_id: stored.site_id,
            class_name: match update.class_name {
                Some(name) => name,
                None => stored.class_name,
            },
            classes: match update.classes {
                Some(classes) => classes,
                None => stored.classes,
            },
            last_checkwork_id: supplied_or(update.checkwork_id, stored.last_checkwork_id),
            last_class_lesson_id: supplied_or(update.class_lesson_id, stored.last_class_lesson_id),
            last_created_time: supplied_or(update.created_time, stored.last_created_time),
            is_expired: if update.carries_scan() {
                false
            } else {
                stored.is_expired
            },
        },
        None => ClassDataView {
            site_id: update.site_id,
            class_name: match update.class_name {
                Some(name) => name,
                None => default_class_name(update.site_id),
            },
            classes: match update.classes {
                Some(classes) => classes,
                None => "Unknown Class"@,
            },
            last_checkwork_id: update.checkwork_id,
            last_class_lesson_id: update.class_lesson_id,
            last_created_time: update.created_time,
            is_expired: false,
        },
    }
}

/// The view of an optional record.
pub open spec fn record_of(record: Option<&ClassData>) -> Option<ClassDataView> {
    match record {
        Some(r) => Some(r@),
        None => None,
    }
}

/// The new expiry flag of a stored record whose flag is to change at `now`:
/// raised where the scan lies more than `course_ttl` whole minutes back and the
/// flag is down, lowered where it does not and the flag is up. None where the
/// flag stays: the record holds no scan, its timestamp names no instant, or the
/// flag already agrees with the age of the scan.
pub open spec fn expiry_verdict(record: ClassDataView, now: int, course_ttl: int) -> Option<bool> {
    match record.last_created_time {
        Some(text) => match parsed_time(text) {
            Some(scanned) => {
                let aged = elapsed_minutes_spec(scanned, now) > course_ttl;
                if aged != record.is_expired {
                    Some(aged)
                } else {
                    None
                }
            },
            None => None,
        },
        None => None,
    }
}

/// One change of an expiry flag, to be written to the store.
#[derive(Debug, PartialEq, Eq)]
pub struct ExpiryUpdate {
    pub site_id: String,
    pub is_expired: bool,
}

pub struct ExpiryUpdateView {
    pub site_id: Seq<char>,
    pub is_expired: bool,
}

impl View for ExpiryUpdate {
    type V = ExpiryUpdateView;

    open spec fn view(&self) -> ExpiryUpdateView {
        ExpiryUpdateView { site_id: self.site_id@, is_expired: self.is_expired }
    }
}

/// The changes of expiry flags that the records call for at `now`, in the
/// order of the records.
pub open spec fn expiry_updates(records: Seq<ClassData>, now: int, course_ttl: int) -> Seq<
    ExpiryUpdateView,
>
    decreases records.len(),
{
    if records.len() == 0 {
        Seq::empty()
    } else {
        let earlier = expiry_updates(records.drop_last(), now, course_ttl);
        match expiry_verdict(records.last()@, now, course_ttl) {
            Some(flag) => earlier.push(
                ExpiryUpdateView { site_id: records.last().site_id@, is_expired: flag },
            ),
            None => earlier,
        }
    }
}

/// The views of a list of changes.
pub open spec fn update_views(updates: Seq<ExpiryUpdate>) -> Seq<ExpiryUpdateView> {
    updates.map_values(|u: ExpiryUpdate| u@)
}

/// One line of the list of active sessions.
#[derive(Debug, PartialEq, Eq)]
pub struct ClassInfo {
    pub site_id: String,
    pub class_name: String,
    pub id: String,
    pub class_lesson_id: String,
    pub scan_timestamp: String,
    pub is_expired: bool,
    pub time_remaining: i64,
}

pub struct ClassInfoView {
    pub site_id: Seq<char>,
    pub class_name: Seq<char>,
    pub id: Seq<char>,
    pub class_lesson_id: Seq<char>,
    pub scan_timestamp: Seq<char>,
    pub is_expired: bool,
    pub time_remaining: int,
}

impl View for ClassInfo {
    type V = ClassInfoView;

    open spec fn view(&self) -> ClassInfoView {
        ClassInfoView {
            site_id: self.site_id@,
            class_name: self.class_name@,
            id: self.id@,
            class_lesson_id: self.class_lesson_id@,
            scan_timestamp: self.scan_timestamp@,
            is_expired: self.is_expired,
            time_remaining: self.time_remaining as int,
        }
    }
}

/// Whether a record is listed as active: not expired, with the fields of a
/// scan.
pub open spec fn is_active(record: ClassDataView) -> bool {
    !record.is_expired && record.is_populated()
}

/// The whole minutes that are left of `validity` minutes from the instant that
/// `text` names, at `now`; never negative, and zero where `text` names no
/// instant.
pub open spec fn minutes_remaining(text: Seq<char>, now: int, validity: int) -> int {
    match parsed_time(text) {
        Some(scanned) => if validity - elapsed_minutes_spec(scanned, now) > 0 {
            validity - elapsed_minutes_spec(scanned, now)
        } else {
            0
        },
        None => 0,
    }
}

/// The line of an active record.
pub open spec fn class_info(record: ClassDataView, now: int, validity: int) -> ClassInfoView {
    ClassInfoView {
        site_id: record.site_id,
        class_name: record.class_name,
        id: record.last_checkwork_id->0,
        class_lesson_id: record.last_class_lesson_id->0,
        scan_timestamp: record.last_created_time->0,
        is_expired: record.is_expired,
        time_remaining: minutes_remaining(record.last_created_time->0, now, validity),
    }
}

/// The lines of the active records, in the order of the records.
pub open spec fn active_classes(records: Seq<ClassData>, now: int, validity: int) -> Seq<
    ClassInfoView,
>
    decreases records.len(),
{
    if records.len() == 0 {
        Seq::empty()
    } else {
        let earlier = active_classes(records.drop_last(), now, validity);
        if is_active(records.last()@) {
            earlier.push(class_info(records.last()@, now, validity))
        } else {
            earlier
        }
    }
}

/// The views of a list of lines.
pub open spec fn info_views(lines: Seq<ClassInfo>) -> Seq<ClassInfoView> {
    lines.map_values(|l: ClassInfo| l@)
}

/// Whether the lines stand latest scan first: the timestamp of no line comes
/// before that of a line further down, in the order of texts.
pub open spec fn is_latest_first(lines: Seq<ClassInfoView>) -> bool {
    forall|i: int, j: int|
        0 <= i < j < lines.len() ==> !precedes(
            #[trigger] lines[i].scan_timestamp,
            #[trigger] lines[j].scan_timestamp,
        )
}

/// The place of a line with timestamp `stamp` among the lines, looking from
/// position `from` on: before the first line whose timestamp comes before
/// `stamp`, at the end where there is none.
pub open spec fn slot_from(lines: Seq<ClassInfoView>, stamp: Seq<char>, from: int) -> int
    decreases lines.len() - from,
{
    if from < 0 || from >= lines.len() {
        lines.len() as int
    } else if precedes(lines[from].scan_timestamp, stamp) {
        from
    } else {
        slot_from(lines, stamp, from + 1)
    }
}

/// The lines with one more line in its place: below every line of the same or
/// a later timestamp, above every line of an earlier one.
pub open spec fn placed(lines: Seq<ClassInfoView>, line: ClassInfoView) -> Seq<ClassInfoView> {
    lines.insert(slot_from(lines, line.scan_timestamp, 0), line)
}

/// The lines in the order of their timestamps, latest first; lines of the
/// same timestamp keep their order.
pub open spec fn latest_first(lines: Seq<ClassInfoView>) -> Seq<ClassInfoView>
    decreases lines.len(),
{
    if lines.len() == 0 {
        Seq::empty()
    } else {
        placed(latest_first(lines.drop_last()), lines.last())
    }
}

/// The record with the flag of the change, where the change is of its site;
/// the record as it is, where not.
pub open spec fn with_expiry(record: ClassDataView, update: ExpiryUpdateView) -> ClassDataView {
    if record.site_id == update.site_id {
        ClassDataView {
            site_id: record.site_id,
            class_name: record.class_name,
            classes: record.classes,
            last_checkwork_id: record.last_checkwork_id,
            last_class_lesson_id: record.last_class_lesson_id,
            last_created_time: record.last_created_time,
            is_expired: update.is_expired,
        }
    } else {
        record
    }
}

/// The place of a line lies within the lines; no line above it has a
/// timestamp that comes before the line's, and the line at it has one.
pub proof fn lemma_slot(lines: Seq<ClassInfoView>, stamp: Seq<char>, from: int)
    requires
        0 <= from <= lines.len(),
    ensures
        from <= slot_from(lines, stamp, from) <= lines.len(),
        forall|k: int|
            from <= k < slot_from(lines, stamp, from) ==> !precedes(
                #[trigger] lines[k].scan_timestamp,
                stamp,
            ),
        slot_from(lines, stamp, from) < lines.len() ==> precedes(
            lines[slot_from(lines, stamp, from)].scan_timestamp,
            stamp,
        ),
    decreases lines.len() - from,
{
    if from < lines.len() && !precedes(lines[from].scan_timestamp, stamp) {
        lemma_slot(lines, stamp, from + 1);
    }
}

/// Putting a line in its place keeps lines that stand latest first so, and
/// adds that line and nothing else.
pub proof fn lemma_placed(lines: Seq<ClassInfoView>, line: ClassInfoView)
    requires
        is_latest_first(lines),
    ensures
        is_latest_first(placed(lines, line)),
        placed(lines, line).to_multiset() == lines.to_multiset().insert(line),
{
    let stamp = line.scan_timestamp;
    let at = slot_from(lines, stamp, 0);
    lemma_slot(lines, stamp, 0);
    to_multiset_insert(lines, at, line);
    let after = placed(lines, line);
    assert forall|i: int, j: int| 0 <= i < j < after.len() implies !precedes(
        #[trigger] after[i].scan_timestamp,
        #[trigger] after[j].scan_timestamp,
    ) by {
        if j == at {
            assert(after[i] == lines[i]);
        } else if i == at {
            assert(after[j] == lines[j - 1]);
            if j - 1 == at {
                lemma_precedes_is_asymmetric(lines[at].scan_timestamp, stamp);
            } else if precedes(stamp, lines[j - 1].scan_timestamp) {
                lemma_precedes_is_transitive(
                    lines[at].scan_timestamp,
                    stamp,
                    lines[j - 1].scan_timestamp,
                    0,
                );
                assert(!precedes(lines[at].scan_timestamp, lines[j - 1].scan_timestamp));
            }
        } else {
            let a = if i < at { i } else { i - 1 };
            let b = if j < at { j } else { j - 1 };
            assert(after[i] == lines[a] && after[j] == lines[b]);
        }
    }
}

/// The lines in the order of their timestamps stand latest first, and are the
/// same lines, each as often as before.
pub proof fn lemma_latest_first(lines: Seq<ClassInfoView>)
    ensures
        is_latest_first(latest_first(lines)),
        latest_first(lines).to_multiset() == lines.to_multiset(),
        latest_first(lines).len() == lines.len(),
    decreases lines.len(),
{
    if lines.len() == 0 {
        assert(lines =~= Seq::<ClassInfoView>::empty());
    } else {
        let earlier = lines.drop_last();
        lemma_latest_first(earlier);
        lemma_placed(latest_first(earlier), lines.last());
        lemma_slot(latest_first(earlier), lines.last().scan_timestamp, 0);
        to_multiset_build(earlier, lines.last());
        assert(earlier.push(lines.last()) =~= lines);
    }
}

impl ClassUpdate {
    /// The update that a scanned code makes: its three scan fields, no names.
    pub fn from_scan(code: &SigningCode) -> (update: ClassUpdate)
        ensures
            update@ == scan_update(code@),
            update@.carries_whole_scan(),
    {
        ClassUpdate {
            site_id: code.site_id.clone(),
            class_name: None,
            classes: None,
            checkwork_id: Some(code.id.clone()),
            class_lesson_id: Some(code.class_lesson_id.clone()),
            created_time: Some(code.create_time.clone()),
        }
    }

    /// The update that renames a site: names only, no scan field.
    pub fn names(site_id: &str, class_name: Option<String>, classes: Option<String>) -> (update:
        ClassUpdate)
        ensures
            update@ == (ClassUpdateView {
                site_id: site_id@,
                class_name: text_of(class_name),
                classes: text_of(classes),
                checkwork_id: None,
                class_lesson_id: None,
                created_time: None,
            }),
            !update@.carries_scan(),
    {
        ClassUpdate {
            site_id: site_id.to_owned(),
            class_name,
            classes,
            checkwork_id: None,
            class_lesson_id: None,
            created_time: None,
        }
    }

    /// Whether the update supplies a field of a scan.
    pub fn carries_scan(&self) -> (carries: bool)
        ensures
            carries == self@.carries_scan(),
    {
        self.checkwork_id.is_some() || self.class_lesson_id.is_some()
            || self.created_time.is_some()
    }
}

fn supplied_text_or(supplied: &Option<String>, stored: &Option<String>) -> (field: Option<String>)
    ensures
        text_of(field) == supplied_or(text_of(*supplied), text_of(*stored)),
{
    match supplied {
        Some(s) => Some(s.clone()),
        None => copy_text(stored),
    }
}

fn supplied_name_or(supplied: &Option<String>, stored: &String) -> (name: String)
    ensures
        name@ == match text_of(*supplied) {
            Some(s) => s,
            None => stored@,
        },
{
    match supplied {
        Some(s) => s.clone(),
        None => stored.clone(),
    }
}

/// The record of a site after an update: the stored record with each supplied
/// field in place of the stored one, or, where none is stored, a new record
/// made of the update. An update that carries a scan field leaves the record
/// not expired; one that carries a whole scan, or none on a consistent record,
/// leaves it consistent.
pub fn apply_update(existing: Option<&ClassData>, update: &ClassUpdate) -> (record: ClassData)
    ensures
        record@ == updated(record_of(existing), update@),
        update@.carries_scan() ==> !record.is_expired,
        update@.carries_whole_scan() ==> record@.is_populated(),
        existing matches Some(stored) ==> (stored@.is_consistent() && !update@.carries_scan()
            ==> record@.is_consistent()),
{
    match existing {
        Some(stored) => ClassData {
            site_id: stored.site_id.clone(),
            class_name: supplied_name_or(&update.class_name, &stored.class_name),
            classes: supplied_name_or(&update.classes, &stored.classes),
            last_checkwork_id: supplied_text_or(&update.checkwork_id, &stored.last_checkwork_id),
            last_class_lesson_id: supplied_text_or(
                &update.class_lesson_id,
                &stored.last_class_lesson_id,
            ),
            last_created_time: supplied_text_or(&update.created_time, &stored.last_created_time),
            is_expired: if update.carries_scan() {
                false
            } else {
                stored.is_expired
            },
        },
        None => {
            let class_name = match &update.class_name {
                Some(name) => name.clone(),
                None => {
                    let mut name = String::from_str("Course_");
                    name.append(update.site_id.as_str());
                    name
                },
            };
            let classes = match &update.classes {
                Some(classes) => classes.clone(),
                None => String::from_str("Unknown Class"),
            };
            ClassData {
                site_id: update.site_id.clone(),
                class_name,
                classes,
                last_checkwork_id: copy_text(&update.checkwork_id),
                last_class_lesson_id: copy_text(&update.class_lesson_id),
                last_created_time: copy_text(&update.created_time),
                is_expired: false,
            }
        },
    }
}

/// The name of a stored class, or `unknown` where none is stored.
pub fn class_name_or_unknown(record: Option<&ClassData>) -> (name: String)
    ensures
        name@ == match record {
            Some(r) => r.class_name@,
            None => "unknown"@,
        },
{
    match record {
        Some(r) => r.class_name.clone(),
        None => String::from_str("unknown"),
    }
}

/// The new expiry flag of a stored record, if its flag is to change at `now`.
pub fn judge_expiry(record: &ClassData, now: Instant, course_ttl: i64) -> (verdict: Option<bool>)
    ensures
        verdict == expiry_verdict(record@, now@, course_ttl as int),
{
    match &record.last_created_time {
        Some(text) => match TimeProcessor::parse_time_string(text.as_str()) {
            Ok(scanned) => {
                let aged = elapsed_minutes(scanned, now) > course_ttl;
                if aged != record.is_expired {
                    Some(aged)
                } else {
                    None
                }
            },
            Err(_) => None,
        },
        None => None,
    }
}

/// Judges the expiry flag of every stored record at `now` and returns the
/// changes to write to the store, in the order of the records.
pub fn check_and_update_expired_courses(
    classes: &Vec<ClassData>,
    now: Instant,
    course_ttl: i64,
) -> (updates: Vec<ExpiryUpdate>)
    ensures
        update_views(updates@) == expiry_updates(classes@, now@, course_ttl as int),
{
    let mut updates: Vec<ExpiryUpdate> = Vec::new();
    let mut i: usize = 0;
    assert(classes@.take(0) =~= Seq::<ClassData>::empty());
    assert(update_views(updates@) =~= Seq::<ExpiryUpdateView>::empty());
    while i < classes.len()
        invariant
            i <= classes.len(),
            update_views(updates@) == expiry_updates(
                classes@.take(i as int),
                now@,
                course_ttl as int,
            ),
        decreases classes.len() - i,
    {
        let ghost before = updates@;
        let verdict = judge_expiry(&classes[i], now, course_ttl);
        proof {
            assert(classes@.take(i + 1).drop_last() =~= classes@.take(i as int));
            assert(classes@.take(i + 1).last() == classes@[i as int]);
        }
        match verdict {
            Some(flag) => {
                let update = ExpiryUpdate { site_id: classes[i].site_id.clone(), is_expired: flag };
                updates.push(update);
                assert(update_views(updates@) =~= update_views(before).push(update@));
            },
            None => {},
        }
        i += 1;
    }
    assert(classes@.take(classes.len() as int) =~= classes@);
    updates
}

/// The whole minutes that are left of `validity` minutes from the instant that
/// `text` names, at `now`; zero where none is left or `text` names no instant.
pub fn time_remaining(text: &str, now: Instant, validity: u32) -> (minutes: i64)
    ensures
        minutes == minutes_remaining(text@, now@, validity as int),
        minutes >= 0,
{
    match TimeProcessor::parse_time_string(text) {
        Ok(scanned) => {
            let elapsed: i64 = elapsed_minutes(scanned, now);
            let left: i64 = (validity as i64) - elapsed;
            if left > 0 {
                left
            } else {
                0
            }
        },
        Err(_) => 0,
    }
}

/// Puts one more line in its place among lines that stand latest first.
fn place_line(lines: &mut Vec<ClassInfo>, line: ClassInfo)
    ensures
        info_views(final(lines)@) == placed(info_views(old(lines)@), line@),
{
    let ghost before = info_views(lines@);
    let mut at: usize = 0;
    while at < lines.len() && !comes_before(
        lines[at].scan_timestamp.as_str(),
        line.scan_timestamp.as_str(),
    )
        invariant
            at <= lines.len(),
            before == info_views(lines@),
            slot_from(before, line@.scan_timestamp, 0) == slot_from(
                before,
                line@.scan_timestamp,
                at as int,
            ),
        decreases lines.len() - at,
    {
        at += 1;
    }
    lines.insert(at, line);
    assert(info_views(lines@) =~= before.insert(at as int, line@));
}

/// The lines of the active records at `now`, the latest scan first: one line
/// for each record that is not expired and holds a scan, with the minutes
/// that are left of `validity` minutes from its scan. The lines stand in the
/// order of their timestamps as texts, the greatest first; lines of the same
/// timestamp stand in the order of their records.
pub fn list_active(classes: &Vec<ClassData>, now: Instant, validity: u32) -> (lines: Vec<ClassInfo>)
    ensures
        info_views(lines@) == latest_first(active_classes(classes@, now@, validity as int)),
        is_latest_first(info_views(lines@)),
        forall|i: int, j: int|
            0 <= i < j < lines@.len() ==> !precedes(
                #[trigger] lines@[i].scan_timestamp@,
                #[trigger] lines@[j].scan_timestamp@,
            ),
        info_views(lines@).to_multiset() == active_classes(
            classes@,
            now@,
            validity as int,
        ).to_multiset(),
        forall|i: int| 0 <= i < lines@.len() ==> (#[trigger] lines@[i]).time_remaining >= 0,
{
    let mut lines: Vec<ClassInfo> = Vec::new();
    let mut i: usize = 0;
    assert(classes@.take(0) =~= Seq::<ClassData>::empty());
    assert(info_views(lines@) =~= Seq::<ClassInfoView>::empty());
    while i < classes.len()
        invariant
            i <= classes.len(),
            info_views(lines@) == latest_first(
                active_classes(classes@.take(i as int), now@, validity as int),
            ),
            forall|k: int| 0 <= k < lines@.len() ==> (#[trigger] lines@[k]).time_remaining >= 0,
        decreases classes.len() - i,
    {
        let ghost before = lines@;
        let record = &classes[i];
        proof {
            assert(classes@.take(i + 1).drop_last() =~= classes@.take(i as int));
            assert(classes@.take(i + 1).last() == classes@[i as int]);
        }
        if !record.is_expired {
            match (
                &record.last_checkwork_id,
                &record.last_class_lesson_id,
                &record.last_created_time,
            ) {
                (Some(id), Some(lesson), Some(created)) => {
                    let line = ClassInfo {
                        site_id: record.site_id.clone(),
                        class_name: record.class_name.clone(),
                        id: id.clone(),
                        class_lesson_id: lesson.clone(),
                        scan_timestamp: created.clone(),
                        is_expired: record.is_expired,
                        time_remaining: time_remaining(created.as_str(), now, validity),
                    };
                    let ghost earlier = active_classes(
                        classes@.take(i as int),
                        now@,
                        validity as int,
                    );
                    place_line(&mut lines, line);
                    proof {
                        assert(earlier.push(line@).drop_last() =~= earlier);
                        lemma_slot(info_views(before), line@.scan_timestamp, 0);
                        let at = slot_from(info_views(before), line@.scan_timestamp, 0);
                        assert(info_views(lines@).len() == lines@.len());
                        assert(info_views(before).len() == before.len());
                        assert(lines@.len() == before.len() + 1);
                        assert forall|k: int| 0 <= k < lines@.len() implies (
                        #[trigger] lines@[k]).time_remaining >= 0 by {
                            let v = info_views(lines@);
                            assert(v[k] == lines@[k]@);
                            if k < at {
                                assert(v[k] == info_views(before)[k]);
                                assert(before[k].time_remaining >= 0);
                            } else if k == at {
                                assert(v[k] == line@);
                            } else {
                                assert(v[k] == info_views(before)[k - 1]);
                                assert(before[k - 1].time_remaining >= 0);
                            }
                        }
                    }
                },
                _ => {},
            }
        }
        i += 1;
    }
    proof {
        assert(classes@.take(classes.len() as int) =~= classes@);
        lemma_latest_first(active_classes(classes@, now@, validity as int));
        let views = info_views(lines@);
        assert forall|i: int, j: int| 0 <= i < j < lines@.len() implies !precedes(
            #[trigger] lines@[i].scan_timestamp@,
            #[trigger] lines@[j].scan_timestamp@,
        ) by {
            assert(views[i] == lines@[i]@ && views[j] == lines@[j]@);
            assert(!precedes(views[i].scan_timestamp, views[j].scan_timestamp));
        }
    }
    lines
}

/// Sets, in a loaded list, the expiry flag of every record of the site of a
/// change that was written to the store; everything else stays as it is.
pub fn apply_expiry(classes: &mut Vec<ClassData>, update: &ExpiryUpdate)
    ensures
        final(classes)@.len() == old(classes)@.len(),
        forall|i: int|
            0 <= i < old(classes)@.len() ==> (#[trigger] final(classes)@[i])@ == with_expiry(
                old(classes)@[i]@,
                update@,
            ),
        forall|i: int|
            0 <= i < old(classes)@.len() && old(classes)@[i].site_id@ == update.site_id@
                ==> (#[trigger] final(classes)@[i]).is_expired == update.is_expired,
        forall|i: int|
            0 <= i < old(classes)@.len() && old(classes)@[i].site_id@ != update.site_id@
                ==> #[trigger] final(classes)@[i] == old(classes)@[i],
{
    let mut i: usize = 0;
    while i < classes.len()
        invariant
            i <= classes.len(),
            classes@.len() == old(classes)@.len(),
            forall|k: int|
                0 <= k < i ==> (#[trigger] classes@[k])@ == with_expiry(
                    old(classes)@[k]@,
                    update@,
                ),
            forall|k: int|
                0 <= k < i && old(classes)@[k].site_id@ != update.site_id@
                    ==> #[trigger] classes@[k] == old(classes)@[k],
            forall|k: int| i <= k < classes@.len() ==> #[trigger] classes@[k] == old(classes)@[k],
        decreases classes.len() - i,
    {
        if classes[i].site_id == update.site_id {
            let mut record = classes[i].clone();
            record.is_expired = update.is_expired;
            classes.set(i, record);
        }
        i += 1;
    }
}

} // verus!
