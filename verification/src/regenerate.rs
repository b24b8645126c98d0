//! The code regenerator: from a stored session record and "now" to a code whose
//! timestamp lies on the grid of the scanned one and is valid now.

use vstd::prelude::*;
use crate::calendar::is_timestamp_shape;
use crate::instant::{quantize_forward, quantize_forward_spec, representable, GridPeriod, Instant};
use crate::models::{ClassData, ClassDataView, SigningCode, SigningCodeView};
use crate::signing_code::{is_well_formed, lemma_parse_inverts_raw_code, parsed, raw_code};
use crate::text::{is_number, is_token};
use crate::time_utils::{formatted_time, parsed_time, TimeProcessor, UnparseableTime};

verus! {

/// Why no code can be regenerated from a record.
#[derive(Debug, PartialEq, Eq)]
pub enum RegenerateError {
    /// The record is flagged expired: scan again.
    Expired,
    /// The record lacks a field of the last scan: scan first.
    MissingData,
    /// The stored timestamp matches no known form.
    UnparseableTime(UnparseableTime),
}

pub enum RegenerateErrorView {
    Expired,
    MissingData,
    UnparseableTime(Seq<char>),
}

impl View for RegenerateError {
    type V = RegenerateErrorView;

    open spec fn view(&self) -> RegenerateErrorView {
        match self {
            RegenerateError::Expired => RegenerateErrorView::Expired,
            RegenerateError::MissingData => RegenerateErrorView::MissingData,
            RegenerateError::UnparseableTime(e) => RegenerateErrorView::UnparseableTime(e.text@),
        }
    }
}

/// Whether a code may be regenerated from the record at all: it is not
/// expired and the fields of a scan are there.
pub open spec fn is_usable(record: ClassDataView) -> bool {
    !record.is_expired && record.is_populated()
}

/// The fields of the regenerated code: the identifiers of the record, and the
/// latest grid point of the scanned time that is not after `now`.
pub open spec fn regenerated_code(record: ClassDataView, now: int, period: int) -> Result<
    SigningCodeView,
    RegenerateErrorView,
> {
    if record.is_expired {
        Err(RegenerateErrorView::Expired)
    } else if !record.is_populated() {
        Err(RegenerateErrorView::MissingData)
    } else {
        match parsed_time(record.last_created_time->0) {
            None => Err(RegenerateErrorView::UnparseableTime(record.last_created_time->0)),
            Some(scanned) => Ok(
                SigningCodeView {
                    id: record.last_checkwork_id->0,
                    site_id: record.site_id,
                    create_time: formatted_time(quantize_forward_spec(scanned, now, period)),
                    class_lesson_id: record.last_class_lesson_id->0,
                },
            ),
        }
    }
}

/// The regenerated code as text.
pub open spec fn regenerated(record: ClassDataView, now: int, period: int) -> Result<
    Seq<char>,
    RegenerateErrorView,
> {
    match regenerated_code(record, now, period) {
        Ok(code) => Ok(raw_code(code)),
        Err(e) => Err(e),
    }
}

/// Whether the identifiers of a record can stand in a code: the site and,
/// where they are there, the two identifiers of the last scan are numbers.
pub open spec fn has_numeric_identifiers(record: ClassDataView) -> bool {
    &&& is_number(record.site_id)
    &&& record.last_checkwork_id matches Some(id) ==> is_number(id)
    &&& record.last_class_lesson_id matches Some(id) ==> is_number(id)
}

/// Whether reading `raw` gives the identifiers of the record back.
pub open spec fn reads_back(record: ClassDataView, raw: Seq<char>) -> bool {
    match parsed(raw) {
        Some(code) => {
            &&& Some(code.id) == record.last_checkwork_id
            &&& code.site_id == record.site_id
            &&& Some(code.class_lesson_id) == record.last_class_lesson_id
        },
        None => false,
    }
}

/// The fields of the code of the record with the instant `time` itself as
/// its timestamp. No code is made of a record that is flagged expired, nor of
/// one that lacks a field of the last scan.
pub open spec fn stamped_code(record: ClassDataView, time: int) -> Result<
    SigningCodeView,
    RegenerateErrorView,
> {
    if record.is_expired {
        Err(RegenerateErrorView::Expired)
    } else if !record.is_populated() {
        Err(RegenerateErrorView::MissingData)
    } else {
        Ok(
            SigningCodeView {
                id: record.last_checkwork_id->0,
                site_id: record.site_id,
                create_time: formatted_time(time),
                class_lesson_id: record.last_class_lesson_id->0,
            },
        )
    }
}

/// Whether `result` is the outcome that `expected` names for the record: the
/// same error, or the text of the same code. The time of such a code has the
/// shape `YYYY-MM-DDTHH:MM:SS.mmm`, with three fraction digits, and where the
/// identifiers of the record are numbers the text reads back as the code.
pub open spec fn is_outcome(
    record: ClassDataView,
    expected: Result<SigningCodeView, RegenerateErrorView>,
    result: Result<String, RegenerateError>,
) -> bool {
    match result {
        Ok(raw) => match expected {
            Ok(code) => {
                &&& raw@ == raw_code(code)
                &&& is_timestamp_shape(code.create_time)
                &&& has_numeric_identifiers(record) ==> parsed(raw@) == Some(code)
            },
            Err(_) => false,
        },
        Err(e) => expected == Err::<SigningCodeView, RegenerateErrorView>(e@),
    }
}

/// A text in the shape of a timestamp can stand as the time of a code.
pub proof fn lemma_timestamp_is_token(text: Seq<char>)
    requires
        is_timestamp_shape(text),
    ensures
        is_token(text),
{
    assert forall|i: int| 0 <= i < text.len() implies #[trigger] text[i] != '&' by {
        if i != 4 && i != 7 && i != 10 && i != 13 && i != 16 && i != 19 {
            assert(crate::text::is_digit(text[i]));
        }
    }
}

/// Whether a code may be regenerated from the record at all.
pub fn can_regenerate(record: &ClassData) -> (usable: bool)
    ensures
        usable == is_usable(record@),
{
    !record.is_expired && record.is_populated()
}

/// The fields of a fresh code for the record. Fails with `Expired` where the
/// record is flagged expired, else with `MissingData` where a field of the
/// last scan is absent, else with `UnparseableTime` where the stored timestamp
/// matches no form. A code made from numeric identifiers reads back as itself.
pub fn regenerate_code(record: &ClassData, now: Instant, period: GridPeriod) -> (result: Result<
    SigningCode,
    RegenerateError,
>)
    ensures
        match result {
            Ok(code) => regenerated_code(record@, now@, period@) == Ok::<
                SigningCodeView,
                RegenerateErrorView,
            >(code@),
            Err(e) => regenerated_code(record@, now@, period@) == Err::<
                SigningCodeView,
                RegenerateErrorView,
            >(e@),
        },
        result matches Ok(code) ==> is_timestamp_shape(code.create_time@),
        result matches Ok(code) ==> (has_numeric_identifiers(record@) ==> is_well_formed(code@)
            && parsed(raw_code(code@)) == Some(code@)),
{
    if record.is_expired {
        return Err(RegenerateError::Expired);
    }
    match (&record.last_checkwork_id, &record.last_class_lesson_id, &record.last_created_time) {
        (Some(id), Some(lesson), Some(created)) => {
            match TimeProcessor::parse_time_string(created.as_str()) {
                Err(e) => Err(RegenerateError::UnparseableTime(e)),
                Ok(scanned) => {
                    let point = quantize_forward(scanned, now, period);
                    let code = SigningCode {
                        id: id.clone(),
                        site_id: record.site_id.clone(),
                        create_time: TimeProcessor::format_time_with_centiseconds(point),
                        class_lesson_id: lesson.clone(),
                    };
                    proof {
                        lemma_timestamp_is_token(code.create_time@);
                        if has_numeric_identifiers(record@) {
                            lemma_parse_inverts_raw_code(code@);
                        }
                    }
                    Ok(code)
                },
            }
        },
        _ => Err(RegenerateError::MissingData),
    }
}

/// A fresh code for the record, as text in the grammar of scanned codes. Fails
/// as `regenerate_code` does. Reading the text gives the identifiers of the
/// record back, where they are numbers.
pub fn regenerate(record: &ClassData, now: Instant, period: GridPeriod) -> (result: Result<
    String,
    RegenerateError,
>)
    ensures
        match result {
            Ok(raw) => regenerated(record@, now@, period@) == Ok::<Seq<char>, RegenerateErrorView>(
                raw@,
            ),
            Err(e) => regenerated(record@, now@, period@) == Err::<Seq<char>, RegenerateErrorView>(
                e@,
            ),
        },
        is_outcome(record@, regenerated_code(record@, now@, period@), result),
        result is Ok <==> is_usable(record@) && parsed_time(record@.last_created_time->0) is Some,
        result matches Ok(raw) ==> (has_numeric_identifiers(record@) ==> reads_back(
            record@,
            raw@,
        ) && regenerated_code(record@, now@, period@) == Ok::<
            SigningCodeView,
            RegenerateErrorView,
        >(parsed(raw@)->0)),
{
    match regenerate_code(record, now, period) {
        Ok(code) => Ok(code.to_raw()),
        Err(e) => Err(e),
    }
}

/// The code of the record with the instant `time` itself as its timestamp,
/// not brought onto the grid of the scan. Fails with `Expired` where the
/// record is flagged expired, else with `MissingData` where a field of the
/// last scan is absent. Reading the text gives the identifiers of the record
/// back, where they are numbers.
pub fn format_signing_code_at(code: &ClassData, time: Instant) -> (result: Result<
    String,
    RegenerateError,
>)
    ensures
        is_outcome(code@, stamped_code(code@, time@), result),
        result is Ok <==> is_usable(code@),
        result matches Ok(raw) ==> (has_numeric_identifiers(code@) ==> reads_back(code@, raw@)),
{
    if code.is_expired {
        return Err(RegenerateError::Expired);
    }
    match (&code.last_checkwork_id, &code.last_class_lesson_id, &code.last_created_time) {
        (Some(id), Some(lesson), Some(_)) => {
            let stamped = SigningCode {
                id: id.clone(),
                site_id: code.site_id.clone(),
                create_time: TimeProcessor::format_time_with_centiseconds(time),
                class_lesson_id: lesson.clone(),
            };
            proof {
                lemma_timestamp_is_token(stamped.create_time@);
                if has_numeric_identifiers(code@) {
                    lemma_parse_inverts_raw_code(stamped@);
                }
            }
            Ok(stamped.to_raw())
        },
        _ => Err(RegenerateError::MissingData),
    }
}

/// The code of the record with the reading of the system clock as its
/// timestamp. Fails with `Expired` where the record is flagged expired, else
/// with `MissingData` where a field of the last scan is absent, whatever the
/// clock reads. Reading the text gives the identifiers of the record back,
/// where they are numbers.
pub fn format_signing_code(code: &ClassData) -> (result: Result<String, RegenerateError>)
    ensures
        exists|now: int|
            representable(now) && is_outcome(code@, #[trigger] stamped_code(code@, now), result),
        result is Ok <==> is_usable(code@),
        code.is_expired ==> result matches Err(RegenerateError::Expired),
        !code.is_expired && !code@.is_populated() ==> result matches Err(
            RegenerateError::MissingData,
        ),
        result matches Ok(raw) ==> (has_numeric_identifiers(code@) ==> reads_back(code@, raw@)),
{
    let now = Instant::now();
    let result = format_signing_code_at(code, now);
    proof {
        assert(representable(now@) && is_outcome(code@, stamped_code(code@, now@), result));
    }
    result
}

} // verus!
