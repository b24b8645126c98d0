//! The two records of the core: the fields decoded from one scanned code, and
//! the session record that the store keeps per site.

use vstd::prelude::*;

verus! {

/// The text of an optional string.
pub open spec fn text_of(field: Option<String>) -> Option<Seq<char>> {
    match field {
        Some(s) => Some(s@),
        None => None,
    }
}

/// A copy of an optional string.
pub fn copy_text(field: &Option<String>) -> (copy: Option<String>)
    ensures
        copy == *field,
{
    match field {
        Some(s) => Some(s.clone()),
        None => None,
    }
}

/// The decoded fields of one scanned code.
#[derive(Debug, PartialEq, Eq)]
pub struct SigningCode {
    pub id: String,
    pub site_id: String,
    pub create_time: String,
    pub class_lesson_id: String,
}

pub struct SigningCodeView {
    pub id: Seq<char>,
    pub site_id: Seq<char>,
    pub create_time: Seq<char>,
    pub class_lesson_id: Seq<char>,
}

impl View for SigningCode {
    type V = SigningCodeView;

    open spec fn view(&self) -> SigningCodeView {
        SigningCodeView {
            id: self.id@,
            site_id: self.site_id@,
            create_time: self.create_time@,
            class_lesson_id: self.class_lesson_id@,
        }
    }
}

impl Clone for SigningCode {
    fn clone(&self) -> (copy: Self)
        ensures
            copy == *self,
    {
        SigningCode {
            id: self.id.clone(),
            site_id: self.site_id.clone(),
            create_time: self.create_time.clone(),
            class_lesson_id: self.class_lesson_id.clone(),
        }
    }
}

/// The session record of one site: its names, the fields of the last scan, and
/// whether the session is over.
#[derive(Debug, PartialEq, Eq)]
pub struct ClassData {
    pub site_id: String,
    pub class_name: String,
    pub classes: String,
    pub last_checkwork_id: Option<String>,
    pub last_class_lesson_id: Option<String>,
    pub last_created_time: Option<String>,
    pub is_expired: bool,
}

pub struct ClassDataView {
    pub site_id: Seq<char>,
    pub class_name: Seq<char>,
    pub classes: Seq<char>,
    pub last_checkwork_id: Option<Seq<char>>,
    pub last_class_lesson_id: Option<Seq<char>>,
    pub last_created_time: Option<Seq<char>>,
    pub is_expired: bool,
}

impl ClassDataView {
    /// All three fields of the last scan are there.
    pub open spec fn is_populated(self) -> bool {
        self.last_checkwork_id is Some && self.last_class_lesson_id is Some
            && self.last_created_time is Some
    }

    /// None of the fields of a scan is there.
    pub open spec fn is_unscanned(self) -> bool {
        self.last_checkwork_id is None && self.last_class_lesson_id is None
            && self.last_created_time is None
    }

    /// The fields of the last scan are all there or all missing.
    pub open spec fn is_consistent(self) -> bool {
        self.is_populated() || self.is_unscanned()
    }
}

impl View for ClassData {
    type V = ClassDataView;

    open spec fn view(&self) -> ClassDataView {
        ClassDataView {
            site_id: self.site_id@,
            class_name: self.class_name@,
            classes: self.classes@,
            last_checkwork_id: text_of(self.last_checkwork_id),
            last_class_lesson_id: text_of(self.last_class_lesson_id),
            last_created_time: text_of(self.last_created_time),
            is_expired: self.is_expired,
        }
    }
}

impl Clone for ClassData {
    fn clone(&self) -> (copy: Self)
        ensures
            copy == *self,
    {
        ClassData {
            site_id: self.site_id.clone(),
            class_name: self.class_name.clone(),
            classes: self.classes.clone(),
            last_checkwork_id: copy_text(&self.last_checkwork_id),
            last_class_lesson_id: copy_text(&self.last_class_lesson_id),
            last_created_time: copy_text(&self.last_created_time),
            is_expired: self.is_expired,
        }
    }
}

impl ClassData {
    /// Whether all three fields of the last scan are there.
    pub fn is_populated(&self) -> (populated: bool)
        ensures
            populated == self@.is_populated(),
    {
        self.last_checkwork_id.is_some() && self.last_class_lesson_id.is_some()
            && self.last_created_time.is_some()
    }

    /// Whether the fields of the last scan are all there or all missing.
    pub fn is_consistent(&self) -> (consistent: bool)
        ensures
            consistent == self@.is_consistent(),
    {
        self.is_populated() || (self.last_checkwork_id.is_none()
            && self.last_class_lesson_id.is_none() && self.last_created_time.is_none())
    }
}

} // verus!
