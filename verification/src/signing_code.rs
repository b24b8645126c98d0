//! The grammar of the scanned code,
//! `checkwork|id=<digits>&siteId=<digits>&createTime=<token>&classLessonId=<digits>`,
//! read and written.

use vstd::prelude::*;
use crate::models::{SigningCode, SigningCodeView};
use crate::text::{
    chars_of, digits_end, has_literal_at, is_digit, is_number, is_token, lemma_digits_end,
    lemma_run_of_digits, lemma_run_without_ampersand, lemma_token_end, literal_at, scan_digits,
    scan_token, token_end,
};

verus! {

/// The tag and the label of the first field, the verifier's identifier of
/// the code.
pub open spec fn id_label() -> Seq<char> {
    "checkwork|id="@
}

/// The label of the second field, the site.
pub open spec fn site_label() -> Seq<char> {
    "&siteId="@
}

/// The label of the third field, the time at which the code was issued.
pub open spec fn time_label() -> Seq<char> {
    "&createTime="@
}

/// The label of the fourth field, the lesson.
pub open spec fn lesson_label() -> Seq<char> {
    "&classLessonId="@
}

/// The code that carries the four fields.
pub open spec fn raw_code(code: SigningCodeView) -> Seq<char> {
    id_label() + code.id + site_label() + code.site_id + time_label() + code.create_time
        + lesson_label() + code.class_lesson_id
}

/// Whether the four fields can stand in a code: the three identifiers are
/// numbers, the time is a token without `&`.
pub open spec fn is_well_formed(code: SigningCodeView) -> bool {
    &&& is_number(code.id)
    &&& is_number(code.site_id)
    &&& is_token(code.create_time)
    &&& is_number(code.class_lesson_id)
}

impl SigningCode {
    /// Writes the four fields as a code.
    pub fn to_raw(&self) -> (raw: String)
        ensures
            raw@ == raw_code(self@),
    {
        let mut raw = String::from_str("checkwork|id=");
        raw.append(self.id.as_str());
        raw.append("&siteId=");
        raw.append(self.site_id.as_str());
        raw.append("&createTime=");
        raw.append(self.create_time.as_str());
        raw.append("&classLessonId=");
        raw.append(self.class_lesson_id.as_str());
        raw
    }
}

/// The code that begins at position `start` of `text`, if one does. Each
/// identifier runs as far as digits go, the time as far as no `&` stands.
pub open spec fn code_at(text: Seq<char>, start: int) -> Option<SigningCodeView> {
    let id_from = start + id_label().len();
    let id_to = digits_end(text, id_from);
    let site_from = id_to + site_label().len();
    let site_to = digits_end(text, site_from);
    let time_from = site_to + time_label().len();
    let time_to = token_end(text, time_from);
    let lesson_from = time_to + lesson_label().len();
    let lesson_to = digits_end(text, lesson_from);
    if {
        &&& has_literal_at(text, start, id_label())
        &&& id_from < id_to
        &&& has_literal_at(text, id_to, site_label())
        &&& site_from < site_to
        &&& has_literal_at(text, site_to, time_label())
        &&& time_from < time_to
        &&& has_literal_at(text, time_to, lesson_label())
        &&& lesson_from < lesson_to
    } {
        Some(
            SigningCodeView {
                id: text.subrange(id_from, id_to),
                site_id: text.subrange(site_from, site_to),
                create_time: text.subrange(time_from, time_to),
                class_lesson_id: text.subrange(lesson_from, lesson_to),
            },
        )
    } else {
        None
    }
}

/// The fields of the code that `text` is; none where `text` as a whole is no
/// code: something stands before the tag, after the last identifier, or in
/// place of a field.
pub open spec fn parsed(text: Seq<char>) -> Option<SigningCodeView> {
    match code_at(text, 0) {
        Some(code) => if raw_code(code) == text {
            Some(code)
        } else {
            None
        },
        None => None,
    }
}

/// The fields of a code that was read are well-formed.
pub proof fn lemma_code_at_is_well_formed(text: Seq<char>, start: int)
    requires
        0 <= start,
        code_at(text, start) is Some,
    ensures
        is_well_formed(code_at(text, start)->0),
{
    let id_from = start + id_label().len();
    let id_to = digits_end(text, id_from);
    let site_from = id_to + site_label().len();
    let site_to = digits_end(text, site_from);
    let time_from = site_to + time_label().len();
    let time_to = token_end(text, time_from);
    let lesson_from = time_to + lesson_label().len();
    lemma_run_of_digits(text, id_from);
    lemma_run_of_digits(text, site_from);
    lemma_run_without_ampersand(text, time_from);
    lemma_run_of_digits(text, lesson_from);
}

/// The code that begins at position `start`, if one does, and the position at
/// which it ends.
fn read_code_at(content: &str, chars: &Vec<char>, start: usize) -> (found: Option<
    (SigningCode, usize),
>)
    requires
        chars@ == content@,
        start <= chars.len(),
    ensures
        match found {
            Some((code, end)) => code_at(content@, start as int) == Some(code@) && end == start
                + raw_code(code@).len() && end <= chars.len(),
            None => code_at(content@, start as int) is None,
        },
{
    proof {
        reveal_strlit("checkwork|id=");
        reveal_strlit("&siteId=");
        reveal_strlit("&createTime=");
        reveal_strlit("&classLessonId=");
    }
    if !literal_at(chars, start, "checkwork|id=") {
        return None;
    }
    let id_from: usize = start + 13;
    let id_to: usize = scan_digits(chars, id_from);
    if id_to == id_from || !literal_at(chars, id_to, "&siteId=") {
        return None;
    }
    let site_from: usize = id_to + 8;
    let site_to: usize = scan_digits(chars, site_from);
    if site_to == site_from || !literal_at(chars, site_to, "&createTime=") {
        return None;
    }
    let time_from: usize = site_to + 12;
    let time_to: usize = scan_token(chars, time_from);
    if time_to == time_from || !literal_at(chars, time_to, "&classLessonId=") {
        return None;
    }
    let lesson_from: usize = time_to + 15;
    let lesson_to: usize = scan_digits(chars, lesson_from);
    if lesson_to == lesson_from {
        return None;
    }
    let code = SigningCode {
        id: content.substring_char(id_from, id_to).to_owned(),
        site_id: content.substring_char(site_from, site_to).to_owned(),
        create_time: content.substring_char(time_from, time_to).to_owned(),
        class_lesson_id: content.substring_char(lesson_from, lesson_to).to_owned(),
    };
    Some((code, lesson_to))
}

/// Reads `content` as a code. Returns the four fields where the whole of
/// `content` is a code, and none for any other text: truncated, reordered,
/// foreign-tagged, with something before the tag or after the last
/// identifier, or otherwise malformed.
pub fn parse_signing_code(content: &str) -> (code: Option<SigningCode>)
    ensures
        match code {
            Some(c) => parsed(content@) == Some(c@),
            None => parsed(content@) is None,
        },
        code matches Some(c) ==> is_well_formed(c@) && raw_code(c@) == content@,
        code is None ==> forall|c: SigningCodeView|
            is_well_formed(c) ==> raw_code(c) != content@,
{
    let chars = chars_of(content);
    proof {
        assert forall|c: SigningCodeView|
            is_well_formed(c) && raw_code(c) == content@ implies parsed(content@) == Some(c) by {
            lemma_parsed_is_the_whole_code(content@, c);
        }
    }
    match read_code_at(content, &chars, 0) {
        None => None,
        Some((code, end)) => {
            proof {
                lemma_code_at_is_the_code_that_stands(content@, 0, code@);
                assert(content@.subrange(0, content@.len() as int) =~= content@);
            }
            if end == chars.len() {
                Some(code)
            } else {
                None
            }
        },
    }
}

/// Whether the code of the four fields stands in `text` at position `start`
/// and no digit follows it.
pub open spec fn holds_code_at(text: Seq<char>, start: int, code: SigningCodeView) -> bool {
    let end = start + raw_code(code).len();
    &&& is_well_formed(code)
    &&& has_literal_at(text, start, raw_code(code))
    &&& end < text.len() ==> !is_digit(text[end])
}

/// The code that is read at a position is the one that stands there: its four
/// fields are well-formed, written out they are the text from that position
/// on, and the last identifier ends where the digits end.
pub proof fn lemma_code_at_is_the_code_that_stands(
    text: Seq<char>,
    start: int,
    code: SigningCodeView,
)
    requires
        0 <= start,
    ensures
        code_at(text, start) == Some(code) <==> holds_code_at(text, start, code),
{
    reveal_strlit("checkwork|id=");
    reveal_strlit("&siteId=");
    reveal_strlit("&createTime=");
    reveal_strlit("&classLessonId=");
    if holds_code_at(text, start, code) {
        let raw = raw_code(code);
        let id_from = start + 13;
        let id_to = id_from + code.id.len();
        let site_from = id_to + 8;
        let site_to = site_from + code.site_id.len();
        let time_from = site_to + 12;
        let time_to = time_from + code.create_time.len();
        let lesson_from = time_to + 15;
        let lesson_to = lesson_from + code.class_lesson_id.len();
        assert(raw.len() == lesson_to - start);
        assert forall|i: int| 0 <= i < raw.len() implies text[start + i] == raw[i] by {
            assert(text.subrange(start, start + raw.len())[i] == raw[i]);
        }
        assert(text.subrange(start, id_from) =~= id_label()) by {
            assert forall|i: int| 0 <= i < 13 implies text[start + i] == id_label()[i] by {
                assert(raw[i] == id_label()[i]);
            }
        }
        assert(text.subrange(id_from, id_to) =~= code.id) by {
            assert forall|i: int| 0 <= i < code.id.len() implies text[id_from + i]
                == code.id[i] by {
                assert(raw[13 + i] == code.id[i]);
            }
        }
        assert(text.subrange(id_to, site_from) =~= site_label()) by {
            assert forall|i: int| 0 <= i < 8 implies text[id_to + i] == site_label()[i] by {
                assert(raw[id_to - start + i] == site_label()[i]);
            }
        }
        assert(text.subrange(site_from, site_to) =~= code.site_id) by {
            assert forall|i: int| 0 <= i < code.site_id.len() implies text[site_from + i]
                == code.site_id[i] by {
                assert(raw[site_from - start + i] == code.site_id[i]);
            }
        }
        assert(text.subrange(site_to, time_from) =~= time_label()) by {
            assert forall|i: int| 0 <= i < 12 implies text[site_to + i] == time_label()[i] by {
                assert(raw[site_to - start + i] == time_label()[i]);
            }
        }
        assert(text.subrange(time_from, time_to) =~= code.create_time) by {
            assert forall|i: int| 0 <= i < code.create_time.len() implies text[time_from + i]
                == code.create_time[i] by {
                assert(raw[time_from - start + i] == code.create_time[i]);
            }
        }
        assert(text.subrange(time_to, lesson_from) =~= lesson_label()) by {
            assert forall|i: int| 0 <= i < 15 implies text[time_to + i] == lesson_label()[i] by {
                assert(raw[time_to - start + i] == lesson_label()[i]);
            }
        }
        assert(text.subrange(lesson_from, lesson_to) =~= code.class_lesson_id) by {
            assert forall|i: int| 0 <= i < code.class_lesson_id.len() implies text[lesson_from
                + i] == code.class_lesson_id[i] by {
                assert(raw[lesson_from - start + i] == code.class_lesson_id[i]);
            }
        }
        assert forall|i: int| id_from <= i < id_to implies is_digit(#[trigger] text[i]) by {
            assert(text[i] == code.id[i - id_from]);
        }
        assert(text[id_to] == site_label()[0]);
        lemma_digits_end(text, id_from, id_to);
        assert forall|i: int| site_from <= i < site_to implies is_digit(#[trigger] text[i]) by {
            assert(text[i] == code.site_id[i - site_from]);
        }
        assert(text[site_to] == time_label()[0]);
        lemma_digits_end(text, site_from, site_to);
        assert forall|i: int| time_from <= i < time_to implies #[trigger] text[i] != '&' by {
            assert(text[i] == code.create_time[i - time_from]);
        }
        assert(text[time_to] == lesson_label()[0]);
        lemma_token_end(text, time_from, time_to);
        assert forall|i: int| lesson_from <= i < lesson_to implies is_digit(
            #[trigger] text[i],
        ) by {
            assert(text[i] == code.class_lesson_id[i - lesson_from]);
        }
        lemma_digits_end(text, lesson_from, lesson_to);
        assert(code_at(text, start) == Some(code));
    }
    if code_at(text, start) == Some(code) {
        let id_from = start + 13;
        let id_to = digits_end(text, id_from);
        let site_from = id_to + 8;
        let site_to = digits_end(text, site_from);
        let time_from = site_to + 12;
        let time_to = token_end(text, time_from);
        let lesson_from = time_to + 15;
        let lesson_to = digits_end(text, lesson_from);
        lemma_code_at_is_well_formed(text, start);
        lemma_run_of_digits(text, lesson_from);
        let raw = raw_code(code);
        assert(raw.len() == lesson_to - start);
        assert(text.subrange(start, lesson_to) =~= text.subrange(start, id_from) + code.id
            + text.subrange(id_to, site_from) + code.site_id + text.subrange(site_to, time_from)
            + code.create_time + text.subrange(time_to, lesson_from) + code.class_lesson_id);
        assert(text.subrange(start, start + raw.len()) == raw);
    }
}

/// A text reads as four fields exactly where the fields are well-formed and
/// the text is the code written from them: nothing before the tag, nothing
/// after the last identifier.
pub proof fn lemma_parsed_is_the_whole_code(text: Seq<char>, code: SigningCodeView)
    ensures
        parsed(text) == Some(code) <==> is_well_formed(code) && raw_code(code) == text,
{
    lemma_code_at_is_the_code_that_stands(text, 0, code);
    assert(text.subrange(0, text.len() as int) =~= text);
    if parsed(text) == Some(code) {
        assert(code_at(text, 0) == Some(code));
    }
    if is_well_formed(code) && raw_code(code) == text {
        assert(holds_code_at(text, 0, code));
    }
}

/// A text reads as nothing exactly where it is the code of no well-formed
/// fields.
pub proof fn lemma_parsed_none_off_grammar(text: Seq<char>)
    ensures
        parsed(text) is None <==> forall|code: SigningCodeView|
            is_well_formed(code) ==> raw_code(code) != text,
{
    if parsed(text) is Some {
        lemma_parsed_is_the_whole_code(text, parsed(text)->0);
    }
    assert forall|code: SigningCodeView| is_well_formed(code) && raw_code(code)
        == text implies parsed(text) is Some by {
        lemma_parsed_is_the_whole_code(text, code);
    }
}

/// Writing four well-formed fields as a code and reading the code gives the
/// four fields back.
pub proof fn lemma_parse_inverts_raw_code(code: SigningCodeView)
    requires
        is_well_formed(code),
    ensures
        parsed(raw_code(code)) == Some(code),
{
    lemma_parsed_is_the_whole_code(raw_code(code), code);
}

/// The grammar parser of scanned codes.
pub struct QrCodeParser {}

impl QrCodeParser {
    pub fn new() -> (parser: Self) {
        QrCodeParser {  }
    }

    /// Reads `content` as a code; none where the whole of `content` is no
    /// code.
    pub fn parse(&self, content: &str) -> (code: Option<SigningCode>)
        ensures
            match code {
                Some(c) => parsed(content@) == Some(c@),
                None => parsed(content@) is None,
            },
            code matches Some(c) ==> is_well_formed(c@) && raw_code(c@) == content@,
            code is None ==> forall|c: SigningCodeView|
                is_well_formed(c) ==> raw_code(c) != content@,
    {
        parse_signing_code(content)
    }
}

impl Default for QrCodeParser {
    fn default() -> (parser: Self) {
        QrCodeParser::new()
    }
}

} // verus!
