use class_checkin::models::SigningCode;
use class_checkin::signing_code::{parse_signing_code, QrCodeParser};

const SAMPLE: &str =
    "checkwork|id=12345&siteId=678&createTime=2025-06-04T09:52:14.040&classLessonId=91011";

fn fields(id: &str, site_id: &str, create_time: &str, class_lesson_id: &str) -> SigningCode {
    SigningCode {
        id: id.to_string(),
        site_id: site_id.to_string(),
        create_time: create_time.to_string(),
        class_lesson_id: class_lesson_id.to_string(),
    }
}

#[test]
fn parses_the_four_fields() {
    let code = parse_signing_code(SAMPLE).expect("a code");
    assert_eq!(code, fields("12345", "678", "2025-06-04T09:52:14.040", "91011"));
}

#[test]
fn parser_struct_reads_as_the_function_does() {
    let parser = QrCodeParser::new();
    assert_eq!(parser.parse(SAMPLE), parse_signing_code(SAMPLE));
    assert_eq!(QrCodeParser::default().parse("nothing"), None);
}

#[test]
fn rejects_wrong_field_order() {
    assert_eq!(
        parse_signing_code(
            "checkwork|siteId=678&id=12345&createTime=2025-06-04T09:52:14.040&classLessonId=91011"
        ),
        None
    );
    assert_eq!(
        parse_signing_code(
            "checkwork|id=12345&createTime=2025-06-04T09:52:14.040&siteId=678&classLessonId=91011"
        ),
        None
    );
}

#[test]
fn rejects_missing_field() {
    assert_eq!(
        parse_signing_code("checkwork|id=12345&siteId=678&createTime=2025-06-04T09:52:14.040"),
        None
    );
    assert_eq!(
        parse_signing_code("checkwork|id=12345&createTime=2025-06-04T09:52:14.040&classLessonId=9"),
        None
    );
}

#[test]
fn rejects_non_digit_identifiers() {
    assert_eq!(
        parse_signing_code("checkwork|id=12a45&siteId=678&createTime=t&classLessonId=91011"),
        None
    );
    assert_eq!(
        parse_signing_code("checkwork|id=12345&siteId=x678&createTime=t&classLessonId=91011"),
        None
    );
    assert_eq!(
        parse_signing_code("checkwork|id=12345&siteId=678&createTime=t&classLessonId=abc"),
        None
    );
    assert_eq!(
        parse_signing_code("checkwork|id=&siteId=678&createTime=t&classLessonId=91011"),
        None
    );
}

#[test]
fn rejects_empty_time_token() {
    assert_eq!(
        parse_signing_code("checkwork|id=1&siteId=2&createTime=&classLessonId=3"),
        None
    );
}

#[test]
fn rejects_truncated_and_foreign_input() {
    assert_eq!(parse_signing_code(""), None);
    assert_eq!(parse_signing_code("checkwork|id=12345&siteId="), None);
    assert_eq!(parse_signing_code("checkwork|"), None);
    assert_eq!(
        parse_signing_code("checkin|id=12345&siteId=678&createTime=t&classLessonId=91011"),
        None
    );
    assert_eq!(parse_signing_code("https://example.com/?id=1&siteId=2"), None);
}

#[test]
fn rejects_partially_percent_encoded_separators() {
    assert_eq!(
        parse_signing_code("checkwork%7Cid=12345&siteId=678&createTime=t&classLessonId=91011"),
        None
    );
    assert_eq!(
        parse_signing_code("checkwork|id=12345%26siteId=678&createTime=t&classLessonId=91011"),
        None
    );
    assert_eq!(parse_signing_code("%"), None);
    assert_eq!(parse_signing_code("%E4%BD"), None);
}

#[test]
fn keeps_the_time_token_opaque() {
    let code = parse_signing_code(
        "checkwork|id=1&siteId=2&createTime=2025-06-04+09%3A52%3A14.04&classLessonId=3",
    )
    .expect("a code");
    assert_eq!(code.create_time, "2025-06-04+09%3A52%3A14.04");
    let odd = parse_signing_code("checkwork|id=1&siteId=2&createTime=时间 x=y&classLessonId=3")
        .expect("a code");
    assert_eq!(odd.create_time, "时间 x=y");
}

#[test]
fn rejects_a_code_inside_other_text() {
    assert_eq!(parse_signing_code(&format!("x{}", SAMPLE)), None);
    assert_eq!(parse_signing_code(&format!(" {}", SAMPLE)), None);
    assert_eq!(parse_signing_code(&format!("扫码: {}", SAMPLE)), None);
    assert_eq!(parse_signing_code(&format!("{}x", SAMPLE)), None);
    assert_eq!(parse_signing_code(&format!("{} ", SAMPLE)), None);
    assert_eq!(parse_signing_code(&format!("{}\n", SAMPLE)), None);
    assert_eq!(parse_signing_code(&format!("{}&x=1", SAMPLE)), None);
    assert_eq!(parse_signing_code(&format!("{}{}", SAMPLE, SAMPLE)), None);
}

#[test]
fn rejects_a_foreign_tag() {
    assert_eq!(
        parse_signing_code(
            "xcheckwork|id=1&siteId=2&createTime=2025-06-04T09:52:14.040&classLessonId=3"
        ),
        None
    );
    assert_eq!(
        parse_signing_code(
            "Checkwork|id=1&siteId=2&createTime=2025-06-04T09:52:14.040&classLessonId=3"
        ),
        None
    );
}

#[test]
fn identifiers_are_digits_to_the_end() {
    assert_eq!(
        parse_signing_code("checkwork|id=1&siteId=2&createTime=t&classLessonId=345abc"),
        None
    );
    assert_eq!(
        parse_signing_code("checkwork|id=1x&siteId=2&createTime=t&classLessonId=3"),
        None
    );
    assert_eq!(
        parse_signing_code("checkwork|id=1&siteId=2&createTime=t&classLessonId=345"),
        Some(fields("1", "2", "t", "345"))
    );
}

#[test]
fn non_ascii_digits_are_no_digits() {
    assert_eq!(
        parse_signing_code("checkwork|id=١٢٣&siteId=2&createTime=t&classLessonId=3"),
        None
    );
}

#[test]
fn writes_the_grammar_bit_exact() {
    let code = fields("12345", "678", "2025-06-04T09:52:14.040", "91011");
    assert_eq!(code.to_raw(), SAMPLE);
}

#[test]
fn written_code_reads_back() {
    let code = fields("7", "0042", "2025-06-04 09:52:14", "1");
    assert_eq!(parse_signing_code(&code.to_raw()), Some(code));
}

#[test]
fn random_strings_hold_no_code() {
    // A fixed pseudo-random walk over bytes, weighted toward the characters of the grammar.
    let alphabet: Vec<char> =
        "checkwork|id=&siteId=&createTime=&classLessonId=0123456789T:.-+% é码".chars().collect();
    let mut state: u64 = 0x9E37_79B9_7F4A_7C15;
    for round in 0..2000 {
        let mut text = String::new();
        let len = (round % 60) as usize;
        for _ in 0..len {
            state = state.wrapping_mul(6364136223846793005).wrapping_add(1442695040888963407);
            text.push(alphabet[((state >> 33) as usize) % alphabet.len()]);
        }
        let parsed = parse_signing_code(&text);
        if !text.starts_with("checkwork|id=") {
            assert_eq!(parsed, None);
        }
        if let Some(code) = parsed {
            assert!(!code.id.is_empty() && code.id.chars().all(|c| c.is_ascii_digit()));
            assert!(!code.site_id.is_empty() && code.site_id.chars().all(|c| c.is_ascii_digit()));
            assert!(!code.create_time.is_empty() && !code.create_time.contains('&'));
            assert_eq!(code.to_raw(), text);
        }
    }
}

#[test]
fn near_misses_of_a_code_hold_no_code() {
    // Every text one change away from a code, by dropping or doubling one character, is
    // read as nothing unless it is again the code of four well-formed fields.
    let chars: Vec<char> = SAMPLE.chars().collect();
    for at in 0..chars.len() {
        let mut dropped = chars.clone();
        dropped.remove(at);
        let dropped: String = dropped.into_iter().collect();
        let mut doubled = chars.clone();
        doubled.insert(at, chars[at]);
        let doubled: String = doubled.into_iter().collect();
        for text in [dropped, doubled] {
            match parse_signing_code(&text) {
                Some(code) => assert_eq!(code.to_raw(), text),
                None => {}
            }
        }
    }
    let without_tag: String = chars[1..].iter().collect();
    assert_eq!(parse_signing_code(&without_tag), None);
}
