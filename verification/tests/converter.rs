use numgle::analyzer::get_coda_index;
use numgle::analyzer::get_nucleus_index;
use numgle::analyzer::get_onset_index;
use numgle::analyzer::is_char_in_array;
use numgle::converts::ClassKind;
use numgle::converts::ClassSpec;
use numgle::converts::Converter;
use numgle::converts::NumgleCreator;
use numgle::data::ConfigError;
use numgle::data::DataSet;
use numgle::data::Range;
use numgle::data::Ranges;

fn table(prefix: &str, n: usize) -> Vec<String> {
    let mut t = Vec::new();
    for i in 0..n {
        t.push(format!("{}{}", prefix, i));
    }
    t
}

fn build_dataset() -> DataSet {
    let mut cj = Vec::new();
    for outer in 0..9 {
        let mut row = Vec::new();
        for onset in 0..19 {
            row.push(format!("X{}_{}", outer, onset));
        }
        cj.push(row);
    }
    DataSet {
        cho: table("C", 19),
        jong: table("F", 28),
        jung: table("J", 13),
        cj,
        han: table("H", 51),
        english_upper: table("U", 26),
        english_lower: table("L", 26),
        number: table("N", 9),
        special: vec![String::from("bang"), String::from("at")],
        range: Ranges {
            complete_hangul: Range { start: 0xAC00, end: 0xD7A3 },
            not_complete_hangul: Range { start: 0x3131, end: 0x3163 },
            uppercase: Range { start: 65, end: 90 },
            lowercase: Range { start: 97, end: 122 },
            number: Range { start: 49, end: 57 },
            special: vec![33, 64],
        },
    }
}

#[test]
fn decompose_shared_components() {
    // Same onset, different nucleus and coda.
    assert_eq!(get_onset_index('구'), get_onset_index('굴'));
    // Same nucleus, differing only in the coda: the nucleus index agrees
    // and the coda indices differ exactly as the code points do.
    assert_eq!(get_nucleus_index('각'), get_nucleus_index('간'));
    assert_eq!(
        get_coda_index('간') - get_coda_index('각'),
        '간' as u32 - '각' as u32
    );
}

#[test]
fn construction_accepts_consistent_dataset() {
    assert!(Converter::new(build_dataset()).is_ok());
}

#[test]
fn construction_rejects_misaligned_special_tables() {
    let mut d = build_dataset();
    d.special.pop();
    match Converter::new(d) {
        Err(e) => assert_eq!(e, ConfigError::SpecialTablesMisaligned),
        Ok(_) => panic!("misaligned special tables were accepted"),
    }
}

#[test]
fn construction_rejects_range_outside_table() {
    let mut d = build_dataset();
    // The largest digit offset (57 - 49 == 8) must index inside the digit
    // table; a nine-entry table with an interval up to 58 does not fit.
    d.range.number.end = 58;
    match Converter::new(d) {
        Err(e) => assert_eq!(e, ConfigError::ClassRangeOutsideTable),
        Ok(_) => panic!("an oversized class interval was accepted"),
    }
}

#[test]
fn construction_rejects_short_hangul_table() {
    let mut d = build_dataset();
    d.cho.pop();
    match Converter::new(d) {
        Err(e) => assert_eq!(e, ConfigError::HangulTablesMalformed),
        Ok(_) => panic!("a short onset table was accepted"),
    }
}

#[test]
fn convert_char_complete_hangul_combined_nucleus() {
    let cv = Converter::new(build_dataset()).unwrap();
    // '각' decomposes to onset 0, nucleus 0, coda 1; nucleus 0 is not
    // independently representable, so the combined table row 0 is used.
    assert_eq!(cv.convert_char('각'), "F1X0_0");
    // '기' has nucleus index 20, which also uses the combined table, row 8.
    assert_eq!(cv.convert_char('기'), "F0X8_0");
}

#[test]
fn convert_char_complete_hangul_plain_nucleus() {
    let cv = Converter::new(build_dataset()).unwrap();
    // '구' decomposes to onset 0, nucleus 13, coda 0: coda fragment first,
    // then the vowel fragment (13 - 8 == 5), the onset fragment last.
    assert_eq!(cv.convert_char('구'), "F0J5C0");
}

#[test]
fn convert_char_offset_classes() {
    let cv = Converter::new(build_dataset()).unwrap();
    assert_eq!(cv.convert_char('ㄱ'), "H0");
    assert_eq!(cv.convert_char('A'), "U0");
    assert_eq!(cv.convert_char('z'), "L25");
    assert_eq!(cv.convert_char('1'), "N0");
    assert_eq!(cv.convert_char('9'), "N8");
}

#[test]
fn convert_char_special_symbols() {
    let cv = Converter::new(build_dataset()).unwrap();
    assert_eq!(cv.convert_char('!'), "bang");
    assert_eq!(cv.convert_char('@'), "at");
}

#[test]
fn special_membership_is_exact() {
    let codes = vec![33, 64];
    assert!(is_char_in_array(&codes, '!'));
    assert!(is_char_in_array(&codes, '@'));
    assert!(!is_char_in_array(&codes, '#'));
}

#[test]
fn convert_char_unclassified_is_empty() {
    let cv = Converter::new(build_dataset()).unwrap();
    // '~' lies outside every interval and the special list.
    assert_eq!(cv.convert_char('~'), "");
    // '0' lies below the digit base, so a consistent data set leaves it
    // unclassified.
    assert_eq!(cv.convert_char('0'), "");
}

#[test]
fn convert_str_joins_one_segment_per_character() {
    let cv = Converter::new(build_dataset()).unwrap();
    let out = cv.convert_str("가a!");
    assert_eq!(out, "F0X0_0\nL0\nbang");
    // One segment per input character, empty segments included.
    let out = cv.convert_str("a~!");
    assert_eq!(out, "L0\n\nbang");
    assert_eq!(out.split('\n').count(), 3);
}

#[test]
fn convert_str_empty_input() {
    let cv = Converter::new(build_dataset()).unwrap();
    assert_eq!(cv.convert_str(""), "");
}

#[test]
fn range_to_tuple() {
    let r = Range { start: 1, end: 5 };
    assert_eq!(r.to_tuple(), (1, 5));
}

#[test]
fn handler_accepts_only_its_class() {
    let d = build_dataset();
    let handler = NumgleCreator {
        checker: ClassSpec::RangeClass(Range { start: 65, end: 90 }),
        kind: ClassKind::UpperEnglish,
    };
    assert_eq!(handler.try_create(&d, 'B'), Some(String::from("U1")));
    assert_eq!(handler.try_create(&d, 'b'), None);
}

#[test]
fn convert_str_is_deterministic() {
    let cv = Converter::new(build_dataset()).unwrap();
    let first = cv.convert_str("가나다 abc 123 !@");
    let second = cv.convert_str("가나다 abc 123 !@");
    assert_eq!(first, second);
}
