use numgle::analyzer::get_coda_index;
use numgle::analyzer::get_nucleus_index;
use numgle::analyzer::get_number_index;
use numgle::analyzer::get_onset_index;
use numgle::analyzer::is_char_in_range;

const COMPLETE_HANGUL_RANGE: (u32, u32) = (44032, 55203);
const UPPER_RANGE: (u32, u32) = (65, 90);
const LOWER_RANGE: (u32, u32) = (97, 122);
const NUMBER_RANGE: (u32, u32) = (48, 57);
const TEST_HANGUL_CHARS: &str = "가나다라마바사힣힠힡힢힣";
const ALPHABET_CHARS: &str = "abcdefghijklmnopqrstuvwxyzABCDEFGHIJKLMNOPQRSTUVWXYZ";
const NUBMERS: &str = "1234567890";

#[test]
fn check_number_offset() {
    assert_eq!(get_number_index('1'), 0);
}

#[test]
fn test_onset() {
    assert_eq!(0, get_onset_index('가'));
    assert_eq!(get_onset_index('구'), get_onset_index('굴'));
    assert_eq!(get_onset_index('선'), get_onset_index('생'));
}

#[test]
fn test_nuclues() {
    assert_eq!(0, get_nucleus_index('각'));
    assert_eq!(get_coda_index('각'), get_coda_index('박'));
    assert_eq!(get_coda_index('중'), get_coda_index('궁'));
}

#[test]
fn test_coda() {
    assert_eq!(1, get_coda_index('각'));
    assert_eq!(get_coda_index('각'), get_coda_index('박'));
    assert_eq!(get_coda_index('힣'), get_coda_index('즇'));
}

#[test]
fn complete_hangul_in_range() {
    TEST_HANGUL_CHARS.chars().for_each(|c| {
        assert!(is_char_in_range(COMPLETE_HANGUL_RANGE, c));
    });
    ALPHABET_CHARS.chars().for_each(|c| {
        assert!(!is_char_in_range(COMPLETE_HANGUL_RANGE, c));
    });
}

#[test]
fn english_in_range() {
    ALPHABET_CHARS.chars().for_each(|c| {
        assert!(is_char_in_range(UPPER_RANGE, c) || is_char_in_range(LOWER_RANGE, c));
    });
}

#[test]
fn number_in_range() {
    NUBMERS.chars().for_each(|c| {
        assert!(is_char_in_range(NUMBER_RANGE, c));
    });
}
