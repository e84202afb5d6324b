use book_lending::codec::{decode, encode, ENCODED_LEN, MIN_UUID};
use book_lending::library::Database;
use book_lending::utils::cmp_ignore_case_ascii;

#[test]
fn encode_gives_seven_symbols_most_significant_first() {
    assert_eq!(encode(0x0800_0000), "BAAAAAA");
    assert_eq!(encode(0x1234_5678), "CI2FM6A");
    assert_eq!(encode(0xFFFF_FFFF), "777777Y");
    assert_eq!(encode(0), "AAAAAAA");
    assert_eq!(encode(1), "AAAAAAI");
    assert_eq!(Database::encode_uuid(0x1234_5678), "CI2FM6A");
}

#[test]
fn encode_has_fixed_length_from_the_smallest_identifier_on() {
    assert_eq!(MIN_UUID, 1u32 << 27);
    assert_eq!(ENCODED_LEN, 7);
    for id in [MIN_UUID, MIN_UUID + 1, 0x8000_0000, 0xDEAD_BEEF, u32::MAX] {
        let text = encode(id);
        assert_eq!(text.len(), ENCODED_LEN);
        assert!(!text.contains('='));
    }
}

#[test]
fn decode_reads_back_what_encode_wrote() {
    let mut id: u32 = MIN_UUID;
    loop {
        assert_eq!(decode(&encode(id)), Some(id));
        match id.checked_add(0x00F1_2345) {
            Some(next) => id = next,
            None => break,
        }
    }
    assert_eq!(decode(&encode(u32::MAX)), Some(u32::MAX));
    assert_eq!(decode(&encode(0)), Some(0));
    assert_eq!(decode("CI2FM6A"), Some(0x1234_5678));
}

#[test]
fn decode_refuses_text_of_another_length() {
    assert_eq!(decode(""), None);
    assert_eq!(decode("A"), None);
    assert_eq!(decode("CI2FM6"), None);
    assert_eq!(decode("CI2FM6AA"), None);
    assert_eq!(decode("AAAAA"), None);
    assert_eq!(decode("AAAAAAAAAAAAAAAA"), None);
}

#[test]
fn decode_refuses_symbols_outside_the_alphabet() {
    assert_eq!(decode("ci2fm6a"), None);
    assert_eq!(decode("CI2FM6="), None);
    assert_eq!(decode("CI1FM6A"), None);
    assert_eq!(decode("CI2 M6A"), None);
    assert_eq!(decode("CI8FM6A"), None);
}

#[test]
fn decode_refuses_bits_after_the_thirty_second() {
    // The last symbol carries two bits of the identifier and three that must be zero.
    assert_eq!(decode("AAAAAAB"), None);
    assert_eq!(decode("AAAAAAH"), None);
    assert_eq!(decode("7777777"), None);
    assert_eq!(decode("AAAAAAI"), Some(1));
    assert_eq!(decode("AAAAAAQ"), Some(2));
    assert_eq!(decode("AAAAAAY"), Some(3));
}

#[test]
fn decode_refuses_text_that_is_not_ascii() {
    assert_eq!(decode("éAAAAA"), None);
    assert_eq!(decode("ééé"), None);
    assert_eq!(decode("AAAAAAé"), None);
}

#[test]
fn comparison_ignores_ascii_case() {
    assert!(cmp_ignore_case_ascii("Chess Basics", "chess basics"));
    assert!(cmp_ignore_case_ascii("A. Author", "a. author"));
    assert!(cmp_ignore_case_ascii("", ""));
    assert!(cmp_ignore_case_ascii("ZzAa09", "zZaA09"));
    assert!(!cmp_ignore_case_ascii("Chess Basics", "Chess Basic"));
    assert!(!cmp_ignore_case_ascii("Chess", "Chess Basics"));
    assert!(!cmp_ignore_case_ascii("abc", "abd"));
    assert!(!cmp_ignore_case_ascii("", "a"));
}

#[test]
fn comparison_is_literal_about_spaces() {
    assert!(cmp_ignore_case_ascii("A B", "a b"));
    assert!(!cmp_ignore_case_ascii("A  B", "A B"));
    assert!(!cmp_ignore_case_ascii("Chess  Basics", "Chess Basics"));
    assert!(!cmp_ignore_case_ascii("A B", "AxB"));
    assert!(!cmp_ignore_case_ascii(" AB", "AB "));
}

#[test]
fn comparison_folds_letters_only() {
    // '@' and '`', '[' and '{' differ by the same bit as 'A' and 'a'.
    assert!(!cmp_ignore_case_ascii("@", "`"));
    assert!(!cmp_ignore_case_ascii("[", "{"));
    assert!(!cmp_ignore_case_ascii("É", "é"));
    assert!(cmp_ignore_case_ascii("Éa", "ÉA"));
}
