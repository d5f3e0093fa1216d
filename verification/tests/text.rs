use anor_storage::text::chars_of;
use anor_storage::text::string_of;
use anor_storage::text::to_ascii_lowercase;
use anor_storage::text::to_ascii_lowercase_char;

#[test]
fn characters_of_a_text_and_back() {
    assert_eq!(chars_of(""), Vec::<char>::new());
    assert_eq!(chars_of("aß€"), vec!['a', 'ß', '€']);
    assert_eq!(string_of(&vec![]), "");
    assert_eq!(string_of(&vec!['a', 'ß', '€']), "aß€");
    let text = "The quick brown fox — 速い茶色のキツネ";
    assert_eq!(string_of(&chars_of(text)), text);
}

#[test]
fn ascii_capitals_become_lower_case() {
    assert_eq!(to_ascii_lowercase_char('A'), 'a');
    assert_eq!(to_ascii_lowercase_char('Z'), 'z');
    assert_eq!(to_ascii_lowercase_char('m'), 'm');
    assert_eq!(to_ascii_lowercase_char('@'), '@');
    assert_eq!(to_ascii_lowercase_char('['), '[');
    assert_eq!(to_ascii_lowercase_char('Ä'), 'Ä');
    assert_eq!(
        to_ascii_lowercase("67E55044-10B1-426F-9247-BB680E5FE0C8"),
        "67e55044-10b1-426f-9247-bb680e5fe0c8"
    );
    assert_eq!(to_ascii_lowercase("GrÜße"), "grÜße");
    assert_eq!(to_ascii_lowercase(""), "");
}

#[test]
fn lower_case_as_the_standard_library_does() {
    for code in 0..0x800u32 {
        if let Some(c) = char::from_u32(code) {
            assert_eq!(to_ascii_lowercase_char(c), c.to_ascii_lowercase());
        }
    }
    let text: String = (0x20..0x250u32).filter_map(char::from_u32).collect();
    assert_eq!(to_ascii_lowercase(&text), text.to_ascii_lowercase());
}
