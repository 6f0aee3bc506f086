use teanga_wasm::corpus::SimpleCorpus;
use teanga_wasm::tokenize::simple_tokenize;

#[test]
fn words_and_punctuation_get_spans() {
    assert_eq!(simple_tokenize("Hi, Bob!"), vec![(0, 2), (2, 3), (4, 7), (7, 8)]);
}

#[test]
fn tokenize_simple_renders_spans() {
    let c = SimpleCorpus::new();
    assert_eq!(c.tokenize_simple("Hi, Bob!"), "[[0,2],[2,3],[4,7],[7,8]]");
}

#[test]
fn empty_text_has_no_spans() {
    let c = SimpleCorpus::new();
    assert_eq!(simple_tokenize(""), Vec::<(u32, u32)>::new());
    assert_eq!(c.tokenize_simple(""), "[]");
}

#[test]
fn whitespace_only_has_no_spans() {
    assert_eq!(simple_tokenize(" \t\n "), Vec::<(u32, u32)>::new());
}

#[test]
fn digits_count_as_word_characters() {
    assert_eq!(simple_tokenize("a1 2"), vec![(0, 2), (3, 4)]);
}

#[test]
fn word_open_at_end_is_closed() {
    assert_eq!(simple_tokenize("abc"), vec![(0, 3)]);
}

#[test]
fn offsets_are_utf8_bytes() {
    // 'é' is two bytes in UTF-8, so the word span ends at byte 3 and the
    // exclamation mark covers bytes 3..4.
    assert_eq!(simple_tokenize("aé!"), vec![(0, 3), (3, 4)]);
}

#[test]
fn adjacent_punctuation_gets_single_spans() {
    assert_eq!(simple_tokenize("a,,b"), vec![(0, 1), (1, 2), (2, 3), (3, 4)]);
}
