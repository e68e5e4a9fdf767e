use fleet_query::text::{
    char_is_whitespace, chars_of, lines_of, pieces_of, text_eq, trim_span, trimmed, word_spans,
    words_of, Span,
};

fn words(text: &str) -> Vec<String> {
    words_of(text)
}

fn lines(text: &str) -> Vec<String> {
    lines_of(text)
}

fn pieces(text: &str) -> Vec<String> {
    pieces_of(text)
}

const SAMPLES: [&str; 12] = [
    "",
    " ",
    "a",
    "a b",
    "  lead and trail  ",
    "one\ntwo\r\nthree",
    "ends in feed\n",
    "\n\nblank lines\n\n\nwithin\n\n",
    "bare\rreturn\r",
    "tab\tand\u{a0}nbsp\u{2003}em\u{3000}wide\u{85}nel",
    "\u{fc}ml\u{e4}ut \u{1f600} \u{4e2d}\u{6587}\n\u{e9}",
    "\r\n\r\n",
];

#[test]
fn words_are_those_of_split_whitespace() {
    for text in SAMPLES {
        let expected: Vec<String> = text.split_whitespace().map(|w| w.to_string()).collect();
        assert_eq!(words(text), expected, "in {:?}", text);
    }
}

#[test]
fn lines_are_those_of_lines() {
    for text in SAMPLES {
        let expected: Vec<String> = text.lines().map(|l| l.to_string()).collect();
        assert_eq!(lines(text), expected, "in {:?}", text);
    }
}

#[test]
fn pieces_are_those_of_split_at_line_feeds() {
    for text in SAMPLES {
        let expected: Vec<String> = text.split('\n').map(|l| l.to_string()).collect();
        assert_eq!(pieces(text), expected, "in {:?}", text);
    }
}

#[test]
fn trimmed_text_is_that_of_trim() {
    for text in SAMPLES {
        assert_eq!(trimmed(text), text.trim(), "in {:?}", text);
    }
}

#[test]
fn whitespace_is_the_unicode_property() {
    for code in 0..=0x11_0000u32 {
        if let Some(c) = char::from_u32(code) {
            assert_eq!(char_is_whitespace(c), c.is_whitespace(), "for U+{:04X}", code);
        }
    }
}

#[test]
fn spans_count_characters_not_bytes() {
    let text = "\u{e4}\u{f6} \u{1f600}x";
    assert_eq!(
        word_spans(&chars_of(text)),
        vec![Span { start: 0, end: 2 }, Span { start: 3, end: 5 }]
    );
    assert_eq!(trim_span(&chars_of(" \u{e4}\u{1f600}  ")), Span { start: 1, end: 3 });
    assert_eq!(chars_of(text), vec!['\u{e4}', '\u{f6}', ' ', '\u{1f600}', 'x']);
}

#[test]
fn texts_are_equal_where_their_characters_are() {
    assert!(text_eq("", ""));
    assert!(text_eq("ip.route", "ip.route"));
    assert!(!text_eq("ip.route", "ip.rout"));
    assert!(!text_eq("ip.route", "ip.routE"));
    assert!(!text_eq("a", ""));
    assert!(text_eq("\u{1f600}", "\u{1f600}"));
}
