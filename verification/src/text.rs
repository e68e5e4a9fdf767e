//! Text scanning over character sequences: whitespace, words, lines.
//!
//! Every specification here speaks of a string through its view, the
//! sequence of its characters. Positions are character positions.

use vstd::prelude::*;

verus! {

/// A half-open range of character positions, `start <= end`.
#[derive(Clone, Copy, Debug, PartialEq, Eq)]
pub struct Span {
    pub start: usize,
    pub end: usize,
}

impl Span {
    /// Whether the span lies inside a text of `len` characters.
    pub open spec fn within(self, len: nat) -> bool {
        self.start <= self.end <= len
    }

    /// The characters of `s` that the span covers.
    pub open spec fn of(self, s: Seq<char>) -> Seq<char> {
        s.subrange(self.start as int, self.end as int)
    }
}

/// The texts that `spans` cover in `s`, in order.
pub open spec fn span_texts(s: Seq<char>, spans: Seq<Span>) -> Seq<Seq<char>> {
    Seq::new(spans.len(), |k: int| spans[k].of(s))
}

/// Whether every span lies inside a text of `len` characters.
pub open spec fn spans_within(spans: Seq<Span>, len: nat) -> bool {
    forall|k: int| 0 <= k < spans.len() ==> (#[trigger] spans[k]).within(len)
}

/// Whether `c` has the Unicode property White_Space.
pub open spec fn is_whitespace(c: char) -> bool {
    let u = c as u32;
    ||| 0x09 <= u <= 0x0d
    ||| u == 0x20
    ||| u == 0x85
    ||| u == 0xa0
    ||| u == 0x1680
    ||| 0x2000 <= u <= 0x200a
    ||| u == 0x2028
    ||| u == 0x2029
    ||| u == 0x202f
    ||| u == 0x205f
    ||| u == 0x3000
}

/// Decides [`is_whitespace`].
pub fn char_is_whitespace(c: char) -> (b: bool)
    ensures
        b == is_whitespace(c),
{
    let u: u32 = c as u32;
    (0x09 <= u && u <= 0x0d) || u == 0x20 || u == 0x85 || u == 0xa0 || u == 0x1680 || (0x2000 <= u
        && u <= 0x200a) || u == 0x2028 || u == 0x2029 || u == 0x202f || u == 0x205f || u == 0x3000
}

/// The first position at or after `from` that holds no whitespace; the
/// length of `s` where only whitespace follows.
pub open spec fn blank_end(s: Seq<char>, from: int) -> int
    decreases s.len() - from,
{
    if 0 <= from < s.len() && is_whitespace(s[from]) {
        blank_end(s, from + 1)
    } else {
        from
    }
}

/// The first position at or after `from` that holds whitespace; the length
/// of `s` where none follows.
pub open spec fn word_end(s: Seq<char>, from: int) -> int
    decreases s.len() - from,
{
    if 0 <= from < s.len() && !is_whitespace(s[from]) {
        word_end(s, from + 1)
    } else {
        from
    }
}

/// The first position at or after `from` that holds a line feed; the length
/// of `s` where none follows.
pub open spec fn line_end(s: Seq<char>, from: int) -> int
    decreases s.len() - from,
{
    if 0 <= from < s.len() && s[from] != '\n' {
        line_end(s, from + 1)
    } else {
        from
    }
}

/// The position just after the last character before `to` that is no
/// whitespace; 0 where only whitespace precedes `to`.
pub open spec fn blank_start(s: Seq<char>, to: int) -> int
    decreases to,
{
    if 0 < to <= s.len() && is_whitespace(s[to - 1]) {
        blank_start(s, to - 1)
    } else {
        to
    }
}

/// The run of whitespace from `from` on ends inside `s`, holds whitespace
/// only, and is followed by none.
pub proof fn lemma_blank_end(s: Seq<char>, from: int)
    requires
        0 <= from <= s.len(),
    ensures
        from <= blank_end(s, from) <= s.len(),
        blank_end(s, from) < s.len() ==> !is_whitespace(s[blank_end(s, from)]),
        forall|i: int| from <= i < blank_end(s, from) ==> is_whitespace(#[trigger] s[i]),
    decreases s.len() - from,
{
    if from < s.len() && is_whitespace(s[from]) {
        lemma_blank_end(s, from + 1);
    }
}

/// The word from `from` on ends inside `s`, holds no whitespace, and is
/// followed by whitespace or by nothing.
pub proof fn lemma_word_end(s: Seq<char>, from: int)
    requires
        0 <= from <= s.len(),
    ensures
        from <= word_end(s, from) <= s.len(),
        word_end(s, from) < s.len() ==> is_whitespace(s[word_end(s, from)]),
        forall|i: int| from <= i < word_end(s, from) ==> !is_whitespace(#[trigger] s[i]),
    decreases s.len() - from,
{
    if from < s.len() && !is_whitespace(s[from]) {
        lemma_word_end(s, from + 1);
    }
}

/// The line from `from` on ends inside `s`, holds no line feed, and is
/// followed by a line feed or by nothing.
pub proof fn lemma_line_end(s: Seq<char>, from: int)
    requires
        0 <= from <= s.len(),
    ensures
        from <= line_end(s, from) <= s.len(),
        line_end(s, from) < s.len() ==> s[line_end(s, from)] == '\n',
        forall|i: int| from <= i < line_end(s, from) ==> #[trigger] s[i] != '\n',
    decreases s.len() - from,
{
    if from < s.len() && s[from] != '\n' {
        lemma_line_end(s, from + 1);
    }
}

/// The run of whitespace up to `to` starts inside `s`, holds whitespace
/// only, and is preceded by none.
pub proof fn lemma_blank_start(s: Seq<char>, to: int)
    requires
        0 <= to <= s.len(),
    ensures
        0 <= blank_start(s, to) <= to,
        blank_start(s, to) > 0 ==> !is_whitespace(s[blank_start(s, to) - 1]),
        forall|i: int| blank_start(s, to) <= i < to ==> is_whitespace(#[trigger] s[i]),
    decreases to,
{
    if 0 < to && is_whitespace(s[to - 1]) {
        lemma_blank_start(s, to - 1);
    }
}

/// Computes [`blank_end`].
pub(crate) fn skip_blank(chars: &Vec<char>, from: usize) -> (end: usize)
    requires
        from <= chars.len(),
    ensures
        end == blank_end(chars@, from as int),
        from <= end <= chars.len(),
{
    let mut i: usize = from;
    while i < chars.len() && char_is_whitespace(chars[i])
        invariant
            from <= i <= chars.len(),
            blank_end(chars@, from as int) == blank_end(chars@, i as int),
        decreases chars.len() - i,
    {
        i += 1;
    }
    i
}

/// Computes [`word_end`].
pub(crate) fn skip_word(chars: &Vec<char>, from: usize) -> (end: usize)
    requires
        from <= chars.len(),
    ensures
        end == word_end(chars@, from as int),
        from <= end <= chars.len(),
{
    let mut i: usize = from;
    while i < chars.len() && !char_is_whitespace(chars[i])
        invariant
            from <= i <= chars.len(),
            word_end(chars@, from as int) == word_end(chars@, i as int),
        decreases chars.len() - i,
    {
        i += 1;
    }
    i
}

/// Computes [`line_end`].
pub(crate) fn skip_line(chars: &Vec<char>, from: usize) -> (end: usize)
    requires
        from <= chars.len(),
    ensures
        end == line_end(chars@, from as int),
        from <= end <= chars.len(),
{
    let mut i: usize = from;
    while i < chars.len() && chars[i] != '\n'
        invariant
            from <= i <= chars.len(),
            line_end(chars@, from as int) == line_end(chars@, i as int),
        decreases chars.len() - i,
    {
        i += 1;
    }
    i
}

/// Computes [`blank_start`].
pub(crate) fn skip_blank_back(chars: &Vec<char>, to: usize) -> (start: usize)
    requires
        to <= chars.len(),
    ensures
        start == blank_start(chars@, to as int),
        start <= to,
{
    let mut i: usize = to;
    while i > 0 && char_is_whitespace(chars[i - 1])
        invariant
            i <= to <= chars.len(),
            blank_start(chars@, to as int) == blank_start(chars@, i as int),
        decreases i,
    {
        i -= 1;
    }
    i
}

/// The words of `s` from position `from` on: the maximal runs of characters
/// that are no whitespace, in order.
pub open spec fn words_from(s: Seq<char>, from: int) -> Seq<Seq<char>>
    decreases s.len() - from,
    via words_from_decreases
{
    let start = blank_end(s, from);
    if 0 <= from && start < s.len() {
        let end = word_end(s, start);
        seq![s.subrange(start, end)] + words_from(s, end)
    } else {
        Seq::empty()
    }
}

#[via_fn]
proof fn words_from_decreases(s: Seq<char>, from: int) {
    if 0 <= from <= s.len() {
        lemma_blank_end(s, from);
        let start = blank_end(s, from);
        if start < s.len() {
            lemma_word_end(s, start);
            assert(word_end(s, start) == word_end(s, start + 1));
            lemma_word_end(s, start + 1);
        }
    }
}

/// The words of `s`: what is left when `s` is cut at every run of
/// whitespace. None of them is empty.
pub open spec fn split_whitespace(s: Seq<char>) -> Seq<Seq<char>> {
    words_from(s, 0)
}

/// The end of a line that starts at `from` and whose line feed stands at
/// `end`: a carriage return just before the line feed is no part of it.
pub open spec fn line_content_end(s: Seq<char>, from: int, end: int) -> int {
    if from < end && s[end - 1] == '\r' {
        end - 1
    } else {
        end
    }
}

/// The lines of `s` from position `from` on. A line ends at a line feed or
/// at the end of the text; the line feed, and a carriage return before it,
/// are no part of the line. A text that ends in a line feed has no empty
/// last line.
pub open spec fn lines_from(s: Seq<char>, from: int) -> Seq<Seq<char>>
    decreases s.len() - from,
    via lines_from_decreases
{
    if 0 <= from < s.len() {
        let end = line_end(s, from);
        if end < s.len() {
            seq![s.subrange(from, line_content_end(s, from, end))] + lines_from(s, end + 1)
        } else {
            seq![s.subrange(from, end)]
        }
    } else {
        Seq::empty()
    }
}

#[via_fn]
proof fn lines_from_decreases(s: Seq<char>, from: int) {
    if 0 <= from < s.len() {
        lemma_line_end(s, from);
    }
}

/// The lines of `s`.
pub open spec fn lines(s: Seq<char>) -> Seq<Seq<char>> {
    lines_from(s, 0)
}

/// The pieces of `s` from position `from` on, when `s` is cut at every line
/// feed. There is one piece more than there are line feeds; a piece may be
/// empty.
pub open spec fn pieces_from(s: Seq<char>, from: int) -> Seq<Seq<char>>
    decreases s.len() - from,
    via pieces_from_decreases
{
    let end = line_end(s, from);
    if 0 <= from && end < s.len() {
        seq![s.subrange(from, end)] + pieces_from(s, end + 1)
    } else {
        seq![s.subrange(from, end)]
    }
}

#[via_fn]
proof fn pieces_from_decreases(s: Seq<char>, from: int) {
    if 0 <= from <= s.len() {
        lemma_line_end(s, from);
    }
}

/// The pieces of `s` when it is cut at every line feed.
pub open spec fn split_newline(s: Seq<char>) -> Seq<Seq<char>> {
    pieces_from(s, 0)
}

/// `s` without the whitespace at its start and at its end.
pub open spec fn trim(s: Seq<char>) -> Seq<char> {
    let start = blank_end(s, 0);
    let end = blank_start(s, s.len() as int);
    if start <= end {
        s.subrange(start, end)
    } else {
        Seq::empty()
    }
}

/// One span more covers one text more.
pub proof fn lemma_span_texts_push(s: Seq<char>, spans: Seq<Span>, span: Span)
    ensures
        span_texts(s, spans.push(span)) == span_texts(s, spans).push(span.of(s)),
{
    assert(span_texts(s, spans.push(span)) =~= span_texts(s, spans).push(span.of(s)));
}

/// Where the words of `chars` stand. See [`split_whitespace`].
pub fn word_spans(chars: &Vec<char>) -> (spans: Vec<Span>)
    ensures
        spans_within(spans@, chars@.len()),
        span_texts(chars@, spans@) == split_whitespace(chars@),
{
    let mut spans: Vec<Span> = Vec::new();
    let ghost mut at: int = 0;
    let mut start: usize = skip_blank(chars, 0);
    assert(span_texts(chars@, spans@) + words_from(chars@, at) =~= split_whitespace(chars@));
    while start < chars.len()
        invariant
            0 <= at <= start <= chars.len(),
            start == blank_end(chars@, at),
            spans_within(spans@, chars@.len()),
            span_texts(chars@, spans@) + words_from(chars@, at) == split_whitespace(chars@),
        decreases chars.len() - start,
    {
        let end = skip_word(chars, start);
        let span = Span { start, end };
        proof {
            lemma_blank_end(chars@, at);
            lemma_word_end(chars@, start as int);
            assert(word_end(chars@, start as int) == word_end(chars@, start + 1));
            lemma_word_end(chars@, start + 1);
            lemma_span_texts_push(chars@, spans@, span);
            assert(words_from(chars@, at) == seq![span.of(chars@)] + words_from(
                chars@,
                end as int,
            ));
            assert(span_texts(chars@, spans@).push(span.of(chars@)) + words_from(chars@, end as int)
                =~= span_texts(chars@, spans@) + words_from(chars@, at));
            at = end as int;
        }
        spans.push(span);
        start = skip_blank(chars, end);
    }
    proof {
        assert(words_from(chars@, at) =~= Seq::<Seq<char>>::empty());
        assert(span_texts(chars@, spans@) + words_from(chars@, at) =~= span_texts(chars@, spans@));
    }
    spans
}

/// Where the lines of `chars` stand. See [`lines`].
pub fn line_spans(chars: &Vec<char>) -> (spans: Vec<Span>)
    ensures
        spans_within(spans@, chars@.len()),
        span_texts(chars@, spans@) == lines(chars@),
{
    let mut spans: Vec<Span> = Vec::new();
    let mut from: usize = 0;
    assert(span_texts(chars@, spans@) + lines_from(chars@, 0) =~= lines(chars@));
    while from < chars.len()
        invariant
            from <= chars.len(),
            spans_within(spans@, chars@.len()),
            span_texts(chars@, spans@) + lines_from(chars@, from as int) == lines(chars@),
        decreases chars.len() - from,
    {
        let end = skip_line(chars, from);
        let stop: usize = if end < chars.len() && from < end && chars[end - 1] == '\r' {
            end - 1
        } else {
            end
        };
        let span = Span { start: from, end: stop };
        let next: usize = if end < chars.len() {
            end + 1
        } else {
            end
        };
        proof {
            lemma_line_end(chars@, from as int);
            lemma_span_texts_push(chars@, spans@, span);
            if end < chars.len() {
                assert(lines_from(chars@, from as int) == seq![span.of(chars@)] + lines_from(
                    chars@,
                    next as int,
                ));
            } else {
                assert(lines_from(chars@, next as int) =~= Seq::<Seq<char>>::empty());
                assert(lines_from(chars@, from as int) =~= seq![span.of(chars@)] + lines_from(
                    chars@,
                    next as int,
                ));
            }
            assert(span_texts(chars@, spans@).push(span.of(chars@)) + lines_from(
                chars@,
                next as int,
            ) =~= span_texts(chars@, spans@) + lines_from(chars@, from as int));
        }
        spans.push(span);
        from = next;
    }
    proof {
        assert(lines_from(chars@, from as int) =~= Seq::<Seq<char>>::empty());
        assert(span_texts(chars@, spans@) + lines_from(chars@, from as int) =~= span_texts(
            chars@,
            spans@,
        ));
    }
    spans
}

/// Where the pieces of `chars` stand. See [`split_newline`].
pub fn piece_spans(chars: &Vec<char>) -> (spans: Vec<Span>)
    ensures
        spans_within(spans@, chars@.len()),
        span_texts(chars@, spans@) == split_newline(chars@),
{
    let mut spans: Vec<Span> = Vec::new();
    let mut from: usize = 0;
    let mut end: usize = skip_line(chars, 0);
    assert(span_texts(chars@, spans@) + pieces_from(chars@, 0) =~= split_newline(chars@));
    while end < chars.len()
        invariant
            from <= end <= chars.len(),
            end == line_end(chars@, from as int),
            spans_within(spans@, chars@.len()),
            span_texts(chars@, spans@) + pieces_from(chars@, from as int) == split_newline(chars@),
        decreases chars.len() - end,
    {
        let span = Span { start: from, end };
        proof {
            lemma_span_texts_push(chars@, spans@, span);
            assert(span_texts(chars@, spans@).push(span.of(chars@)) + pieces_from(chars@, end + 1)
                =~= span_texts(chars@, spans@) + pieces_from(chars@, from as int));
        }
        spans.push(span);
        from = end + 1;
        end = skip_line(chars, from);
    }
    let span = Span { start: from, end };
    proof {
        lemma_span_texts_push(chars@, spans@, span);
        assert(span_texts(chars@, spans@).push(span.of(chars@)) =~= span_texts(chars@, spans@)
            + pieces_from(chars@, from as int));
    }
    spans.push(span);
    spans
}

/// Where `chars` stands without the whitespace at its start and end. See
/// [`trim`].
pub fn trim_span(chars: &Vec<char>) -> (span: Span)
    ensures
        span.within(chars@.len()),
        span.of(chars@) == trim(chars@),
{
    let start = skip_blank(chars, 0);
    let end = skip_blank_back(chars, chars.len());
    if start <= end {
        Span { start, end }
    } else {
        let span = Span { start, end: start };
        assert(span.of(chars@) =~= Seq::<char>::empty());
        span
    }
}

/// The characters of `s`, in order.
pub fn chars_of(s: &str) -> (v: Vec<char>)
    ensures
        v@ == s@,
{
    let mut v: Vec<char> = Vec::new();
    let chars = s.chars();
    for c in it: chars
        invariant
            it.seq() == s@,
            v@ == s@.take(it.index()),
    {
        v.push(c);
    }
    v
}

/// The part of `s` that `span` covers, as a string of its own.
fn slice_text(s: &str, span: Span) -> (t: String)
    requires
        span.within(s@.len()),
    ensures
        t@ == span.of(s@),
{
    s.substring_char(span.start, span.end).to_owned()
}

/// Whether two strings hold the same characters.
pub fn text_eq(a: &str, b: &str) -> (same: bool)
    ensures
        same == (a@ == b@),
{
    let x = chars_of(a);
    let y = chars_of(b);
    if x.len() != y.len() {
        return false;
    }
    let mut i: usize = 0;
    while i < x.len()
        invariant
            x@ == a@,
            y@ == b@,
            x.len() == y.len(),
            i <= x.len(),
            x@.take(i as int) == y@.take(i as int),
        decreases x.len() - i,
    {
        if x[i] != y[i] {
            return false;
        }
        assert(x@.take(i + 1) == x@.take(i as int).push(x@[i as int]));
        assert(y@.take(i + 1) == y@.take(i as int).push(y@[i as int]));
        i += 1;
    }
    assert(x@ == x@.take(x.len() as int));
    assert(y@ == y@.take(y.len() as int));
    true
}

/// The lower-case hexadecimal digit for `d`, `d < 16`.
pub open spec fn hex_digit(d: int) -> char {
    if d == 0 {
        '0'
    } else if d == 1 {
        '1'
    } else if d == 2 {
        '2'
    } else if d == 3 {
        '3'
    } else if d == 4 {
        '4'
    } else if d == 5 {
        '5'
    } else if d == 6 {
        '6'
    } else if d == 7 {
        '7'
    } else if d == 8 {
        '8'
    } else if d == 9 {
        '9'
    } else if d == 10 {
        'a'
    } else if d == 11 {
        'b'
    } else if d == 12 {
        'c'
    } else if d == 13 {
        'd'
    } else if d == 14 {
        'e'
    } else {
        'f'
    }
}

/// The text of [`hex_digit`].
pub(crate) fn hex_digit_text(d: u32) -> (t: &'static str)
    requires
        d < 16,
    ensures
        t@ == seq![hex_digit(d as int)],
{
    proof {
        reveal_strlit("0");
        reveal_strlit("1");
        reveal_strlit("2");
        reveal_strlit("3");
        reveal_strlit("4");
        reveal_strlit("5");
        reveal_strlit("6");
        reveal_strlit("7");
        reveal_strlit("8");
        reveal_strlit("9");
        reveal_strlit("a");
        reveal_strlit("b");
        reveal_strlit("c");
        reveal_strlit("d");
        reveal_strlit("e");
        reveal_strlit("f");
    }
    let t = if d == 0 {
        "0"
    } else if d == 1 {
        "1"
    } else if d == 2 {
        "2"
    } else if d == 3 {
        "3"
    } else if d == 4 {
        "4"
    } else if d == 5 {
        "5"
    } else if d == 6 {
        "6"
    } else if d == 7 {
        "7"
    } else if d == 8 {
        "8"
    } else if d == 9 {
        "9"
    } else if d == 10 {
        "a"
    } else if d == 11 {
        "b"
    } else if d == 12 {
        "c"
    } else if d == 13 {
        "d"
    } else if d == 14 {
        "e"
    } else {
        "f"
    };
    assert(t@ =~= seq![hex_digit(d as int)]);
    t
}

/// The texts that `spans` cover in `text`, each as a string of its own.
fn cut(text: &str, spans: &Vec<Span>) -> (parts: Vec<String>)
    requires
        spans_within(spans@, text@.len()),
    ensures
        parts.deep_view() == span_texts(text@, spans@),
{
    let mut parts: Vec<String> = Vec::new();
    let mut i: usize = 0;
    while i < spans.len()
        invariant
            i <= spans.len(),
            spans_within(spans@, text@.len()),
            parts@.len() == i,
            forall|k: int| 0 <= k < i ==> (#[trigger] parts@[k])@ == spans@[k].of(text@),
        decreases spans.len() - i,
    {
        assert(spans@[i as int].within(text@.len()));
        parts.push(slice_text(text, spans[i]));
        i += 1;
    }
    assert(parts.deep_view() =~= span_texts(text@, spans@));
    parts
}

/// The words of `text`. See [`split_whitespace`].
pub fn words_of(text: &str) -> (words: Vec<String>)
    ensures
        words.deep_view() == split_whitespace(text@),
{
    let chars = chars_of(text);
    let spans = word_spans(&chars);
    cut(text, &spans)
}

/// The lines of `text`. See [`lines`].
pub fn lines_of(text: &str) -> (all: Vec<String>)
    ensures
        all.deep_view() == lines(text@),
{
    let chars = chars_of(text);
    let spans = line_spans(&chars);
    cut(text, &spans)
}

/// The pieces of `text` between its line feeds. See [`split_newline`].
pub fn pieces_of(text: &str) -> (pieces: Vec<String>)
    ensures
        pieces.deep_view() == split_newline(text@),
{
    let chars = chars_of(text);
    let spans = piece_spans(&chars);
    cut(text, &spans)
}

/// `text` without the whitespace at its start and end. See [`trim`].
pub fn trimmed(text: &str) -> (inner: String)
    ensures
        inner@ == trim(text@),
{
    let chars = chars_of(text);
    slice_text(text, trim_span(&chars))
}

/// What `trim` takes away is whitespace, and what it leaves neither starts
/// nor ends with whitespace: `s` is a run of whitespace, then `trim(s)`,
/// then a run of whitespace.
pub proof fn law_trim_takes_the_blank_ends(s: Seq<char>)
    ensures
        trim(s).len() > 0 ==> !is_whitespace(trim(s)[0]) && !is_whitespace(trim(s).last()),
        exists|start: int, end: int|
            0 <= start <= end <= s.len() && #[trigger] s.subrange(start, end) == trim(s) && (forall|
                i: int,
            |
                0 <= i < start ==> is_whitespace(#[trigger] s[i])) && (forall|i: int|
                end <= i < s.len() ==> is_whitespace(#[trigger] s[i])),
{
    let start = blank_end(s, 0);
    let end = blank_start(s, s.len() as int);
    lemma_blank_end(s, 0);
    lemma_blank_start(s, s.len() as int);
    if start <= end {
        if start < end {
            assert(trim(s)[0] == s[start]);
            assert(trim(s).last() == s[end - 1]);
        }
        assert(s.subrange(start, end) == trim(s));
    } else {
        assert(s.subrange(start, start) =~= trim(s));
        assert forall|i: int| start <= i < s.len() implies is_whitespace(#[trigger] s[i]) by {
            if start < s.len() {
                // a character that is no whitespace stands at `start`, so the
                // whitespace at the end cannot reach back past it
                assert(end > start);
            }
        }
    }
}

/// Every word has a character, and none of its characters is whitespace.
pub proof fn law_words_hold_no_whitespace(s: Seq<char>, from: int)
    requires
        0 <= from <= s.len(),
    ensures
        forall|k: int|
            0 <= k < words_from(s, from).len() ==> (#[trigger] words_from(s, from)[k]).len() > 0,
        forall|k: int, i: int|
            0 <= k < words_from(s, from).len() && 0 <= i < words_from(s, from)[k].len()
                ==> !is_whitespace(#[trigger] words_from(s, from)[k][i]),
    decreases s.len() - from,
{
    lemma_blank_end(s, from);
    let start = blank_end(s, from);
    if start < s.len() {
        lemma_word_end(s, start);
        let end = word_end(s, start);
        assert(word_end(s, start) == word_end(s, start + 1));
        lemma_word_end(s, start + 1);
        law_words_hold_no_whitespace(s, end);
        let word = s.subrange(start, end);
        let rest = words_from(s, end);
        let all = words_from(s, from);
        assert(all == seq![word] + rest);
        assert forall|k: int| 0 <= k < all.len() implies (#[trigger] all[k]).len() > 0 by {
            if k > 0 {
                assert(all[k] == rest[k - 1]);
            }
        }
        assert forall|k: int, i: int|
            0 <= k < all.len() && 0 <= i < all[k].len() implies !is_whitespace(
            #[trigger] all[k][i],
        ) by {
            if k > 0 {
                assert(all[k] == rest[k - 1]);
            } else {
                assert(all[0][i] == s[start + i]);
            }
        }
    }
}

} // verus!
