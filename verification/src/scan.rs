//! How far the parser gets in a text. It stops at the full stop of the first term, at an error or
//! at the end of the text; only a character that begins no token keeps it where it is for ever.
use vstd::prelude::*;

verus! {

/// A class of characters.
#[derive(Clone, Copy, Debug, PartialEq, Eq, Structural)]
pub enum Class {
    Binary,
    Octal,
    Digit,
    Hex,
    /// What a name or a variable is made of.
    Word,
    /// What a name of signs is made of.
    Graphic,
    Layout,
    /// What a comment up to the end of its line is made of.
    Line,
    Quote,
    /// What stands for itself in quotes.
    Plain,
    /// What stands for a control character behind a backslash.
    Control,
    /// What a token, a comment or layout can begin with.
    Prolog,
}

/// Whether a character is of a class.
pub open spec fn is_in(c: char, class: Class) -> bool {
    match class {
        Class::Binary => '0' <= c <= '1',
        Class::Octal => '0' <= c <= '7',
        Class::Digit => '0' <= c <= '9',
        Class::Hex => '0' <= c <= '9' || 'A' <= c <= 'F' || 'a' <= c <= 'f',
        Class::Word => '0' <= c <= '9' || 'A' <= c <= 'Z' || 'a' <= c <= 'z' || c == '_',
        Class::Graphic => c == '#' || c == '$' || c == '&' || c == '*' || c == '+' || c == '-' || c
            == '.' || c == '/' || c == ':' || '<' <= c <= '@' || c == '^' || c == '~' || c == '\\',
        Class::Layout => c == ' ' || '\t' <= c <= '\u{0c}',
        Class::Line => c != '\n',
        Class::Quote => c == '\'' || c == '"' || c == '`',
        Class::Plain => ' ' <= c <= '~' && c != '\\' && c != '\'' && c != '"' && c != '`',
        Class::Control => c == 'a' || c == 'b' || c == 'f' || c == 'n' || c == 'r' || c == 't'
            || c == 'v',
        Class::Prolog => ' ' <= c <= '~' || '\t' <= c <= '\u{0c}',
    }
}

/// Whether a character is of a class.
pub fn is_char_in(c: char, class: Class) -> (r: bool)
    ensures
        r == is_in(c, class),
{
    match class {
        Class::Binary => '0' <= c && c <= '1',
        Class::Octal => '0' <= c && c <= '7',
        Class::Digit => '0' <= c && c <= '9',
        Class::Hex => '0' <= c && c <= '9' || 'A' <= c && c <= 'F' || 'a' <= c && c <= 'f',
        Class::Word => '0' <= c && c <= '9' || 'A' <= c && c <= 'Z' || 'a' <= c && c <= 'z'
            || c == '_',
        Class::Graphic => c == '#' || c == '$' || c == '&' || c == '*' || c == '+' || c == '-' || c
            == '.' || c == '/' || c == ':' || '<' <= c && c <= '@' || c == '^' || c == '~' || c
            == '\\',
        Class::Layout => c == ' ' || '\t' <= c && c <= '\u{0c}',
        Class::Line => c != '\n',
        Class::Quote => c == '\'' || c == '"' || c == '`',
        Class::Plain => ' ' <= c && c <= '~' && c != '\\' && c != '\'' && c != '"' && c != '`',
        Class::Control => c == 'a' || c == 'b' || c == 'f' || c == 'n' || c == 'r' || c == 't'
            || c == 'v',
        Class::Prolog => ' ' <= c && c <= '~' || '\t' <= c && c <= '\u{0c}',
    }
}

/// Whether `c` stands at `i`.
pub open spec fn has(text: Seq<u8>, i: int, c: char) -> bool {
    0 <= i < text.len() && text[i] as char == c
}

/// Whether a character of a class stands at `i`.
pub open spec fn has_in(text: Seq<u8>, i: int, class: Class) -> bool {
    0 <= i < text.len() && is_in(text[i] as char, class)
}

/// Where the characters of a class that begin at `i` end.
pub open spec fn run_end(text: Seq<u8>, i: int, class: Class) -> int
    decreases text.len() - i,
{
    if has_in(text, i, class) {
        run_end(text, i + 1, class)
    } else {
        i
    }
}

proof fn lemma_run_end(text: Seq<u8>, i: int, class: Class)
    requires
        0 <= i <= text.len(),
    ensures
        i <= run_end(text, i, class) <= text.len(),
        has_in(text, i, class) ==> i < run_end(text, i, class),
    decreases text.len() - i,
{
    if has_in(text, i, class) {
        lemma_run_end(text, i + 1, class);
    }
}

/// What follows an escape sequence whose backslash stands in front of `i`; none where it is no
/// escape sequence.
pub open spec fn escape_end(text: Seq<u8>, i: int) -> Option<int> {
    if has_in(text, i, Class::Quote) || has(text, i, '\\') || has_in(text, i, Class::Control) {
        Some(i + 1)
    } else if has_in(text, i, Class::Octal) {
        let end = run_end(text, i, Class::Octal);
        if has(text, end, '\\') {
            Some(end + 1)
        } else {
            None
        }
    } else if has(text, i, 'x') {
        let end = run_end(text, i + 1, Class::Hex);
        if has(text, end, '\\') {
            Some(end + 1)
        } else {
            None
        }
    } else {
        None
    }
}

/// What follows the one character that begins at `i` in quotes of the kind `quote`; none where no
/// such character begins.
pub open spec fn quoted_char_end(text: Seq<u8>, i: int, quote: char) -> Option<int> {
    if has(text, i, quote) {
        if has(text, i + 1, quote) {
            Some(i + 2)
        } else {
            None
        }
    } else if has_in(text, i, Class::Quote) || has_in(text, i, Class::Plain) {
        Some(i + 1)
    } else if has(text, i, '\\') {
        escape_end(text, i + 1)
    } else {
        None
    }
}

/// A character in quotes ends behind where it begins, and not behind the end.
pub proof fn lemma_quoted_char_end(text: Seq<u8>, i: int, quote: char)
    requires
        0 <= i < text.len(),
    ensures
        quoted_char_end(text, i, quote) matches Some(end) ==> i < end <= text.len(),
{
    lemma_run_end(text, i + 1, Class::Octal);
    if i + 2 <= text.len() {
        lemma_run_end(text, i + 2, Class::Hex);
    }
}

/// What follows the closing quote, from `i` on inside of it; none where the parser stops.
pub open spec fn quoted_end(text: Seq<u8>, i: int, quote: char) -> Option<int>
    decreases text.len() - i,
{
    if !(0 <= i < text.len()) {
        None
    } else if has(text, i, '\\') && has(text, i + 1, '\n') {
        quoted_end(text, i + 2, quote)
    } else {
        proof {
            lemma_quoted_char_end(text, i, quote);
        }
        match quoted_char_end(text, i, quote) {
            Some(end) => quoted_end(text, end, quote),
            None => if has(text, i, quote) {
                Some(i + 1)
            } else {
                None
            },
        }
    }
}

/// Where the parser goes on after a back quote, from `i` on behind it; none where it stops. It
/// takes no text in back quotes: it stops at the closing one, and goes on at what cannot stand
/// between them.
pub open spec fn back_quoted_end(text: Seq<u8>, i: int) -> Option<int>
    decreases text.len() - i,
{
    if !(0 <= i < text.len()) {
        None
    } else if has(text, i, '`') {
        if has(text, i + 1, '`') {
            back_quoted_end(text, i + 2)
        } else {
            None
        }
    } else if has(text, i, '\\') && has(text, i + 1, '\n') {
        back_quoted_end(text, i + 2)
    } else if has(text, i, '\'') || has_in(text, i, Class::Plain) {
        back_quoted_end(text, i + 1)
    } else {
        Some(i)
    }
}

/// What follows a comment in brackets, from `i` on inside of it; none where the parser stops.
pub open spec fn comment_end(text: Seq<u8>, i: int) -> Option<int>
    decreases text.len() - i,
{
    if !has_in(text, i, Class::Prolog) {
        None
    } else if has(text, i, '*') && has(text, i + 1, '/') {
        Some(i + 2)
    } else {
        comment_end(text, i + 1)
    }
}

/// What follows a number in a base other than ten, whose digits begin at `i`; none where there is
/// no digit.
pub open spec fn based_end(text: Seq<u8>, i: int, class: Class) -> Option<int> {
    if has_in(text, i, class) {
        Some(run_end(text, i, class))
    } else {
        None
    }
}

/// What follows the fraction of a number, whose digits begin at `i`, and its exponent, if it has
/// one; none where the exponent has no digit.
pub open spec fn fraction_end(text: Seq<u8>, i: int) -> Option<int> {
    let end = run_end(text, i, Class::Digit);
    if has(text, end, 'e') || has(text, end, 'E') {
        let signed = has(text, end + 1, '+') || has(text, end + 1, '-');
        based_end(
            text,
            if signed {
                end + 2
            } else {
                end + 1
            },
            Class::Digit,
        )
    } else {
        Some(end)
    }
}

/// What follows the number that begins at `i`; none where the parser stops.
pub open spec fn number_end(text: Seq<u8>, i: int) -> Option<int> {
    let end = run_end(text, i, Class::Digit);
    let zero = has(text, i, '0') && end == i + 1;
    if has(text, end, '.') && has_in(text, end + 1, Class::Digit) {
        fraction_end(text, end + 1)
    } else if zero && has(text, end, 'x') {
        based_end(text, end + 1, Class::Hex)
    } else if zero && has(text, end, 'o') {
        based_end(text, end + 1, Class::Octal)
    } else if zero && has(text, end, 'b') {
        based_end(text, end + 1, Class::Binary)
    } else if zero && has(text, end, '\'') {
        quoted_char_end(text, end + 1, '\'')
    } else {
        Some(end)
    }
}

/// A full stop: what ends a term.
pub open spec fn is_full_stop(text: Seq<u8>, i: int) -> bool {
    has(text, i, '.') && (i + 1 >= text.len() || has_in(text, i + 1, Class::Layout) || has(
        text,
        i + 1,
        '%',
    ))
}

/// Where the parser goes on after the token, the comment or the layout that begins at `i`; none
/// where it stops.
pub open spec fn token_end(text: Seq<u8>, i: int) -> Option<int> {
    if is_full_stop(text, i) {
        None
    } else if has(text, i, '%') {
        let end = run_end(text, i, Class::Line);
        if end < text.len() {
            Some(end + 1)
        } else {
            None
        }
    } else if has(text, i, '/') && has(text, i + 1, '*') {
        comment_end(text, i + 2)
    } else if has(text, i, '\'') || has(text, i, '"') {
        quoted_end(text, i + 1, text[i] as char)
    } else if has(text, i, '`') {
        back_quoted_end(text, i + 1)
    } else if has_in(text, i, Class::Digit) {
        number_end(text, i)
    } else if has_in(text, i, Class::Word) {
        Some(run_end(text, i, Class::Word))
    } else if has_in(text, i, Class::Graphic) {
        Some(run_end(text, i, Class::Graphic))
    } else {
        Some(i + 1)
    }
}

proof fn lemma_quoted_end(text: Seq<u8>, i: int, quote: char)
    ensures
        quoted_end(text, i, quote) matches Some(end) ==> i < end <= text.len(),
    decreases text.len() - i,
{
    if 0 <= i < text.len() {
        lemma_quoted_char_end(text, i, quote);
        if has(text, i, '\\') && has(text, i + 1, '\n') {
            lemma_quoted_end(text, i + 2, quote);
        } else if let Some(end) = quoted_char_end(text, i, quote) {
            lemma_quoted_end(text, end, quote);
        }
    }
}

proof fn lemma_back_quoted_end(text: Seq<u8>, i: int)
    ensures
        back_quoted_end(text, i) matches Some(end) ==> i <= end <= text.len(),
    decreases text.len() - i,
{
    if 0 <= i < text.len() {
        lemma_back_quoted_end(text, i + 1);
        if i + 1 < text.len() {
            lemma_back_quoted_end(text, i + 2);
        }
    }
}

proof fn lemma_comment_end(text: Seq<u8>, i: int)
    ensures
        comment_end(text, i) matches Some(end) ==> i < end <= text.len(),
    decreases text.len() - i,
{
    if has_in(text, i, Class::Prolog) {
        lemma_comment_end(text, i + 1);
    }
}

proof fn lemma_based_end(text: Seq<u8>, i: int, class: Class)
    ensures
        based_end(text, i, class) matches Some(end) ==> i < end <= text.len(),
{
    if has_in(text, i, class) {
        lemma_run_end(text, i, class);
    }
}

proof fn lemma_number_end(text: Seq<u8>, i: int)
    requires
        has_in(text, i, Class::Digit),
    ensures
        number_end(text, i) matches Some(end) ==> i < end <= text.len(),
{
    lemma_run_end(text, i, Class::Digit);
    let end = run_end(text, i, Class::Digit);
    if end + 1 <= text.len() {
        lemma_run_end(text, end + 1, Class::Digit);
        let fraction = run_end(text, end + 1, Class::Digit);
        lemma_based_end(text, fraction + 1, Class::Digit);
        lemma_based_end(text, fraction + 2, Class::Digit);
    }
    lemma_based_end(text, end + 1, Class::Hex);
    lemma_based_end(text, end + 1, Class::Octal);
    lemma_based_end(text, end + 1, Class::Binary);
    if end + 1 < text.len() {
        lemma_quoted_char_end(text, end + 1, '\'');
    }
}

/// The parser goes on behind where it was, and not behind the end.
pub proof fn lemma_token_end(text: Seq<u8>, i: int)
    requires
        0 <= i < text.len(),
    ensures
        token_end(text, i) matches Some(end) ==> i < end <= text.len(),
{
    lemma_run_end(text, i, Class::Line);
    lemma_run_end(text, i, Class::Word);
    lemma_run_end(text, i, Class::Graphic);
    lemma_comment_end(text, i + 2);
    lemma_quoted_end(text, i + 1, text[i] as char);
    lemma_back_quoted_end(text, i + 1);
    if has_in(text, i, Class::Digit) {
        lemma_number_end(text, i);
    }
}

/// Whether the parser comes to a stop, from `i` on: every token that it gets to begins with a
/// character of Prolog. What stands in a comment, what stands in quotes and what follows the full
/// stop begins no token. It stops also at tokens that cannot make up a term and at an escape
/// sequence for a character that is out of range; neither is counted on here.
pub open spec fn stops(text: Seq<u8>, i: int) -> bool
    decreases text.len() - i,
{
    if !(0 <= i < text.len()) {
        true
    } else if !is_in(text[i] as char, Class::Prolog) {
        false
    } else {
        proof {
            lemma_token_end(text, i);
        }
        match token_end(text, i) {
            Some(end) => stops(text, end),
            None => true,
        }
    }
}

/// In a text that is written in the characters of Prolog the parser comes to a stop.
pub proof fn law_prolog_text_stops(text: Seq<u8>, i: int)
    requires
        forall|j: int| 0 <= j < text.len() ==> is_in(#[trigger] text[j] as char, Class::Prolog),
    ensures
        stops(text, i),
    decreases text.len() - i,
{
    if 0 <= i < text.len() {
        lemma_token_end(text, i);
        if let Some(end) = token_end(text, i) {
            law_prolog_text_stops(text, end);
        }
    }
}

/// Where characters of a class in a row end.
pub proof fn law_run(text: Seq<u8>, i: int, j: int, class: Class)
    requires
        0 <= i <= j <= text.len(),
        forall|k: int| i <= k < j ==> is_in(#[trigger] text[k] as char, class),
        j < text.len() ==> !is_in(text[j] as char, class),
    ensures
        run_end(text, i, class) == j,
    decreases j - i,
{
    if i < j {
        law_run(text, i + 1, j, class);
    }
}

/// A character of Prolog is layout, part of a word or of a name of signs, a quote, `%`, or a token
/// by itself, and only one of these. In quotes, what prints stands for itself, but for quotes and
/// the backslash. Digits in a base are digits in a higher one. Words are of letters, digits and
/// underscores.
pub proof fn law_classes(c: char)
    ensures
        is_in(c, Class::Prolog) <==> {
            ||| is_in(c, Class::Layout)
            ||| is_in(c, Class::Word)
            ||| is_in(c, Class::Graphic)
            ||| is_in(c, Class::Quote)
            ||| c == '%' || c == '!' || c == '(' || c == ')' || c == ',' || c == ';' || c == '['
                || c == ']' || c == '{' || c == '|' || c == '}'
        },
        is_in(c, Class::Word) <==> is_in(c, Class::Digit) || 'A' <= c <= 'Z' || 'a' <= c <= 'z' || c
            == '_',
        is_in(c, Class::Digit) <==> '0' <= c <= '9',
        is_in(c, Class::Octal) <==> is_in(c, Class::Digit) && c != '8' && c != '9',
        is_in(c, Class::Binary) <==> c == '0' || c == '1',
        is_in(c, Class::Hex) && !is_in(c, Class::Digit) <==> 'A' <= c <= 'F' || 'a' <= c <= 'f',
        is_in(c, Class::Word) ==> !is_in(c, Class::Graphic) && !is_in(c, Class::Layout) && !is_in(
            c,
            Class::Quote,
        ),
        is_in(c, Class::Graphic) ==> !is_in(c, Class::Layout) && !is_in(c, Class::Quote),
        is_in(c, Class::Layout) <==> c == ' ' || c == '\t' || c == '\n' || c == '\u{0b}' || c
            == '\u{0c}',
        is_in(c, Class::Quote) <==> c == '\'' || c == '"' || c == '`',
        is_in(c, Class::Plain) <==> c == ' ' || (is_in(c, Class::Prolog) && !is_in(c, Class::Layout)
            && !is_in(c, Class::Quote) && c != '\\'),
        is_in(c, Class::Binary) ==> is_in(c, Class::Octal),
        is_in(c, Class::Octal) ==> is_in(c, Class::Digit),
        is_in(c, Class::Digit) <==> is_in(c, Class::Hex) && c <= '9',
        is_in(c, Class::Hex) ==> is_in(c, Class::Word),
        is_in(c, Class::Line) <==> c != '\n',
{
}

/// A character that is none of Prolog's keeps the parser for ever where a token would begin.
pub proof fn law_strange_character(text: Seq<u8>, i: int)
    requires
        0 <= i < text.len(),
    ensures
        !is_in(text[i] as char, Class::Prolog) ==> !stops(text, i),
{
}

/// Behind the end of the text the parser has stopped.
pub proof fn law_end_of_text(text: Seq<u8>, i: int)
    requires
        text.len() <= i,
    ensures
        stops(text, i),
{
}

/// Layout, and what is a token by itself, is passed over.
pub proof fn law_single_characters(text: Seq<u8>, i: int)
    requires
        0 <= i < text.len(),
        ({
            let c = text[i] as char;
            is_in(c, Class::Layout) || c == '!' || c == '(' || c == ')' || c == ',' || c == ';' || c
                == '[' || c == ']' || c == '{' || c == '|' || c == '}'
        }),
    ensures
        stops(text, i) == stops(text, i + 1),
{
}

/// A full stop ends it, whatever follows: a point where a token begins, at the end of the text or
/// in front of layout or a comment.
pub proof fn law_full_stop(text: Seq<u8>, i: int)
    requires
        0 <= i < text.len(),
        text[i] as char == '.',
        i + 1 < text.len() ==> is_in(text[i + 1] as char, Class::Layout) || text[i + 1] as char
            == '%',
    ensures
        stops(text, i),
{
}

/// A comment goes from `%` to the end of its line, whatever stands in it.
pub proof fn law_line_comment(text: Seq<u8>, i: int, j: int)
    requires
        0 <= i < j <= text.len(),
        text[i] as char == '%',
        forall|k: int| i <= k < j ==> #[trigger] text[k] as char != '\n',
        j < text.len() ==> text[j] as char == '\n',
    ensures
        j < text.len() ==> stops(text, i) == stops(text, j + 1),
        j == text.len() ==> stops(text, i),
{
    law_run(text, i, j, Class::Line);
}

/// A word, and a name of signs that is no full stop and begins no comment, is passed over whole.
pub proof fn law_words(text: Seq<u8>, i: int, j: int)
    requires
        0 <= i < j <= text.len(),
        !is_in(text[i] as char, Class::Digit),
        !is_full_stop(text, i),
        !(text[i] as char == '/' && i + 1 < text.len() && text[i + 1] as char == '*'),
    ensures
        (forall|k: int| i <= k < j ==> is_in(#[trigger] text[k] as char, Class::Word)) && (j
            < text.len() ==> !is_in(text[j] as char, Class::Word)) ==> stops(text, i) == stops(
            text,
            j,
        ),
        (forall|k: int| i <= k < j ==> is_in(#[trigger] text[k] as char, Class::Graphic)) && (j
            < text.len() ==> !is_in(text[j] as char, Class::Graphic)) ==> stops(text, i) == stops(
            text,
            j,
        ),
{
    if (forall|k: int| i <= k < j ==> is_in(#[trigger] text[k] as char, Class::Word)) && (j
        < text.len() ==> !is_in(text[j] as char, Class::Word)) {
        law_run(text, i, j, Class::Word);
        assert(is_in(text[i] as char, Class::Word));
    }
    if (forall|k: int| i <= k < j ==> is_in(#[trigger] text[k] as char, Class::Graphic)) && (j
        < text.len() ==> !is_in(text[j] as char, Class::Graphic)) {
        law_run(text, i, j, Class::Graphic);
        assert(is_in(text[i] as char, Class::Graphic));
    }
}

proof fn lemma_comment(text: Seq<u8>, i: int, j: int)
    requires
        0 <= i <= j,
        has(text, j, '*'),
        has(text, j + 1, '/'),
        forall|k: int| i <= k < j ==> is_in(#[trigger] text[k] as char, Class::Prolog),
        forall|k: int| i <= k < j ==> !(has(text, k, '*') && #[trigger] has(text, k + 1, '/')),
    ensures
        comment_end(text, i) == Some(j + 2),
    decreases j - i,
{
    if i < j {
        assert(is_in(text[i] as char, Class::Prolog));
        assert(!(has(text, i, '*') && has(text, i + 1, '/')));
        lemma_comment(text, i + 1, j);
    }
}

/// A comment in brackets goes up to the first closing one; a character that is none of Prolog's in
/// front of it ends it all, with an error.
pub proof fn law_bracketed_comment(text: Seq<u8>, i: int, j: int)
    requires
        0 <= i,
        i + 2 <= j < text.len(),
        text[i] as char == '/',
        text[i + 1] as char == '*',
        forall|k: int| i + 2 <= k < j ==> is_in(#[trigger] text[k] as char, Class::Prolog),
        forall|k: int| i + 2 <= k < j ==> !(has(text, k, '*') && #[trigger] has(text, k + 1, '/')),
    ensures
        has(text, j, '*') && has(text, j + 1, '/') ==> stops(text, i) == stops(text, j + 2),
        !is_in(text[j] as char, Class::Prolog) ==> stops(text, i),
{
    if has(text, j, '*') && has(text, j + 1, '/') {
        lemma_comment(text, i + 2, j);
    }
    if !is_in(text[j] as char, Class::Prolog) {
        lemma_comment_broken(text, i + 2, j);
    }
}

/// A comment in brackets that nothing closes ends it all.
pub proof fn law_unclosed_comment(text: Seq<u8>, i: int)
    requires
        0 <= i,
        i + 2 <= text.len(),
        text[i] as char == '/',
        text[i + 1] as char == '*',
        forall|k: int| i + 2 <= k ==> !(has(text, k, '*') && #[trigger] has(text, k + 1, '/')),
    ensures
        stops(text, i),
{
    lemma_comment_unclosed(text, i + 2);
}

proof fn lemma_comment_unclosed(text: Seq<u8>, i: int)
    requires
        forall|k: int| i <= k ==> !(has(text, k, '*') && #[trigger] has(text, k + 1, '/')),
    ensures
        comment_end(text, i) is None,
    decreases text.len() - i,
{
    if has_in(text, i, Class::Prolog) {
        assert(!(has(text, i, '*') && has(text, i + 1, '/')));
        lemma_comment_unclosed(text, i + 1);
    }
}

proof fn lemma_comment_broken(text: Seq<u8>, i: int, j: int)
    requires
        0 <= i <= j < text.len(),
        !is_in(text[j] as char, Class::Prolog),
        forall|k: int| i <= k < j ==> !(has(text, k, '*') && #[trigger] has(text, k + 1, '/')),
    ensures
        comment_end(text, i) is None,
    decreases j - i,
{
    if i < j {
        assert(!(has(text, i, '*') && has(text, i + 1, '/')));
        lemma_comment_broken(text, i + 1, j);
    }
}

/// In quotes, a character that stands for itself and a quote of another kind are one character
/// long; the quote doubled is two; a single one closes the quotes.
pub proof fn law_quoted(text: Seq<u8>, i: int, quote: char)
    requires
        0 <= i < text.len(),
        quote == '\'' || quote == '"',
    ensures
        is_in(text[i] as char, Class::Plain) || (is_in(text[i] as char, Class::Quote)
            && text[i] as char != quote) ==> quoted_end(text, i, quote)
            == quoted_end(text, i + 1, quote),
        has(text, i, quote) && has(text, i + 1, quote) ==> quoted_end(text, i, quote)
            == quoted_end(text, i + 2, quote),
        has(text, i, quote) && !(has(text, i + 1, quote)) ==> quoted_end(text, i, quote) == Some(
            i + 1,
        ),
        !is_in(text[i] as char, Class::Prolog) || (is_in(text[i] as char, Class::Layout) && text[i]
            as char != ' ') ==> quoted_end(text, i, quote) is None,
{
}

/// A backslash in quotes takes a new line, a quote, a backslash or the letter of a control
/// character with it.
pub proof fn law_escaped(text: Seq<u8>, i: int, quote: char)
    requires
        0 <= i,
        i + 1 < text.len(),
        text[i] as char == '\\',
        quote == '\'' || quote == '"',
        ({
            let c = text[i + 1] as char;
            c == '\n' || c == '\\' || c == '\'' || c == '"' || c == '`' || c == 'a' || c == 'b' || c
                == 'f' || c == 'n' || c == 'r' || c == 't' || c == 'v'
        }),
    ensures
        quoted_end(text, i, quote) == quoted_end(text, i + 2, quote),
{
}

/// A character by its number, octal or behind `x` hexadecimal, goes up to the next backslash.
pub proof fn law_numbered_character(text: Seq<u8>, i: int, j: int, quote: char)
    requires
        0 <= i,
        i + 2 <= j < text.len(),
        text[i] as char == '\\',
        text[j] as char == '\\',
        quote == '\'' || quote == '"',
    ensures
        (forall|k: int| i + 1 <= k < j ==> is_in(#[trigger] text[k] as char, Class::Octal))
            ==> quoted_end(text, i, quote) == quoted_end(text, j + 1, quote),
        text[i + 1] as char == 'x' && (forall|k: int|
            i + 2 <= k < j ==> is_in(#[trigger] text[k] as char, Class::Hex)) ==> quoted_end(
            text,
            i,
            quote,
        ) == quoted_end(text, j + 1, quote),
{
    if forall|k: int| i + 1 <= k < j ==> is_in(#[trigger] text[k] as char, Class::Octal) {
        law_run(text, i + 1, j, Class::Octal);
        assert(is_in(text[i + 1] as char, Class::Octal));
    }
    if text[i + 1] as char == 'x' && (forall|k: int|
        i + 2 <= k < j ==> is_in(#[trigger] text[k] as char, Class::Hex)) {
        law_run(text, i + 2, j, Class::Hex);
    }
}

/// Another character behind a backslash in quotes ends it all, with an error, and so does a
/// character by its number that no backslash closes.
pub proof fn law_escape_refused(text: Seq<u8>, i: int, j: int, quote: char)
    requires
        0 <= i,
        i + 1 <= j <= text.len(),
        text[i] as char == '\\',
        quote == '\'' || quote == '"',
    ensures
        j == i + 1 && j < text.len() && {
            let c = text[j] as char;
            !is_in(c, Class::Quote) && !is_in(c, Class::Octal) && c != '\n' && c != '\\' && c != 'a'
                && c != 'b' && c != 'f' && c != 'n' && c != 'r' && c != 't' && c != 'v' && c != 'x'
        } ==> quoted_end(text, i, quote) is None,
        j > i + 1 && (forall|k: int|
            i + 1 <= k < j ==> is_in(#[trigger] text[k] as char, Class::Octal)) && !has_in(
            text,
            j,
            Class::Octal,
        ) && !(has(text, j, '\\')) ==> quoted_end(text, i, quote) is None,
        j > i + 1 && text[i + 1] as char == 'x' && (forall|k: int|
            i + 2 <= k < j ==> is_in(#[trigger] text[k] as char, Class::Hex)) && !has_in(
            text,
            j,
            Class::Hex,
        ) && !(has(text, j, '\\')) ==> quoted_end(text, i, quote) is None,
{
    if j > i + 1 && (forall|k: int|
        i + 1 <= k < j ==> is_in(#[trigger] text[k] as char, Class::Octal)) && !has_in(
        text,
        j,
        Class::Octal,
    ) {
        law_run(text, i + 1, j, Class::Octal);
        assert(is_in(text[i + 1] as char, Class::Octal));
    }
    if j > i + 1 && text[i + 1] as char == 'x' && (forall|k: int|
        i + 2 <= k < j ==> is_in(#[trigger] text[k] as char, Class::Hex)) && !has_in(
        text,
        j,
        Class::Hex,
    ) {
        law_run(text, i + 2, j, Class::Hex);
    }
}

/// At the end of the text no quotes are closed any more.
pub proof fn law_unclosed(text: Seq<u8>, i: int, quote: char)
    requires
        text.len() <= i,
    ensures
        quoted_end(text, i, quote) is None,
        back_quoted_end(text, i) is None,
        comment_end(text, i) is None,
{
}

/// Quotes are passed over up to the one that closes them; where none does, the parser stops.
pub proof fn law_quotes(text: Seq<u8>, i: int)
    requires
        0 <= i < text.len(),
        text[i] as char == '\'' || text[i] as char == '"',
    ensures
        stops(text, i) == match quoted_end(text, i + 1, text[i] as char) {
            Some(end) => stops(text, end),
            None => true,
        },
{
}

/// A number without a fraction is passed over whole, unless it is a `0` that something follows.
pub proof fn law_numbers(text: Seq<u8>, i: int, j: int)
    requires
        0 <= i < j <= text.len(),
        forall|k: int| i <= k < j ==> is_in(#[trigger] text[k] as char, Class::Digit),
        j < text.len() ==> !is_in(text[j] as char, Class::Digit),
        j - i > 1 || text[i] as char != '0' || !(has(text, j, 'x') || has(text, j, 'o') || has(
            text,
            j,
            'b',
        ) || has(text, j, '\'')),
        !(has(text, j, '.') && has_in(text, j + 1, Class::Digit)),
    ensures
        stops(text, i) == stops(text, j),
{
    law_run(text, i, j, Class::Digit);
    assert(is_in(text[i] as char, Class::Digit));
}

/// A number with a fraction and no exponent is passed over whole.
pub proof fn law_fractions(text: Seq<u8>, i: int, point: int, j: int)
    requires
        0 <= i < point,
        point + 1 < j <= text.len(),
        text[point] as char == '.',
        forall|k: int| i <= k < point ==> is_in(#[trigger] text[k] as char, Class::Digit),
        forall|k: int| point < k < j ==> is_in(#[trigger] text[k] as char, Class::Digit),
        j < text.len() ==> !is_in(text[j] as char, Class::Digit) && text[j] as char != 'e'
            && text[j] as char != 'E',
    ensures
        stops(text, i) == stops(text, j),
{
    law_run(text, i, point, Class::Digit);
    law_run(text, point + 1, j, Class::Digit);
    assert(is_in(text[i] as char, Class::Digit));
    assert(is_in(text[point + 1] as char, Class::Digit));
}

/// An exponent, with a sign or without one, belongs to the number; it has a digit.
pub proof fn law_exponents(text: Seq<u8>, i: int, point: int, e: int, j: int)
    requires
        0 <= i < point,
        point + 1 < e < j <= text.len(),
        text[point] as char == '.',
        text[e] as char == 'e' || text[e] as char == 'E',
        forall|k: int| i <= k < point ==> is_in(#[trigger] text[k] as char, Class::Digit),
        forall|k: int| point < k < e ==> is_in(#[trigger] text[k] as char, Class::Digit),
        j < text.len() ==> !is_in(text[j] as char, Class::Digit),
        forall|k: int| e + 1 < k < j ==> is_in(#[trigger] text[k] as char, Class::Digit),
        j > e + 1 ==> is_in(text[e + 1] as char, Class::Digit) || text[e + 1] as char == '+'
            || text[e + 1] as char == '-',
        j == e + 1 ==> !(has(text, j, '+')) && !(has(text, j, '-')),
    ensures
        is_in(text[j - 1] as char, Class::Digit) ==> stops(text, i) == stops(text, j),
        !is_in(text[j - 1] as char, Class::Digit) ==> stops(text, i),
{
    law_run(text, i, point, Class::Digit);
    law_run(text, point + 1, e, Class::Digit);
    assert(is_in(text[i] as char, Class::Digit));
    assert(is_in(text[point + 1] as char, Class::Digit));
    if j > e + 1 {
        if has(text, e + 1, '+') || has(text, e + 1, '-') {
            law_run(text, e + 2, j, Class::Digit);
        } else {
            law_run(text, e + 1, j, Class::Digit);
        }
    }
}

/// `0x`, `0o` and `0b` stand in front of digits in another base, of which there is one at least.
pub proof fn law_bases(text: Seq<u8>, i: int, j: int, class: Class)
    requires
        0 <= i,
        i + 2 <= j <= text.len(),
        text[i] as char == '0',
        match class {
            Class::Hex => text[i + 1] as char == 'x',
            Class::Octal => text[i + 1] as char == 'o',
            Class::Binary => text[i + 1] as char == 'b',
            _ => false,
        },
        forall|k: int| i + 2 <= k < j ==> is_in(#[trigger] text[k] as char, class),
        j < text.len() ==> !is_in(text[j] as char, class),
    ensures
        j > i + 2 ==> stops(text, i) == stops(text, j),
        j == i + 2 ==> stops(text, i),
{
    law_run(text, i, i + 1, Class::Digit);
    law_run(text, i + 2, j, class);
    if j > i + 2 {
        assert(is_in(text[i + 2] as char, class));
    }
}

/// Behind a back quote: a single one more stops the parser; what could stand in back quotes is
/// passed over; the parser goes on at anything else.
pub proof fn law_back_quotes(text: Seq<u8>, i: int)
    requires
        0 <= i < text.len(),
    ensures
        has(text, i, '`') && !(has(text, i + 1, '`')) ==> back_quoted_end(text, i) is None,
        has(text, i, '`') && has(text, i + 1, '`') ==> back_quoted_end(text, i) == back_quoted_end(
            text,
            i + 2,
        ),
        is_in(text[i] as char, Class::Plain) || text[i] as char == '\'' ==> back_quoted_end(text, i)
            == back_quoted_end(text, i + 1),
        has(text, i, '\\') && has(text, i + 1, '\n') ==> back_quoted_end(text, i)
            == back_quoted_end(text, i + 2),
        has(text, i, '\\') && !(has(text, i + 1, '\n')) ==> back_quoted_end(text, i) == Some(i),
        !is_in(text[i] as char, Class::Prolog) || text[i] as char == '"' || (is_in(
            text[i] as char,
            Class::Layout,
        ) && text[i] as char != ' ') ==> back_quoted_end(text, i) == Some(i),
        text[i] as char == '`' ==> stops(text, i) == match back_quoted_end(text, i + 1) {
            Some(end) => stops(text, end),
            None => true,
        },
{
}

/// `0'` stands in front of a character, which may be a quote, a `%` or a point.
pub proof fn law_character_code(text: Seq<u8>, i: int)
    requires
        0 <= i,
        i + 2 < text.len(),
        text[i] as char == '0',
        text[i + 1] as char == '\'',
    ensures
        is_in(text[i + 2] as char, Class::Plain) || text[i + 2] as char == '"'
            || text[i + 2] as char == '`' ==> stops(text, i) == stops(text, i + 3),
        has(text, i + 2, '\'') && has(text, i + 3, '\'') ==> stops(text, i) == stops(text, i + 4),
        has(text, i + 2, '\'') && !(has(text, i + 3, '\'')) ==> stops(text, i),
        !is_in(text[i + 2] as char, Class::Prolog) || (is_in(text[i + 2] as char, Class::Layout)
            && text[i + 2] as char != ' ') ==> stops(text, i),
{
    law_run(text, i, i + 1, Class::Digit);
}

/// The character behind `0'` may be written with a backslash: a quote, a backslash, the letter of a
/// control character, or a number that a backslash closes. Anything else ends it all.
pub proof fn law_escaped_character_code(text: Seq<u8>, i: int, j: int)
    requires
        0 <= i,
        i + 3 < text.len(),
        i + 4 <= j <= text.len(),
        text[i] as char == '0',
        text[i + 1] as char == '\'',
        text[i + 2] as char == '\\',
    ensures
        ({
            let c = text[i + 3] as char;
            let one = is_in(c, Class::Quote) || c == '\\' || c == 'a' || c == 'b' || c == 'f' || c
                == 'n' || c == 'r' || c == 't' || c == 'v';
            let octal = (forall|k: int|
                i + 3 <= k < j ==> is_in(#[trigger] text[k] as char, Class::Octal)) && !has_in(
                text,
                j,
                Class::Octal,
            );
            let hex = c == 'x' && (forall|k: int|
                i + 4 <= k < j ==> is_in(#[trigger] text[k] as char, Class::Hex)) && !has_in(
                text,
                j,
                Class::Hex,
            );
            &&& one ==> stops(text, i) == stops(text, i + 4)
            &&& !one && c != 'x' && !is_in(c, Class::Octal) ==> stops(text, i)
            &&& octal || hex ==> stops(text, i) == if has(text, j, '\\') {
                stops(text, j + 1)
            } else {
                true
            }
        }),
{
    law_run(text, i, i + 1, Class::Digit);
    let c = text[i + 3] as char;
    if (forall|k: int| i + 3 <= k < j ==> is_in(#[trigger] text[k] as char, Class::Octal))
        && !has_in(text, j, Class::Octal) {
        law_run(text, i + 3, j, Class::Octal);
        assert(is_in(c, Class::Octal));
    }
    if c == 'x' && (forall|k: int| i + 4 <= k < j ==> is_in(#[trigger] text[k] as char, Class::Hex))
        && !has_in(text, j, Class::Hex) {
        law_run(text, i + 4, j, Class::Hex);
    }
}

/// A quote behind a `0` that nothing follows ends it all.
pub proof fn law_no_character_code(text: Seq<u8>, i: int)
    requires
        0 <= i,
        text.len() <= i + 3,
        has(text, i, '0'),
        has(text, i + 1, '\''),
        text.len() == i + 3 ==> text[i + 2] as char == '\\',
    ensures
        stops(text, i),
{
    law_run(text, i, i + 1, Class::Digit);
}

/// What a position computed by a program shows.
spec fn shown(end: Option<usize>) -> Option<int> {
    match end {
        Some(end) => Some(end as int),
        None => None,
    }
}

fn has_char(text: &[u8], i: usize, c: char) -> (r: bool)
    ensures
        r == has(text@, i as int, c),
        text@.len() <= usize::MAX,
{
    i < text.len() && text[i] as char == c
}

fn has_char_in(text: &[u8], i: usize, class: Class) -> (r: bool)
    ensures
        r == has_in(text@, i as int, class),
        text@.len() <= usize::MAX,
{
    i < text.len() && is_char_in(text[i] as char, class)
}

fn find_run_end(text: &[u8], i: usize, class: Class) -> (r: usize)
    requires
        i <= text@.len(),
    ensures
        r == run_end(text@, i as int, class),
        i <= r <= text@.len(),
{
    let mut end: usize = i;
    while has_char_in(text, end, class)
        invariant
            i <= end <= text@.len(),
            run_end(text@, end as int, class) == run_end(text@, i as int, class),
        decreases text@.len() - end,
    {
        end += 1;
    }
    end
}

fn find_escape_end(text: &[u8], i: usize) -> (r: Option<usize>)
    requires
        i <= text@.len(),
    ensures
        shown(r) == escape_end(text@, i as int),
{
    if has_char_in(text, i, Class::Quote) || has_char(text, i, '\\') || has_char_in(
        text,
        i,
        Class::Control,
    ) {
        Some(i + 1)
    } else if has_char_in(text, i, Class::Octal) {
        let end = find_run_end(text, i, Class::Octal);
        if has_char(text, end, '\\') {
            Some(end + 1)
        } else {
            None
        }
    } else if has_char(text, i, 'x') {
        let end = find_run_end(text, i + 1, Class::Hex);
        if has_char(text, end, '\\') {
            Some(end + 1)
        } else {
            None
        }
    } else {
        None
    }
}

fn find_quoted_char_end(text: &[u8], i: usize, quote: char) -> (r: Option<usize>)
    ensures
        shown(r) == quoted_char_end(text@, i as int, quote),
{
    if has_char(text, i, quote) {
        if has_char(text, i + 1, quote) {
            Some(i + 2)
        } else {
            None
        }
    } else if has_char_in(text, i, Class::Quote) || has_char_in(text, i, Class::Plain) {
        Some(i + 1)
    } else if has_char(text, i, '\\') {
        find_escape_end(text, i + 1)
    } else {
        None
    }
}

fn find_quoted_end(text: &[u8], i: usize, quote: char) -> (r: Option<usize>)
    ensures
        shown(r) == quoted_end(text@, i as int, quote),
{
    let mut at: usize = i;
    while at < text.len()
        invariant
            quoted_end(text@, at as int, quote) == quoted_end(text@, i as int, quote),
        decreases text@.len() - at,
    {
        if has_char(text, at, '\\') && has_char(text, at + 1, '\n') {
            at += 2;
        } else {
            proof {
                lemma_quoted_char_end(text@, at as int, quote);
            }
            match find_quoted_char_end(text, at, quote) {
                Some(end) => {
                    at = end;
                },
                None => {
                    return if has_char(text, at, quote) {
                        Some(at + 1)
                    } else {
                        None
                    };
                },
            }
        }
    }
    None
}

fn find_back_quoted_end(text: &[u8], i: usize) -> (r: Option<usize>)
    ensures
        shown(r) == back_quoted_end(text@, i as int),
{
    let mut at: usize = i;
    while at < text.len()
        invariant
            back_quoted_end(text@, at as int) == back_quoted_end(text@, i as int),
        decreases text@.len() - at,
    {
        if has_char(text, at, '`') {
            if has_char(text, at + 1, '`') {
                at += 2;
            } else {
                return None;
            }
        } else if has_char(text, at, '\\') && has_char(text, at + 1, '\n') {
            at += 2;
        } else if has_char(text, at, '\'') || has_char_in(text, at, Class::Plain) {
            at += 1;
        } else {
            return Some(at);
        }
    }
    None
}

fn find_comment_end(text: &[u8], i: usize) -> (r: Option<usize>)
    ensures
        shown(r) == comment_end(text@, i as int),
{
    let mut at: usize = i;
    while has_char_in(text, at, Class::Prolog)
        invariant
            comment_end(text@, at as int) == comment_end(text@, i as int),
        decreases text@.len() - at,
    {
        if has_char(text, at, '*') && has_char(text, at + 1, '/') {
            return Some(at + 2);
        }
        at += 1;
    }
    None
}

fn find_based_end(text: &[u8], i: usize, class: Class) -> (r: Option<usize>)
    ensures
        shown(r) == based_end(text@, i as int, class),
{
    if has_char_in(text, i, class) {
        Some(find_run_end(text, i, class))
    } else {
        None
    }
}

fn find_fraction_end(text: &[u8], i: usize) -> (r: Option<usize>)
    requires
        i <= text@.len(),
    ensures
        shown(r) == fraction_end(text@, i as int),
{
    let end = find_run_end(text, i, Class::Digit);
    if has_char(text, end, 'e') || has_char(text, end, 'E') {
        if has_char(text, end + 1, '+') || has_char(text, end + 1, '-') {
            find_based_end(text, end + 2, Class::Digit)
        } else {
            find_based_end(text, end + 1, Class::Digit)
        }
    } else {
        Some(end)
    }
}

fn find_number_end(text: &[u8], i: usize) -> (r: Option<usize>)
    requires
        i < text@.len(),
    ensures
        shown(r) == number_end(text@, i as int),
{
    let end = find_run_end(text, i, Class::Digit);
    let zero = has_char(text, i, '0') && end == i + 1;
    if has_char(text, end, '.') && has_char_in(text, end + 1, Class::Digit) {
        find_fraction_end(text, end + 1)
    } else if zero && has_char(text, end, 'x') {
        find_based_end(text, end + 1, Class::Hex)
    } else if zero && has_char(text, end, 'o') {
        find_based_end(text, end + 1, Class::Octal)
    } else if zero && has_char(text, end, 'b') {
        find_based_end(text, end + 1, Class::Binary)
    } else if zero && has_char(text, end, '\'') {
        find_quoted_char_end(text, end + 1, '\'')
    } else {
        Some(end)
    }
}

fn find_token_end(text: &[u8], i: usize) -> (r: Option<usize>)
    requires
        i < text@.len(),
    ensures
        shown(r) == token_end(text@, i as int),
{
    if has_char(text, i, '.') && (i + 1 >= text.len() || has_char_in(text, i + 1, Class::Layout)
        || has_char(text, i + 1, '%')) {
        None
    } else if has_char(text, i, '%') {
        let end = find_run_end(text, i, Class::Line);
        if end < text.len() {
            Some(end + 1)
        } else {
            None
        }
    } else if has_char(text, i, '/') && has_char(text, i + 1, '*') {
        find_comment_end(text, i + 2)
    } else if has_char(text, i, '\'') || has_char(text, i, '"') {
        find_quoted_end(text, i + 1, text[i] as char)
    } else if has_char(text, i, '`') {
        find_back_quoted_end(text, i + 1)
    } else if has_char_in(text, i, Class::Digit) {
        find_number_end(text, i)
    } else if has_char_in(text, i, Class::Word) {
        Some(find_run_end(text, i, Class::Word))
    } else if has_char_in(text, i, Class::Graphic) {
        Some(find_run_end(text, i, Class::Graphic))
    } else {
        Some(i + 1)
    }
}

/// Whether the parser comes to a stop in a text.
pub fn comes_to_a_stop(text: &[u8]) -> (r: bool)
    ensures
        r == stops(text@, 0),
{
    let mut at: usize = 0;
    while at < text.len()
        invariant
            stops(text@, at as int) == stops(text@, 0),
        decreases text@.len() - at,
    {
        if !has_char_in(text, at, Class::Prolog) {
            return false;
        }
        proof {
            lemma_token_end(text@, at as int);
        }
        match find_token_end(text, at) {
            Some(end) => {
                at = end;
            },
            None => {
                return true;
            },
        }
    }
    true
}

} // verus!
