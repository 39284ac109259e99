//! The input text with its length, character classes, and the runs and
//! words that every parser is built on.
use vstd::prelude::*;
use vstd::string::StrSliceExecFns;
use vstd::string::StringExecFns;
use crate::ast::Literal;
use crate::error::{ErrorKind, ParseError, fail};

verus! {

/// A set of characters that a run is made of.
#[derive(Debug, Clone, Copy, PartialEq, Eq, Structural)]
pub enum CharClass {
    /// Space, tab, line feed, carriage return.
    Space,
    /// Space and tab.
    Inline,
    /// ASCII letters, digits and the underscore.
    Word,
    /// ASCII digits.
    Digit,
}

/// Whether `c` is a decimal digit.
pub open spec fn is_digit(c: char) -> bool {
    '0' <= c <= '9'
}

/// Whether `c` belongs to `class`.
pub open spec fn in_class(c: char, class: CharClass) -> bool {
    match class {
        CharClass::Space => c == ' ' || c == '\t' || c == '\n' || c == '\r',
        CharClass::Inline => c == ' ' || c == '\t',
        CharClass::Word => is_digit(c) || ('a' <= c <= 'z') || ('A' <= c <= 'Z') || c == '_',
        CharClass::Digit => is_digit(c),
    }
}

/// The length of the longest run of `class` characters that starts at `pos`.
pub open spec fn run_len(s: Seq<char>, pos: int, class: CharClass) -> nat
    decreases s.len() - pos,
{
    if 0 <= pos < s.len() && in_class(s[pos], class) {
        1 + run_len(s, pos + 1, class)
    } else {
        0
    }
}

/// The offset just behind the longest run of `class` characters at `pos`.
pub open spec fn run_end(s: Seq<char>, pos: int, class: CharClass) -> int {
    pos + run_len(s, pos, class)
}

/// The offset of the first significant character at or behind `pos`.
pub open spec fn skip(s: Seq<char>, pos: int) -> int {
    run_end(s, pos, CharClass::Space)
}

/// The offset just behind the word that starts at `pos`.
pub open spec fn word_end(s: Seq<char>, pos: int) -> int {
    run_end(s, pos, CharClass::Word)
}

/// The word that starts at `pos` (empty where none does).
pub open spec fn word_at(s: Seq<char>, pos: int) -> Seq<char> {
    s.subrange(pos, word_end(s, pos))
}

/// Whether the single character `c` stands at `pos`.
pub open spec fn has_char(s: Seq<char>, pos: int, c: char) -> bool {
    0 <= pos < s.len() && s[pos] == c
}

/// Whether the characters `a`, `b` stand at `pos` and `pos + 1`.
pub open spec fn has_pair(s: Seq<char>, pos: int, a: char, b: char) -> bool {
    has_char(s, pos, a) && has_char(s, pos + 1, b)
}

/// What kind of word starts at an offset.
#[derive(Debug, Clone, Copy, PartialEq, Eq, Structural)]
pub enum Lexeme {
    /// No word character stands there.
    Nothing,
    /// A word made of digits only.
    Number,
    /// The reserved word `NaN`.
    NotANumber,
    /// Any other word.
    Name,
}

/// The kind of the word that starts at `pos`. Digits-only words and the
/// reserved word are literals; only the others are names.
pub open spec fn lexeme_at(s: Seq<char>, pos: int) -> Lexeme {
    if word_end(s, pos) == pos {
        Lexeme::Nothing
    } else if run_end(s, pos, CharClass::Digit) == word_end(s, pos) {
        Lexeme::Number
    } else if word_at(s, pos) == "NaN"@ {
        Lexeme::NotANumber
    } else {
        Lexeme::Name
    }
}

/// The value of the digit `c`, zero for any other character.
pub open spec fn digit_value(c: char) -> nat {
    if is_digit(c) {
        (c as int - '0' as int) as nat
    } else {
        0
    }
}

/// The number that the digits `w` write in base ten.
pub open spec fn digits_value(w: Seq<char>) -> nat
    decreases w.len(),
{
    if w.len() == 0 {
        0
    } else {
        10 * digits_value(w.drop_last()) + digit_value(w.last())
    }
}

/// The literal that the digit run `w`, found at `pos`, writes; a run whose
/// value exceeds `i32::MAX` is an overflow.
pub open spec fn number_literal(w: Seq<char>, pos: int) -> Result<Literal, ParseError> {
    if digits_value(w) <= i32::MAX {
        Ok(Literal::Literal(digits_value(w) as i32))
    } else {
        Err(fail(ErrorKind::NumericOverflow, pos))
    }
}

/// A prefix of a digit run never writes a larger number than the run.
pub proof fn lemma_digits_value_grows(w: Seq<char>, n: int)
    requires
        0 <= n <= w.len(),
    ensures
        digits_value(w.take(n)) <= digits_value(w),
    decreases w.len(),
{
    if n == w.len() {
        assert(w.take(n) =~= w);
    } else {
        lemma_digits_value_grows(w.drop_last(), n);
        assert(w.drop_last().take(n) =~= w.take(n));
    }
}

/// A run never reaches beyond the end of the text.
pub proof fn lemma_run_bounds(s: Seq<char>, pos: int, class: CharClass)
    requires
        0 <= pos <= s.len(),
    ensures
        pos <= run_end(s, pos, class) <= s.len(),
    decreases s.len() - pos,
{
    if pos < s.len() && in_class(s[pos], class) {
        lemma_run_bounds(s, pos + 1, class);
    }
}

/// The input text together with its length in characters. Offsets count
/// characters. A text of ASCII characters alone, the only kind that the
/// grammar accepts, is read in constant time per character; any other text
/// is walked from its start.
pub struct Source<'a> {
    text: &'a str,
    len: usize,
    ascii: bool,
}

impl<'a> View for Source<'a> {
    type V = Seq<char>;

    closed spec fn view(&self) -> Seq<char> {
        self.text@
    }
}

impl<'a> Source<'a> {
    /// Whether the recorded length is that of the text, and the text is
    /// ASCII where it is marked so.
    pub closed spec fn wf(&self) -> bool {
        &&& self.len == self.text@.len()
        &&& self.ascii ==> self.text.is_ascii()
    }

    /// Wraps `text`.
    pub fn new(text: &'a str) -> (src: Self)
        ensures
            src.wf(),
            src@ == text@,
    {
        Source { text, len: text.unicode_len(), ascii: text.is_ascii() }
    }

    /// The number of characters.
    pub fn len(&self) -> (n: usize)
        requires
            self.wf(),
        ensures
            n == self@.len(),
    {
        self.len
    }

    /// The character at offset `i`.
    pub fn at(&self, i: usize) -> (c: char)
        requires
            self.wf(),
            i < self@.len(),
        ensures
            c == self@[i as int],
    {
        if self.ascii {
            self.text.get_ascii(i) as char
        } else {
            self.text.get_char(i)
        }
    }

    /// Whether `c` stands at offset `i`.
    pub fn is_at(&self, i: usize, c: char) -> (b: bool)
        requires
            self.wf(),
        ensures
            b == has_char(self@, i as int, c),
            b ==> i < self@.len() <= usize::MAX,
    {
        i < self.len && self.at(i) == c
    }

    /// Whether `a` and `b` stand at offsets `i` and `i + 1`.
    pub fn pair_at(&self, i: usize, a: char, b: char) -> (r: bool)
        requires
            self.wf(),
        ensures
            r == has_pair(self@, i as int, a, b),
            r ==> i + 2 <= self@.len() <= usize::MAX,
    {
        i < self.len && i + 1 < self.len && self.at(i) == a && self.at(i + 1) == b
    }

    /// The characters from `from` up to `to`, as a string.
    pub fn slice(&self, from: usize, to: usize) -> (out: String)
        requires
            self.wf(),
            from <= to <= self@.len(),
        ensures
            out@ == self@.subrange(from as int, to as int),
    {
        String::from_str(self.rest_to(from, to))
    }

    /// The text from `from` to the end.
    pub fn rest(&self, from: usize) -> (out: &'a str)
        requires
            self.wf(),
            from <= self@.len(),
        ensures
            out@ == self@.subrange(from as int, self@.len() as int),
    {
        self.rest_to(from, self.len)
    }

    /// The text from `from` up to `to`.
    fn rest_to(&self, from: usize, to: usize) -> (out: &'a str)
        requires
            self.wf(),
            from <= to <= self@.len(),
        ensures
            out@ == self@.subrange(from as int, to as int),
    {
        if self.ascii {
            self.text.substring_ascii(from, to)
        } else {
            self.text.substring_char(from, to)
        }
    }

    /// The end of the longest run of `class` characters at `pos`.
    pub fn scan(&self, pos: usize, class: CharClass) -> (end: usize)
        requires
            self.wf(),
            pos <= self@.len(),
        ensures
            end == run_end(self@, pos as int, class),
            pos <= end <= self@.len(),
    {
        let mut i: usize = pos;
        while i < self.len && member(self.at(i), class)
            invariant
                self.wf(),
                pos <= i <= self@.len(),
                run_end(self@, i as int, class) == run_end(self@, pos as int, class),
            decreases self@.len() - i,
        {
            i += 1;
        }
        i
    }

    /// The first significant offset at or behind `pos`.
    pub fn skip_space(&self, pos: usize) -> (end: usize)
        requires
            self.wf(),
            pos <= self@.len(),
        ensures
            end == skip(self@, pos as int),
            pos <= end <= self@.len(),
    {
        self.scan(pos, CharClass::Space)
    }

    /// Whether the characters from `from` up to `to` spell `word`.
    pub fn spells(&self, from: usize, to: usize, word: &str) -> (b: bool)
        requires
            self.wf(),
            from <= to <= self@.len(),
        ensures
            b == (self@.subrange(from as int, to as int) == word@),
    {
        let n = word.unicode_len();
        if to - from != n {
            return false;
        }
        let mut i: usize = 0;
        while i < n
            invariant
                self.wf(),
                from <= to <= self@.len(),
                n == word@.len(),
                to - from == n,
                0 <= i <= n,
                forall|j: int| 0 <= j < i ==> self@[from + j] == word@[j],
            decreases n - i,
        {
            if self.at(from + i) != word.get_char(i) {
                assert(self@.subrange(from as int, to as int)[i as int] != word@[i as int]);
                return false;
            }
            i += 1;
        }
        assert(self@.subrange(from as int, to as int) =~= word@);
        true
    }

    /// The kind of the word that starts at `pos`, and where it ends.
    pub fn lexeme(&self, pos: usize) -> (out: (Lexeme, usize))
        requires
            self.wf(),
            pos <= self@.len(),
        ensures
            out.0 == lexeme_at(self@, pos as int),
            out.1 == word_end(self@, pos as int),
            pos <= out.1 <= self@.len(),
    {
        let end = self.scan(pos, CharClass::Word);
        if end == pos {
            (Lexeme::Nothing, end)
        } else if self.scan(pos, CharClass::Digit) == end {
            (Lexeme::Number, end)
        } else if self.spells(pos, end, "NaN") {
            (Lexeme::NotANumber, end)
        } else {
            (Lexeme::Name, end)
        }
    }

    /// The literal that the digits from `from` up to `to` write.
    pub fn number(&self, from: usize, to: usize) -> (out: Result<Literal, ParseError>)
        requires
            self.wf(),
            from <= to <= self@.len(),
        ensures
            out == number_literal(self@.subrange(from as int, to as int), from as int),
            out matches Err(e) ==> e.position == from,
    {
        let ghost w = self@.subrange(from as int, to as int);
        let mut acc: u64 = 0;
        let mut i: usize = from;
        while i < to
            invariant
                self.wf(),
                from <= i <= to <= self@.len(),
                w == self@.subrange(from as int, to as int),
                acc == digits_value(w.take(i - from)),
                acc <= i32::MAX,
            decreases to - i,
        {
            let c = self.at(i);
            let d: u64 = digit(c);
            proof {
                assert(w.take(i + 1 - from).drop_last() =~= w.take(i - from));
                assert(w.take(i + 1 - from).last() == c);
            }
            acc = acc * 10 + d;
            i += 1;
            if acc > 2147483647 {
                proof {
                    lemma_digits_value_grows(w, i - from);
                }
                return Err(ParseError { kind: ErrorKind::NumericOverflow, position: from });
            }
        }
        assert(w.take(to - from) =~= w);
        Ok(Literal::Literal(acc as i32))
    }
}

/// Whether `c` belongs to `class`.
pub fn member(c: char, class: CharClass) -> (b: bool)
    ensures
        b == in_class(c, class),
{
    let digit = '0' <= c && c <= '9';
    match class {
        CharClass::Space => c == ' ' || c == '\t' || c == '\n' || c == '\r',
        CharClass::Inline => c == ' ' || c == '\t',
        CharClass::Word => digit || ('a' <= c && c <= 'z') || ('A' <= c && c <= 'Z') || c == '_',
        CharClass::Digit => digit,
    }
}

/// The value of the digit `c`, zero for any other character.
pub fn digit(c: char) -> (d: u64)
    ensures
        d == digit_value(c),
        d <= 9,
{
    if '0' <= c && c <= '9' {
        (c as u32 - '0' as u32) as u64
    } else {
        0
    }
}

} // verus!
