//! Tokens of the source text, found by longest match.

use crate::text::{chars_of, string_of};
use vstd::prelude::*;

verus! {

/// Where in which file the lexer stands.
#[derive(Debug)]
pub struct FileContext<'source> {
    pub filename: String,
    pub source: &'source str,
    pub line: usize,
}

impl<'source> Clone for FileContext<'source> {
    fn clone(&self) -> (res: Self)
        ensures
            res == *self,
    {
        FileContext { filename: self.filename.clone(), source: self.source, line: self.line }
    }
}

/// One token of the language.
#[derive(Debug, PartialEq, Eq, Clone, Copy, Structural)]
pub enum Token {
    /// A name: a letter or `_`, then letters, digits and `_`.
    Ident,
    /// A run of decimal digits.
    Int(u32),
    /// The word `fn`.
    KeywordFn,
    /// The word `type`.
    KeywordType,
    /// A double-quoted string with backslash escapes; its slice keeps the quotes.
    String,
    /// A line feed; counted and never handed out.
    Newline,
    /// `|| ... ||` on one line; never handed out.
    DocComment,
    /// `|` up to the next `|` or the end of the line; never handed out.
    Comment,
    /// Any other single character.
    Symbol(char),
}

/// The classes of characters that runs are made of.
#[derive(Debug, PartialEq, Eq, Clone, Copy, Structural)]
pub enum CharClass {
    /// Space, tab, carriage return, form feed.
    Blank,
    /// Letters, digits and `_`.
    IdentPart,
    /// Decimal digits.
    Digit,
    /// Anything but a line feed and `|`.
    CommentBody,
    /// Anything but a line feed.
    LineBody,
}

/// Whether the character is a blank: space, tab, carriage return or form feed.
pub open spec fn is_blank(c: char) -> bool {
    c == ' ' || c == '\t' || c == '\r' || c == '\x0c'
}

/// Whether a name may start with the character: a letter of the Latin alphabet or `_`.
pub open spec fn is_ident_start(c: char) -> bool {
    c == '_' || ('a' <= c && c <= 'z') || ('A' <= c && c <= 'Z')
}

/// Whether the character is a decimal digit.
pub open spec fn is_digit(c: char) -> bool {
    '0' <= c && c <= '9'
}

/// Whether a backslash may stand before this character inside a string.
pub open spec fn is_escape(c: char) -> bool {
    c == '"' || c == '\\' || c == 'b' || c == 'n' || c == 'f' || c == 'r' || c == 't'
}

/// Whether the character belongs to the class.
pub open spec fn in_class(class: CharClass, c: char) -> bool {
    match class {
        CharClass::Blank => is_blank(c),
        CharClass::IdentPart => is_ident_start(c) || is_digit(c),
        CharClass::Digit => is_digit(c),
        CharClass::CommentBody => c != '\n' && c != '|',
        CharClass::LineBody => c != '\n',
    }
}

/// The end of the longest run of characters of one class that starts at `from`.
pub open spec fn run_end(src: Seq<char>, from: int, class: CharClass) -> int
    decreases src.len() - from,
{
    if 0 <= from < src.len() && in_class(class, src[from]) {
        run_end(src, from + 1, class)
    } else {
        from
    }
}

/// The end of a string whose opening quote lies before `at`, if it is closed.
pub open spec fn string_end(src: Seq<char>, at: int) -> Option<int>
    decreases src.len() - at,
{
    if at < 0 || at >= src.len() {
        None
    } else if src[at] == '"' {
        Some(at + 1)
    } else if src[at] == '\\' {
        if at + 1 < src.len() && is_escape(src[at + 1]) {
            string_end(src, at + 2)
        } else {
            None
        }
    } else {
        string_end(src, at + 1)
    }
}

/// The end of the last `||` that lies within `src[low..high]`, or `low` if there is none.
pub open spec fn last_double_bar(src: Seq<char>, low: int, high: int) -> int
    decreases high - low,
{
    if high - low < 2 || high > src.len() || low < 0 {
        low
    } else if src[high - 2] == '|' && src[high - 1] == '|' {
        high
    } else {
        last_double_bar(src, low, high - 1)
    }
}

/// The number that the digits `src[from..to]` spell.
pub open spec fn digits_value(src: Seq<char>, from: int, to: int) -> nat
    decreases to - from,
{
    if to <= from || to > src.len() || from < 0 {
        0
    } else {
        (digits_value(src, from, to - 1) * 10 + (src[to - 1] as u32 - '0' as u32)) as nat
    }
}

/// What stands at one position of the source.
pub enum Lexeme {
    /// Blanks and comments: nothing to hand out.
    Skipped,
    /// A line feed: nothing to hand out, the line counter grows.
    LineFeed,
    /// A token.
    Found(Token),
    /// A number too large for 32 bits.
    Invalid,
}

/// The word that an identifier-shaped slice stands for.
pub open spec fn word_token(word: Seq<char>) -> Token {
    if word == seq!['f', 'n'] {
        Token::KeywordFn
    } else if word == seq!['t', 'y', 'p', 'e'] {
        Token::KeywordType
    } else {
        Token::Ident
    }
}

/// The longest lexeme that starts at `at`, with its end. Among lexemes of one length,
/// blanks and comments are preferred over symbols and keywords over identifiers.
pub open spec fn lexeme_at(src: Seq<char>, at: int) -> (Lexeme, int)
    recommends
        0 <= at < src.len(),
{
    let c = src[at];
    if is_blank(c) {
        (Lexeme::Skipped, run_end(src, at, CharClass::Blank))
    } else if c == '\n' {
        (Lexeme::LineFeed, at + 1)
    } else if is_ident_start(c) {
        let end = run_end(src, at, CharClass::IdentPart);
        (Lexeme::Found(word_token(src.subrange(at, end))), end)
    } else if is_digit(c) {
        let end = run_end(src, at, CharClass::Digit);
        let value = digits_value(src, at, end);
        if value <= u32::MAX {
            (Lexeme::Found(Token::Int(value as u32)), end)
        } else {
            (Lexeme::Invalid, end)
        }
    } else if c == '"' {
        match string_end(src, at + 1) {
            Some(end) => (Lexeme::Found(Token::String), end),
            None => (Lexeme::Found(Token::Symbol(c)), at + 1),
        }
    } else if c == '|' {
        let line_end = run_end(src, at, CharClass::LineBody);
        let doc_end = last_double_bar(src, at + 2, line_end);
        if at + 1 < src.len() && src[at + 1] == '|' && doc_end > at + 2 {
            (Lexeme::Skipped, doc_end)
        } else {
            (Lexeme::Skipped, run_end(src, at + 1, CharClass::CommentBody))
        }
    } else {
        (Lexeme::Found(Token::Symbol(c)), at + 1)
    }
}

/// The line counter after one more line feed.
pub open spec fn next_line(line: usize) -> usize {
    if line < usize::MAX {
        (line + 1) as usize
    } else {
        line
    }
}

/// The outcome of asking for the next token.
pub struct Step {
    /// The token, an error, or the end of the source.
    pub token: Option<Result<Token, ()>>,
    /// Where the token starts.
    pub start: int,
    /// Where the token ends, and the next one is looked for.
    pub end: int,
    /// The line counter afterwards.
    pub line: usize,
}

/// The first token at or after `at`, beyond blanks, comments and line feeds.
pub open spec fn next_token(src: Seq<char>, at: int, line: usize) -> Step
    decreases src.len() - at,
{
    if at < 0 || at >= src.len() {
        Step { token: None, start: src.len() as int, end: src.len() as int, line }
    } else {
        let (lexeme, end) = lexeme_at(src, at);
        match lexeme {
            Lexeme::Found(token) => Step { token: Some(Ok(token)), start: at, end, line },
            Lexeme::Invalid => Step { token: Some(Err(())), start: at, end, line },
            Lexeme::Skipped => if at < end <= src.len() {
                next_token(src, end, line)
            } else {
                Step { token: None, start: src.len() as int, end: src.len() as int, line }
            },
            Lexeme::LineFeed => if at < end <= src.len() {
                next_token(src, end, next_line(line))
            } else {
                Step { token: None, start: src.len() as int, end: src.len() as int, line }
            },
        }
    }
}

/// A run never ends before it starts, nor beyond the source.
pub proof fn lemma_run_end_bounds(src: Seq<char>, from: int, class: CharClass)
    requires
        0 <= from <= src.len(),
    ensures
        from <= run_end(src, from, class) <= src.len(),
        from < src.len() && in_class(class, src[from]) ==> from < run_end(src, from, class),
    decreases src.len() - from,
{
    if from < src.len() && in_class(class, src[from]) {
        lemma_run_end_bounds(src, from + 1, class);
    }
}

/// A closed string ends after where it was looked for, within the source.
pub proof fn lemma_string_end_bounds(src: Seq<char>, at: int)
    requires
        0 <= at,
    ensures
        string_end(src, at) matches Some(end) ==> at < end <= src.len(),
    decreases src.len() - at,
{
    if at < src.len() && src[at] != '"' {
        if src[at] == '\\' {
            if at + 1 < src.len() && is_escape(src[at + 1]) {
                lemma_string_end_bounds(src, at + 2);
            }
        } else {
            lemma_string_end_bounds(src, at + 1);
        }
    }
}

/// The last `||` lies within the bounds it was looked for in.
pub proof fn lemma_last_double_bar_bounds(src: Seq<char>, low: int, high: int)
    requires
        0 <= low,
        high <= src.len(),
    ensures
        low <= last_double_bar(src, low, high),
        last_double_bar(src, low, high) <= high || last_double_bar(src, low, high) == low,
    decreases high - low,
{
    if high - low >= 2 && !(src[high - 2] == '|' && src[high - 1] == '|') {
        lemma_last_double_bar_bounds(src, low, high - 1);
    }
}

/// Every lexeme is at least one character long and ends within the source.
pub proof fn lemma_lexeme_bounds(src: Seq<char>, at: int)
    requires
        0 <= at < src.len(),
    ensures
        at < lexeme_at(src, at).1 <= src.len(),
{
    lemma_run_end_bounds(src, at, CharClass::Blank);
    lemma_run_end_bounds(src, at, CharClass::IdentPart);
    lemma_run_end_bounds(src, at, CharClass::Digit);
    lemma_run_end_bounds(src, at, CharClass::LineBody);
    lemma_run_end_bounds(src, at + 1, CharClass::CommentBody);
    lemma_string_end_bounds(src, at + 1);
    if at + 2 <= src.len() {
        lemma_last_double_bar_bounds(src, at + 2, run_end(src, at, CharClass::LineBody));
    }
}

/// A token is found within the source, after where it was looked for.
pub proof fn lemma_next_token_bounds(src: Seq<char>, at: int, line: usize)
    requires
        0 <= at <= src.len(),
    ensures
        at <= next_token(src, at, line).start <= next_token(src, at, line).end <= src.len(),
        next_token(src, at, line).token is Some ==> next_token(src, at, line).start
            < next_token(src, at, line).end,
    decreases src.len() - at,
{
    if at < src.len() {
        lemma_lexeme_bounds(src, at);
        let (lexeme, end) = lexeme_at(src, at);
        match lexeme {
            Lexeme::Skipped => lemma_next_token_bounds(src, end, line),
            Lexeme::LineFeed => lemma_next_token_bounds(src, end, next_line(line)),
            _ => {},
        }
    }
}

/// A lexer over one source text.
pub struct Lexer<'source> {
    chars: Vec<char>,
    start: usize,
    position: usize,
    extras: FileContext<'source>,
}

fn belongs_to(class: CharClass, c: char) -> (res: bool)
    ensures
        res == in_class(class, c),
{
    match class {
        CharClass::Blank => c == ' ' || c == '\t' || c == '\r' || c == '\x0c',
        CharClass::IdentPart => c == '_' || ('a' <= c && c <= 'z') || ('A' <= c && c <= 'Z') || (
        '0' <= c && c <= '9'),
        CharClass::Digit => '0' <= c && c <= '9',
        CharClass::CommentBody => c != '\n' && c != '|',
        CharClass::LineBody => c != '\n',
    }
}

/// The end of the longest run of characters of one class that starts at `from`.
pub fn scan_run(chars: &Vec<char>, from: usize, class: CharClass) -> (end: usize)
    requires
        from <= chars.len(),
    ensures
        end == run_end(chars@, from as int, class),
        from <= end <= chars.len(),
{
    let mut end: usize = from;
    while end < chars.len() && belongs_to(class, chars[end])
        invariant
            from <= end <= chars.len(),
            run_end(chars@, from as int, class) == run_end(chars@, end as int, class),
        decreases chars.len() - end,
    {
        end = end + 1;
    }
    end
}

fn scan_string(chars: &Vec<char>, from: usize) -> (end: Option<usize>)
    requires
        from <= chars.len(),
    ensures
        end matches Some(e) ==> string_end(chars@, from as int) == Some(e as int) && from < e
            <= chars.len(),
        end is None ==> string_end(chars@, from as int) is None,
{
    let mut at: usize = from;
    while at < chars.len()
        invariant
            from <= at <= chars.len(),
            string_end(chars@, from as int) == string_end(chars@, at as int),
        decreases chars.len() - at,
    {
        let c: char = chars[at];
        if c == '"' {
            return Some(at + 1);
        } else if c == '\\' {
            if at + 1 < chars.len() {
                let d: char = chars[at + 1];
                if d == '"' || d == '\\' || d == 'b' || d == 'n' || d == 'f' || d == 'r' || d
                    == 't' {
                    at = at + 2;
                } else {
                    return None;
                }
            } else {
                return None;
            }
        } else {
            at = at + 1;
        }
    }
    None
}

fn scan_double_bar(chars: &Vec<char>, low: usize, high: usize) -> (end: usize)
    requires
        low <= high <= chars.len(),
    ensures
        end == last_double_bar(chars@, low as int, high as int),
        low <= end <= high,
{
    let mut end: usize = high;
    while end - low >= 2
        invariant
            low <= end <= high <= chars.len(),
            last_double_bar(chars@, low as int, high as int) == last_double_bar(
                chars@,
                low as int,
                end as int,
            ),
        decreases end - low,
    {
        if chars[end - 2] == '|' && chars[end - 1] == '|' {
            return end;
        }
        end = end - 1;
    }
    low
}

/// A number grows with every digit that is appended to it.
proof fn lemma_digits_value_grows(src: Seq<char>, from: int, mid: int, to: int)
    requires
        0 <= from <= mid <= to <= src.len(),
        forall|i: int| from <= i < to ==> is_digit(#[trigger] src[i]),
    ensures
        digits_value(src, from, mid) <= digits_value(src, from, to),
    decreases to - mid,
{
    if mid < to {
        lemma_digits_value_grows(src, from, mid, to - 1);
    }
}

fn scan_number(chars: &Vec<char>, from: usize, to: usize) -> (value: Option<u32>)
    requires
        from <= to <= chars.len(),
        forall|i: int| from <= i < to ==> is_digit(#[trigger] chars@[i]),
    ensures
        value matches Some(v) ==> digits_value(chars@, from as int, to as int) == v,
        value is None ==> digits_value(chars@, from as int, to as int) > u32::MAX,
{
    let mut value: u64 = 0;
    let mut at: usize = from;
    while at < to
        invariant
            from <= at <= to <= chars.len(),
            forall|i: int| from <= i < to ==> is_digit(#[trigger] chars@[i]),
            value == digits_value(chars@, from as int, at as int),
            value <= u32::MAX,
        decreases to - at,
    {
        let c: char = chars[at];
        assert(is_digit(chars@[at as int]));
        let d: u64 = (c as u32 - '0' as u32) as u64;
        let next: u64 = value * 10 + d;
        at = at + 1;
        if next > 0xffff_ffff {
            proof {
                lemma_digits_value_grows(chars@, from as int, at as int, to as int);
            }
            return None;
        }
        value = next;
    }
    Some(value as u32)
}

fn word_of(chars: &Vec<char>, from: usize, to: usize) -> (token: Token)
    requires
        from <= to <= chars.len(),
    ensures
        token == word_token(chars@.subrange(from as int, to as int)),
{
    let ghost word = chars@.subrange(from as int, to as int);
    if to - from == 2 && chars[from] == 'f' && chars[from + 1] == 'n' {
        assert(word =~= seq!['f', 'n']);
        Token::KeywordFn
    } else if to - from == 4 && chars[from] == 't' && chars[from + 1] == 'y' && chars[from + 2]
        == 'p' && chars[from + 3] == 'e' {
        assert(word =~= seq!['t', 'y', 'p', 'e']);
        assert(seq!['t', 'y', 'p', 'e'].len() != seq!['f', 'n'].len());
        Token::KeywordType
    } else {
        proof {
            if word == seq!['f', 'n'] {
                assert(word.len() == 2);
                assert(word[0] == 'f' && word[1] == 'n');
            }
            if word == seq!['t', 'y', 'p', 'e'] {
                assert(word.len() == 4);
                assert(word[0] == 't' && word[1] == 'y' && word[2] == 'p' && word[3] == 'e');
            }
        }
        Token::Ident
    }
}

fn scan_lexeme(chars: &Vec<char>, at: usize) -> (res: (Lexeme, usize))
    requires
        at < chars.len(),
    ensures
        res.0 == lexeme_at(chars@, at as int).0,
        res.1 == lexeme_at(chars@, at as int).1,
        at < res.1 <= chars.len(),
{
    proof {
        lemma_lexeme_bounds(chars@, at as int);
    }
    let c: char = chars[at];
    if c == ' ' || c == '\t' || c == '\r' || c == '\x0c' {
        (Lexeme::Skipped, scan_run(chars, at, CharClass::Blank))
    } else if c == '\n' {
        (Lexeme::LineFeed, at + 1)
    } else if c == '_' || ('a' <= c && c <= 'z') || ('A' <= c && c <= 'Z') {
        let end: usize = scan_run(chars, at, CharClass::IdentPart);
        (Lexeme::Found(word_of(chars, at, end)), end)
    } else if '0' <= c && c <= '9' {
        let end: usize = scan_run(chars, at, CharClass::Digit);
        proof {
            lemma_run_holds(chars@, at as int, CharClass::Digit);
        }
        match scan_number(chars, at, end) {
            Some(value) => (Lexeme::Found(Token::Int(value)), end),
            None => (Lexeme::Invalid, end),
        }
    } else if c == '"' {
        match scan_string(chars, at + 1) {
            Some(end) => (Lexeme::Found(Token::String), end),
            None => (Lexeme::Found(Token::Symbol(c)), at + 1),
        }
    } else if c == '|' {
        if at + 1 < chars.len() && chars[at + 1] == '|' {
            let line_end: usize = scan_run(chars, at, CharClass::LineBody);
            proof {
                lemma_run_end_bounds(chars@, at as int + 1, CharClass::LineBody);
            }
            let doc_end: usize = scan_double_bar(chars, at + 2, line_end);
            if doc_end > at + 2 {
                return (Lexeme::Skipped, doc_end);
            }
        }
        (Lexeme::Skipped, scan_run(chars, at + 1, CharClass::CommentBody))
    } else {
        (Lexeme::Found(Token::Symbol(c)), at + 1)
    }
}

/// Every character of a run belongs to the run's class.
pub proof fn lemma_run_holds(src: Seq<char>, from: int, class: CharClass)
    requires
        0 <= from <= src.len(),
    ensures
        forall|i: int| from <= i < run_end(src, from, class) ==> in_class(class, #[trigger] src[i]),
    decreases src.len() - from,
{
    if from < src.len() && in_class(class, src[from]) {
        lemma_run_holds(src, from + 1, class);
    }
}

impl Token {
    /// A lexer at the start of `source`, with `extras` as its file context.
    pub fn lexer_with_extras<'source>(source: &'source str, extras: FileContext<'source>) -> (lexer:
        Lexer<'source>)
        ensures
            lexer.wf(),
            lexer.source() == source@,
            lexer.position() == 0,
            lexer.span() == (0int, 0int),
            lexer.line() == extras.line,
            lexer.filename() == extras.filename@,
            lexer.given_source() == extras.source,
    {
        Lexer { chars: chars_of(source), start: 0, position: 0, extras }
    }
}

impl<'source> Lexer<'source> {
    /// The source text being read.
    pub closed spec fn source(&self) -> Seq<char> {
        self.chars@
    }

    /// Where the next token is looked for.
    pub closed spec fn position(&self) -> int {
        self.position as int
    }

    /// Start and end of the token handed out last.
    pub closed spec fn span(&self) -> (int, int) {
        (self.start as int, self.position as int)
    }

    /// The line counter.
    pub closed spec fn line(&self) -> usize {
        self.extras.line
    }

    /// The name of the file being read.
    pub closed spec fn filename(&self) -> Seq<char> {
        self.extras.filename@
    }

    /// The source text that the file context names.
    pub closed spec fn given_source(&self) -> &'source str {
        self.extras.source
    }

    /// The last token lies within the source.
    pub closed spec fn wf(&self) -> bool {
        self.start <= self.position <= self.chars.len()
    }

    /// The lexer stands within its source.
    pub proof fn lemma_position_in_source(&self)
        requires
            self.wf(),
        ensures
            0 <= self.position() <= self.source().len(),
    {
    }

    /// The next token, `Some(Err(()))` for a number that does not fit 32 bits, `None` at
    /// the end. Blanks and comments are passed over; every line feed passed over is counted.
    pub fn next(&mut self) -> (token: Option<Result<Token, ()>>)
        requires
            old(self).wf(),
        ensures
            final(self).wf(),
            final(self).source() == old(self).source(),
            final(self).filename() == old(self).filename(),
            final(self).given_source() == old(self).given_source(),
            token == next_token(old(self).source(), old(self).position(), old(self).line()).token,
            final(self).span() == (
                next_token(old(self).source(), old(self).position(), old(self).line()).start,
                next_token(old(self).source(), old(self).position(), old(self).line()).end,
            ),
            final(self).position() == next_token(
                old(self).source(),
                old(self).position(),
                old(self).line(),
            ).end,
            final(self).line() == next_token(
                old(self).source(),
                old(self).position(),
                old(self).line(),
            ).line,
    {
        let ghost goal = next_token(self.chars@, self.position as int, self.extras.line);
        while self.position < self.chars.len()
            invariant
                self.position <= self.chars.len(),
                self.chars == old(self).chars,
                self.extras.filename == old(self).extras.filename,
                self.extras.source == old(self).extras.source,
                goal == next_token(self.chars@, self.position as int, self.extras.line),
                goal == next_token(
                    old(self).chars@,
                    old(self).position as int,
                    old(self).extras.line,
                ),
            decreases self.chars.len() - self.position,
        {
            let at: usize = self.position;
            let (lexeme, end) = scan_lexeme(&self.chars, at);
            match lexeme {
                Lexeme::Found(token) => {
                    self.start = at;
                    self.position = end;
                    return Some(Ok(token));
                },
                Lexeme::Invalid => {
                    self.start = at;
                    self.position = end;
                    return Some(Err(()));
                },
                Lexeme::Skipped => {
                    self.position = end;
                },
                Lexeme::LineFeed => {
                    self.position = end;
                    if self.extras.line < usize::MAX {
                        self.extras.line = self.extras.line + 1;
                    }
                },
            }
        }
        self.start = self.position;
        None
    }

    /// The text of the token handed out last; empty before the first and at the end.
    pub fn slice(&self) -> (text: String)
        requires
            self.wf(),
        ensures
            text@ == self.source().subrange(self.span().0, self.span().1),
    {
        string_of(&self.chars, self.start, self.position)
    }

    /// Ends the lexing and hands the file context back, with the line counter as it
    /// stands.
    pub fn into_extras(self) -> (extras: FileContext<'source>)
        ensures
            extras.line == self.line(),
            extras.filename@ == self.filename(),
            extras.source == self.given_source(),
    {
        self.extras
    }

    /// The file context, with the line counter as it stands.
    pub fn extras(&self) -> (extras: &FileContext<'source>)
        ensures
            extras.line == self.line(),
            extras.filename@ == self.filename(),
            extras.source == self.given_source(),
    {
        &self.extras
    }
}

} // verus!
