//! Lexical analysis: turning recipe source text into a token sequence.
//!
//! The scanner walks the character stream once. Runs of blank lines (and
//! other non-space whitespace) collapse to a single separator token; plain
//! spaces are consumed silently; `:` and `,` become punctuation tokens; a
//! digit starts a numeric literal; an alphabetic character starts a word,
//! which becomes a keyword token, merges into a directly preceding
//! identifier (the multi-word-name heuristic), or becomes a new identifier.
//! Any other character aborts the scan with a positioned error.

use vstd::prelude::*;
use vstd::string::StrSliceExecFns;
use vstd::string::StringExecFns;

use crate::ast::Decimal;
use crate::charclass::{
    char_is_alphabetic, char_is_numeric, char_is_whitespace, is_alphabetic_char, is_numeric_char,
    is_whitespace_char,
};
use crate::number::{parse_decimal, spec_parse_decimal};
use crate::text::str_eq;

verus! {

/// The reserved words of the language. All spellings are case-sensitive;
/// `into` is the one keyword spelled lower-case.
#[derive(Clone, Copy, Debug, PartialEq, Eq, Structural)]
pub enum Keyword {
    Ingredients,
    Instructions,
    Combine,
    Mix,
    Cut,
    Into,
    Refridgerate,
    Bake,
}

/// The keyword table: the keyword a word denotes, or `None` if the word is
/// an ordinary identifier.
pub open spec fn spec_keyword(w: Seq<char>) -> Option<Keyword> {
    if w == "Ingredients"@ {
        Some(Keyword::Ingredients)
    } else if w == "Instructions"@ {
        Some(Keyword::Instructions)
    } else if w == "Combine"@ {
        Some(Keyword::Combine)
    } else if w == "Mix"@ {
        Some(Keyword::Mix)
    } else if w == "Cut"@ {
        Some(Keyword::Cut)
    } else if w == "into"@ {
        Some(Keyword::Into)
    } else if w == "Refridgerate"@ {
        Some(Keyword::Refridgerate)
    } else if w == "Bake"@ {
        Some(Keyword::Bake)
    } else {
        None
    }
}

impl Keyword {
    /// Recognize a scanned word as a keyword, by the keyword table.
    pub fn from_word(w: &str) -> (r: Option<Keyword>)
        ensures
            r == spec_keyword(w@),
    {
        if str_eq(w, "Ingredients") {
            Some(Keyword::Ingredients)
        } else if str_eq(w, "Instructions") {
            Some(Keyword::Instructions)
        } else if str_eq(w, "Combine") {
            Some(Keyword::Combine)
        } else if str_eq(w, "Mix") {
            Some(Keyword::Mix)
        } else if str_eq(w, "Cut") {
            Some(Keyword::Cut)
        } else if str_eq(w, "into") {
            Some(Keyword::Into)
        } else if str_eq(w, "Refridgerate") {
            Some(Keyword::Refridgerate)
        } else if str_eq(w, "Bake") {
            Some(Keyword::Bake)
        } else {
            None
        }
    }
}

/// One lexical token.
#[derive(Clone, Debug)]
pub enum Token {
    Newline,
    Colon,
    Comma,
    Identifier(String),
    Keyword(Keyword),
    Number(Decimal),
}

/// The mathematical shape of a [`Token`].
pub enum TokenModel {
    Newline,
    Colon,
    Comma,
    Identifier(Seq<char>),
    Keyword(Keyword),
    Number(Decimal),
}

impl View for Token {
    type V = TokenModel;

    open spec fn view(&self) -> TokenModel {
        match self {
            Token::Newline => TokenModel::Newline,
            Token::Colon => TokenModel::Colon,
            Token::Comma => TokenModel::Comma,
            Token::Identifier(s) => TokenModel::Identifier(s@),
            Token::Keyword(k) => TokenModel::Keyword(*k),
            Token::Number(d) => TokenModel::Number(*d),
        }
    }
}

impl DeepView for Token {
    type V = TokenModel;

    open spec fn deep_view(&self) -> TokenModel {
        self@
    }
}

impl PartialEq for Token {
    fn eq(&self, other: &Token) -> (r: bool) {
        match (self, other) {
            (Token::Newline, Token::Newline) => true,
            (Token::Colon, Token::Colon) => true,
            (Token::Comma, Token::Comma) => true,
            (Token::Identifier(a), Token::Identifier(b)) => a.eq(b),
            (Token::Keyword(a), Token::Keyword(b)) => *a == *b,
            (Token::Number(a), Token::Number(b)) => *a == *b,
            _ => false,
        }
    }
}

impl vstd::std_specs::cmp::PartialEqSpecImpl for Token {
    open spec fn obeys_eq_spec() -> bool {
        true
    }

    open spec fn eq_spec(&self, other: &Token) -> bool {
        self@ == other@
    }
}

/// Why a scan failed.
#[derive(Clone, Debug, PartialEq)]
pub enum ScanErrorKind {
    /// A character no token can start with.
    UnrecognizedChar(char),
    /// A captured numeric run that is not a valid literal.
    InvalidNumber(String),
}

/// The mathematical shape of a [`ScanErrorKind`].
pub enum ScanErrorKindModel {
    UnrecognizedChar(char),
    InvalidNumber(Seq<char>),
}

impl View for ScanErrorKind {
    type V = ScanErrorKindModel;

    open spec fn view(&self) -> ScanErrorKindModel {
        match self {
            ScanErrorKind::UnrecognizedChar(c) => ScanErrorKindModel::UnrecognizedChar(*c),
            ScanErrorKind::InvalidNumber(s) => ScanErrorKindModel::InvalidNumber(s@),
        }
    }
}

/// A positioned lexical error: 1-based line and column of the offending
/// character, and a copy of the source line it sits on, for a caret-style
/// message.
#[derive(Clone, Debug, PartialEq)]
pub struct ScanError {
    pub line: usize,
    pub column: usize,
    pub source_line: String,
    pub kind: ScanErrorKind,
}

/// The mathematical shape of a [`ScanError`].
pub struct ScanErrorModel {
    pub line: int,
    pub column: int,
    pub source_line: Seq<char>,
    pub kind: ScanErrorKindModel,
}

impl View for ScanError {
    type V = ScanErrorModel;

    open spec fn view(&self) -> ScanErrorModel {
        ScanErrorModel {
            line: self.line as int,
            column: self.column as int,
            source_line: self.source_line@,
            kind: self.kind@,
        }
    }
}

/// The 1-based line number of position `i`: one more than the number of
/// line breaks before it.
pub open spec fn line_of(s: Seq<char>, i: int) -> int
    decreases i,
{
    if i <= 0 {
        1
    } else {
        line_of(s, i - 1) + if s[i - 1] == '\n' {
            1int
        } else {
            0int
        }
    }
}

/// The position where the line holding position `i` starts: just after the
/// last line break before `i`, or the start of the text.
pub open spec fn line_start_of(s: Seq<char>, i: int) -> int
    decreases i,
{
    if i <= 0 {
        0
    } else if s[i - 1] == '\n' {
        i
    } else {
        line_start_of(s, i - 1)
    }
}

/// The position where the line holding position `i` ends: the next line
/// break at or after `i`, or the end of the text.
pub open spec fn line_end_of(s: Seq<char>, i: int) -> int
    decreases s.len() - i,
{
    if i < 0 || i >= s.len() {
        i
    } else if s[i] == '\n' {
        i
    } else {
        line_end_of(s, i + 1)
    }
}

/// The 1-based column of position `i` within its line.
pub open spec fn column_of(s: Seq<char>, i: int) -> int {
    i - line_start_of(s, i) + 1
}

/// The text of the line holding position `i`.
pub open spec fn line_text_of(s: Seq<char>, i: int) -> Seq<char> {
    s.subrange(line_start_of(s, i), line_end_of(s, i))
}

/// The error the scanner reports for the character at position `i`.
pub open spec fn scan_error_at(s: Seq<char>, i: int, kind: ScanErrorKindModel) -> ScanErrorModel {
    ScanErrorModel {
        line: line_of(s, i),
        column: column_of(s, i),
        source_line: line_text_of(s, i),
        kind,
    }
}

/// A statement separator: a line break, or any other non-space whitespace
/// character.
pub open spec fn is_separator_char(c: char) -> bool {
    c == '\n' || (is_whitespace_char(c) && c != ' ')
}

/// A character that may continue a word: alphabetic, or a hyphen.
pub open spec fn is_word_char(c: char) -> bool {
    is_alphabetic_char(c) || c == '-'
}

/// A character that may continue a numeric literal run.
pub open spec fn is_number_char(c: char) -> bool {
    is_numeric_char(c) || c == '.' || c == ','
}

/// Where the maximal run of word characters starting at `i` ends.
pub open spec fn word_end(s: Seq<char>, i: int) -> int
    decreases s.len() - i,
    when 0 <= i <= s.len()
{
    if i >= s.len() {
        i
    } else if is_word_char(s[i]) {
        word_end(s, i + 1)
    } else {
        i
    }
}

/// Where the maximal run of numeric-literal characters starting at `i` ends.
pub open spec fn number_end(s: Seq<char>, i: int) -> int
    decreases s.len() - i,
    when 0 <= i <= s.len()
{
    if i >= s.len() {
        i
    } else if is_number_char(s[i]) {
        number_end(s, i + 1)
    } else {
        i
    }
}

pub proof fn lemma_word_end(s: Seq<char>, i: int)
    requires
        0 <= i <= s.len(),
    ensures
        i <= word_end(s, i) <= s.len(),
        i < s.len() && is_word_char(s[i]) ==> word_end(s, i) > i,
    decreases s.len() - i,
{
    if i < s.len() && is_word_char(s[i]) {
        lemma_word_end(s, i + 1);
    }
}

pub proof fn lemma_number_end(s: Seq<char>, i: int)
    requires
        0 <= i <= s.len(),
    ensures
        i <= number_end(s, i) <= s.len(),
        i < s.len() && is_number_char(s[i]) ==> number_end(s, i) > i,
    decreases s.len() - i,
{
    if i < s.len() && is_number_char(s[i]) {
        lemma_number_end(s, i + 1);
    }
}

/// Append a statement separator, collapsing runs: if the last token already
/// is a separator, nothing is added.
pub open spec fn push_separator(acc: Seq<TokenModel>) -> Seq<TokenModel> {
    if acc.len() > 0 && acc.last() == TokenModel::Newline {
        acc
    } else {
        acc.push(TokenModel::Newline)
    }
}

/// Append a scanned word: a keyword becomes a keyword token; otherwise the
/// word merges, space-joined, into a directly preceding identifier token, or
/// starts a new identifier.
pub open spec fn push_word(acc: Seq<TokenModel>, w: Seq<char>) -> Seq<TokenModel> {
    match spec_keyword(w) {
        Some(k) => acc.push(TokenModel::Keyword(k)),
        None => {
            if acc.len() > 0 {
                match acc.last() {
                    TokenModel::Identifier(id) => acc.update(
                        acc.len() - 1,
                        TokenModel::Identifier(id + " "@ + w),
                    ),
                    _ => acc.push(TokenModel::Identifier(w)),
                }
            } else {
                acc.push(TokenModel::Identifier(w))
            }
        },
    }
}

/// The scanner, one position and one emitted token at a time: what scanning
/// the rest of `s` from position `i` adds to the tokens `acc` emitted so
/// far, or the first error.
pub open spec fn spec_scan_from(s: Seq<char>, i: int, acc: Seq<TokenModel>) -> Result<
    Seq<TokenModel>,
    ScanErrorModel,
>
    decreases s.len() - i,
    when 0 <= i <= s.len()
    via spec_scan_from_decreases
{
    if i >= s.len() {
        Ok(acc)
    } else {
        let c = s[i];
        if is_separator_char(c) {
            spec_scan_from(s, i + 1, push_separator(acc))
        } else if c == ' ' {
            spec_scan_from(s, i + 1, acc)
        } else if c == ':' {
            spec_scan_from(s, i + 1, acc.push(TokenModel::Colon))
        } else if c == ',' {
            spec_scan_from(s, i + 1, acc.push(TokenModel::Comma))
        } else if is_numeric_char(c) {
            let j = number_end(s, i);
            match spec_parse_decimal(s.subrange(i, j)) {
                Some(d) => spec_scan_from(s, j, acc.push(TokenModel::Number(d))),
                None => Err(
                    scan_error_at(s, i, ScanErrorKindModel::InvalidNumber(s.subrange(i, j))),
                ),
            }
        } else if is_alphabetic_char(c) {
            let j = word_end(s, i);
            spec_scan_from(s, j, push_word(acc, s.subrange(i, j)))
        } else {
            Err(scan_error_at(s, i, ScanErrorKindModel::UnrecognizedChar(c)))
        }
    }
}

#[via_fn]
proof fn spec_scan_from_decreases(s: Seq<char>, i: int, acc: Seq<TokenModel>) {
    if 0 <= i < s.len() {
        lemma_number_end(s, i);
        lemma_word_end(s, i);
    }
}

/// What scanning `s` yields: the token sequence, or the first error.
pub open spec fn spec_scan(s: Seq<char>) -> Result<Seq<TokenModel>, ScanErrorModel> {
    spec_scan_from(s, 0, Seq::empty())
}

/// The scanner state: the source text and a forward cursor over its
/// characters, with the tokens emitted so far.
pub struct Scanner<'a> {
    source_text: &'a str,
    length: usize,
    position: usize,
    tokens: Vec<Token>,
}

impl<'a> View for Scanner<'a> {
    type V = Seq<char>;

    closed spec fn view(&self) -> Seq<char> {
        self.source_text@
    }
}

impl<'a> Scanner<'a> {
    /// The cursor is within the text and the cached length is right.
    pub closed spec fn wf(&self) -> bool {
        self.length == self.source_text@.len() && self.position <= self.length
    }

    /// A scanner that has not started: cursor at the start, no tokens.
    pub closed spec fn fresh(&self) -> bool {
        self.wf() && self.position == 0 && self.tokens@ == Seq::<Token>::empty()
    }

    /// A scanner at the start of `source_text`.
    pub fn new(source_text: &'a str) -> (r: Scanner<'a>)
        ensures
            r@ == source_text@,
            r.fresh(),
    {
        Scanner {
            source_text,
            length: source_text.unicode_len(),
            position: 0,
            tokens: Vec::new(),
        }
    }

    /// Where the maximal word run starting at the cursor ends.
    fn word_run_end(&self) -> (j: usize)
        requires
            self.wf(),
        ensures
            j == word_end(self@, self.position as int),
            self.position <= j <= self.length,
    {
        let mut j = self.position;
        loop
            invariant
                self.wf(),
                self.position <= j <= self.length,
                word_end(self@, self.position as int) == word_end(self@, j as int),
            ensures
                self.position <= j <= self.length,
                j == word_end(self@, self.position as int),
            decreases self.length - j,
        {
            if j >= self.length {
                break;
            }
            let c = self.source_text.get_char(j);
            if !(char_is_alphabetic(c) || c == '-') {
                break;
            }
            j += 1;
        }
        j
    }

    /// Where the maximal numeric-literal run starting at the cursor ends.
    fn number_run_end(&self) -> (j: usize)
        requires
            self.wf(),
        ensures
            j == number_end(self@, self.position as int),
            self.position <= j <= self.length,
    {
        let mut j = self.position;
        loop
            invariant
                self.wf(),
                self.position <= j <= self.length,
                number_end(self@, self.position as int) == number_end(self@, j as int),
            ensures
                self.position <= j <= self.length,
                j == number_end(self@, self.position as int),
            decreases self.length - j,
        {
            if j >= self.length {
                break;
            }
            let c = self.source_text.get_char(j);
            if !(char_is_numeric(c) || c == '.' || c == ',') {
                break;
            }
            j += 1;
        }
        j
    }

    /// Build the positioned error for the character at the cursor: its
    /// 1-based line and column, and a copy of its source line.
    fn error_at(&self, kind: ScanErrorKind) -> (e: ScanError)
        requires
            self.wf(),
            self.position < self.length,
        ensures
            e@ == scan_error_at(self@, self.position as int, kind@),
    {
        let mut line: usize = 1;
        let mut start: usize = 0;
        let mut k: usize = 0;
        while k < self.position
            invariant
                self.wf(),
                self.position < self.length,
                k <= self.position,
                line == line_of(self@, k as int),
                line <= k + 1,
                start == line_start_of(self@, k as int),
                start <= k,
            decreases self.position - k,
        {
            let c = self.source_text.get_char(k);
            if c == '\n' {
                line += 1;
                start = k + 1;
            }
            k += 1;
        }
        let mut e = self.position;
        loop
            invariant
                self.wf(),
                self.position <= e <= self.length,
                line_end_of(self@, self.position as int) == line_end_of(self@, e as int),
            ensures
                self.position <= e <= self.length,
                e == line_end_of(self@, self.position as int),
            decreases self.length - e,
        {
            if e >= self.length {
                break;
            }
            if self.source_text.get_char(e) == '\n' {
                break;
            }
            e += 1;
        }
        let text = self.source_text.substring_char(start, e);
        ScanError { line, column: self.position - start + 1, source_line: text.to_owned(), kind }
    }

    /// Append a separator token, unless the last token already is one.
    fn push_separator_token(&mut self)
        requires
            old(self).wf(),
        ensures
            final(self).wf(),
            final(self)@ == old(self)@,
            final(self).position == old(self).position,
            final(self).tokens.deep_view() == push_separator(old(self).tokens.deep_view()),
    {
        let ghost old_dv = self.tokens.deep_view();
        let n = self.tokens.len();
        if n == 0 {
            self.tokens.push(Token::Newline);
            proof {
                assert(self.tokens.deep_view() =~= old_dv.push(TokenModel::Newline));
            }
        } else {
            let last = self.tokens.pop();
            match last {
                Some(Token::Newline) => {
                    self.tokens.push(Token::Newline);
                    proof {
                        assert(self.tokens.deep_view() =~= old_dv);
                    }
                },
                Some(other) => {
                    self.tokens.push(other);
                    self.tokens.push(Token::Newline);
                    proof {
                        assert(self.tokens.deep_view() =~= old_dv.push(TokenModel::Newline));
                    }
                },
                None => {
                    proof {
                        assert(false);
                    }
                },
            }
        }
    }

    /// Append a scanned word: keyword, identifier merge, or new identifier.
    fn push_word_token(&mut self, w: &str)
        requires
            old(self).wf(),
        ensures
            final(self).wf(),
            final(self)@ == old(self)@,
            final(self).position == old(self).position,
            final(self).tokens.deep_view() == push_word(old(self).tokens.deep_view(), w@),
    {
        let ghost old_dv = self.tokens.deep_view();
        match Keyword::from_word(w) {
            Some(k) => {
                self.tokens.push(Token::Keyword(k));
                proof {
                    assert(self.tokens.deep_view() =~= old_dv.push(TokenModel::Keyword(k)));
                }
            },
            None => {
                let n = self.tokens.len();
                if n == 0 {
                    self.tokens.push(Token::Identifier(w.to_owned()));
                    proof {
                        assert(self.tokens.deep_view() =~= old_dv.push(TokenModel::Identifier(w@)));
                    }
                } else {
                    let last = self.tokens.pop();
                    match last {
                        Some(Token::Identifier(mut id)) => {
                            let ghost id0 = id@;
                            id.append(" ");
                            id.append(w);
                            self.tokens.push(Token::Identifier(id));
                            proof {
                                assert(self.tokens.deep_view() =~= old_dv.update(
                                    n - 1,
                                    TokenModel::Identifier(id0 + " "@ + w@),
                                ));
                            }
                        },
                        Some(other) => {
                            self.tokens.push(other);
                            self.tokens.push(Token::Identifier(w.to_owned()));
                            proof {
                                assert(self.tokens@.take(n as int) =~= old(
                                    self,
                                ).tokens@.take(n as int));
                                assert(self.tokens.deep_view() =~= old_dv.push(
                                    TokenModel::Identifier(w@),
                                ));
                            }
                        },
                        None => {
                            proof {
                                assert(false);
                            }
                        },
                    }
                }
            },
        }
    }

    /// Scan the whole source text: the token sequence it denotes, or the
    /// first lexical error.
    #[verifier::loop_isolation(false)]
    pub fn scan(self) -> (r: Result<Vec<Token>, ScanError>)
        requires
            self.fresh(),
        ensures
            match spec_scan(self@) {
                Ok(toks) => r matches Ok(v) && v.deep_view() == toks,
                Err(e) => r matches Err(x) && x@ == e,
            },
    {
        let ghost s = self@;
        let mut this = self;
        proof {
            assert(this.tokens.deep_view() =~= Seq::<TokenModel>::empty());
        }
        while this.position < this.length
            invariant
                this.wf(),
                this@ == s,
                spec_scan_from(s, 0, Seq::empty()) == spec_scan_from(
                    s,
                    this.position as int,
                    this.tokens.deep_view(),
                ),
            decreases this.length - this.position,
        {
            let ghost pos0 = this.position as int;
            let ghost dv0 = this.tokens.deep_view();
            let c = this.source_text.get_char(this.position);
            if c == '\n' || (char_is_whitespace(c) && c != ' ') {
                this.push_separator_token();
                this.position += 1;
            } else if c == ' ' {
                this.position += 1;
            } else if c == ':' {
                this.tokens.push(Token::Colon);
                proof {
                    assert(this.tokens.deep_view() =~= dv0.push(TokenModel::Colon));
                }
                this.position += 1;
            } else if c == ',' {
                this.tokens.push(Token::Comma);
                proof {
                    assert(this.tokens.deep_view() =~= dv0.push(TokenModel::Comma));
                }
                this.position += 1;
            } else if char_is_numeric(c) {
                let j = this.number_run_end();
                let run = this.source_text.substring_char(this.position, j);
                match parse_decimal(run) {
                    Some(dec) => {
                        this.tokens.push(Token::Number(dec));
                        proof {
                            assert(this.tokens.deep_view() =~= dv0.push(TokenModel::Number(dec)));
                        }
                        this.position = j;
                    },
                    None => {
                        return Err(this.error_at(ScanErrorKind::InvalidNumber(run.to_owned())));
                    },
                }
            } else if char_is_alphabetic(c) {
                let j = this.word_run_end();
                proof {
                    lemma_word_end(s, pos0);
                }
                let w = this.source_text.substring_char(this.position, j);
                this.push_word_token(w);
                this.position = j;
            } else {
                return Err(this.error_at(ScanErrorKind::UnrecognizedChar(c)));
            }
        }
        Ok(this.tokens)
    }
}

/// No two directly adjacent tokens are both separators.
pub open spec fn no_adjacent_separators(toks: Seq<TokenModel>) -> bool {
    forall|k: int|
        0 <= k < toks.len() - 1 ==> !((#[trigger] toks[k]) == TokenModel::Newline && toks[k + 1]
            == TokenModel::Newline)
}

proof fn lemma_push_keeps_separation(acc: Seq<TokenModel>, t: TokenModel)
    requires
        no_adjacent_separators(acc),
        t != TokenModel::Newline,
    ensures
        no_adjacent_separators(acc.push(t)),
{
    let r = acc.push(t);
    assert forall|k: int|
        0 <= k < r.len() - 1 implies !((#[trigger] r[k]) == TokenModel::Newline && r[k + 1]
        == TokenModel::Newline) by {
        if k + 1 < acc.len() {
            assert(r[k] == acc[k] && r[k + 1] == acc[k + 1]);
        } else {
            assert(r[k + 1] == t);
        }
    }
}

proof fn lemma_push_separator_keeps_separation(acc: Seq<TokenModel>)
    requires
        no_adjacent_separators(acc),
    ensures
        no_adjacent_separators(push_separator(acc)),
{
    if !(acc.len() > 0 && acc.last() == TokenModel::Newline) {
        let r = acc.push(TokenModel::Newline);
        assert forall|k: int|
            0 <= k < r.len() - 1 implies !((#[trigger] r[k]) == TokenModel::Newline && r[k + 1]
            == TokenModel::Newline) by {
            if k + 1 < acc.len() {
                assert(r[k] == acc[k] && r[k + 1] == acc[k + 1]);
            } else {
                assert(r[k] == acc.last());
            }
        }
    }
}

proof fn lemma_push_word_keeps_separation(acc: Seq<TokenModel>, w: Seq<char>)
    requires
        no_adjacent_separators(acc),
    ensures
        no_adjacent_separators(push_word(acc, w)),
{
    match spec_keyword(w) {
        Some(k) => {
            lemma_push_keeps_separation(acc, TokenModel::Keyword(k));
        },
        None => {
            if acc.len() > 0 {
                match acc.last() {
                    TokenModel::Identifier(id) => {
                        let r = acc.update(acc.len() - 1, TokenModel::Identifier(id + " "@ + w));
                        assert forall|k: int|
                            0 <= k < r.len() - 1 implies !((#[trigger] r[k])
                            == TokenModel::Newline && r[k + 1] == TokenModel::Newline) by {
                            if k + 1 < acc.len() - 1 {
                                assert(r[k] == acc[k] && r[k + 1] == acc[k + 1]);
                            }
                        }
                    },
                    _ => {
                        lemma_push_keeps_separation(acc, TokenModel::Identifier(w));
                    },
                }
            } else {
                lemma_push_keeps_separation(acc, TokenModel::Identifier(w));
            }
        },
    }
}

proof fn lemma_scan_from_separation(s: Seq<char>, i: int, acc: Seq<TokenModel>)
    requires
        0 <= i <= s.len(),
        no_adjacent_separators(acc),
    ensures
        spec_scan_from(s, i, acc) matches Ok(toks) ==> no_adjacent_separators(toks),
    decreases s.len() - i,
{
    if i < s.len() {
        let c = s[i];
        if is_separator_char(c) {
            lemma_push_separator_keeps_separation(acc);
            lemma_scan_from_separation(s, i + 1, push_separator(acc));
        } else if c == ' ' {
            lemma_scan_from_separation(s, i + 1, acc);
        } else if c == ':' {
            lemma_push_keeps_separation(acc, TokenModel::Colon);
            lemma_scan_from_separation(s, i + 1, acc.push(TokenModel::Colon));
        } else if c == ',' {
            lemma_push_keeps_separation(acc, TokenModel::Comma);
            lemma_scan_from_separation(s, i + 1, acc.push(TokenModel::Comma));
        } else if is_numeric_char(c) {
            let j = number_end(s, i);
            lemma_number_end(s, i);
            match spec_parse_decimal(s.subrange(i, j)) {
                Some(d) => {
                    lemma_push_keeps_separation(acc, TokenModel::Number(d));
                    lemma_scan_from_separation(s, j, acc.push(TokenModel::Number(d)));
                },
                None => {},
            }
        } else if is_alphabetic_char(c) {
            let j = word_end(s, i);
            lemma_word_end(s, i);
            lemma_push_word_keeps_separation(acc, s.subrange(i, j));
            lemma_scan_from_separation(s, j, push_word(acc, s.subrange(i, j)));
        }
    }
}

/// Whitespace normalization is idempotent: however many blank lines or
/// whitespace runs the source holds, a successful scan never emits two
/// separator tokens in a row — a run collapses to a single statement
/// separator.
pub proof fn lemma_separator_runs_collapse(s: Seq<char>)
    ensures
        spec_scan(s) matches Ok(toks) ==> no_adjacent_separators(toks),
{
    lemma_scan_from_separation(s, 0, Seq::empty());
}

/// A character a plain word is made of: alphabetic, and none of the
/// characters the scanner treats specially.
pub open spec fn is_plain_letter(c: char) -> bool {
    is_alphabetic_char(c) && !is_whitespace_char(c) && !is_numeric_char(c) && c != ' ' && c != ':'
        && c != ',' && c != '\n' && c != '-'
}

/// A nonempty word of plain letters.
pub open spec fn plain_word(w: Seq<char>) -> bool {
    w.len() > 0 && forall|k: int| 0 <= k < w.len() ==> is_plain_letter(#[trigger] w[k])
}

/// The maximal word run starting at `i` ends exactly at `j` when the
/// characters up to `j` are word characters and `j` is the end of the text
/// or a character that cannot continue a word.
proof fn lemma_word_end_is(s: Seq<char>, i: int, j: int)
    requires
        0 <= i <= j <= s.len(),
        forall|k: int| i <= k < j ==> is_word_char(#[trigger] s[k]),
        j == s.len() || !is_word_char(s[j]),
    ensures
        word_end(s, i) == j,
    decreases j - i,
{
    if i < j {
        lemma_word_end_is(s, i + 1, j);
    }
}

/// Two consecutive words that are not keywords merge into one identifier:
/// scanning `w1 w2` (two plain words joined by a single space) yields one
/// `Identifier` token holding the space-joined name, not two tokens.
pub proof fn lemma_words_merge(w1: Seq<char>, w2: Seq<char>)
    requires
        plain_word(w1),
        plain_word(w2),
        spec_keyword(w1) is None,
        spec_keyword(w2) is None,
    ensures
        spec_scan(w1 + " "@ + w2) == Ok::<Seq<TokenModel>, ScanErrorModel>(
            seq![TokenModel::Identifier(w1 + " "@ + w2)],
        ),
{
    reveal_strlit(" ");
    assert(" "@.len() == 1);
    assert(" "@[0] == ' ');
    let s = w1 + " "@ + w2;
    let n1 = w1.len() as int;
    let n = s.len() as int;
    assert(n == n1 + 1 + w2.len());
    assert forall|k: int| 0 <= k < n1 implies s[k] == w1[k] by {
        assert((w1 + " "@)[k] == w1[k]);
    }
    assert(s[n1] == ' ') by {
        assert((w1 + " "@)[n1] == " "@[0]);
    }
    assert forall|k: int| n1 + 1 <= k < n implies s[k] == w2[k - n1 - 1] by {}

    // Step 1: the first word is consumed whole.
    assert(is_alphabetic_char(s[0]) && !is_separator_char(s[0]) && s[0] != ' ' && s[0] != ':' && s[0]
        != ',' && !is_numeric_char(s[0]));
    assert(!is_word_char(s[n1]));
    lemma_word_end_is(s, 0, n1);
    assert(s.subrange(0, n1) =~= w1);
    let acc1 = push_word(Seq::empty(), w1);
    assert(acc1 =~= seq![TokenModel::Identifier(w1)]);
    assert(spec_scan(s) == spec_scan_from(s, n1, acc1));

    // Step 2: the space is consumed silently.
    assert(!is_separator_char(s[n1]));
    assert(spec_scan_from(s, n1, acc1) == spec_scan_from(s, n1 + 1, acc1));

    // Step 3: the second word merges into the identifier.
    assert(is_alphabetic_char(s[n1 + 1]) && !is_separator_char(s[n1 + 1]) && s[n1 + 1] != ' ' && s[
        n1 + 1] != ':' && s[n1 + 1] != ',' && !is_numeric_char(s[n1 + 1]));
    lemma_word_end_is(s, n1 + 1, n);
    assert(s.subrange(n1 + 1, n) =~= w2);
    let acc2 = push_word(acc1, w2);
    assert(acc2 =~= seq![TokenModel::Identifier(w1 + " "@ + w2)]);
    assert(spec_scan_from(s, n1 + 1, acc1) == spec_scan_from(s, n, acc2));
    assert(spec_scan_from(s, n, acc2) == Ok::<Seq<TokenModel>, ScanErrorModel>(acc2));
}

} // verus!
