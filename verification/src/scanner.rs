use crate::location::FileLocation;
use crate::reporter::{diagnostic, ReportView, Reporter};
use crate::text::{chars_of, is_alphabetic, is_digit, spec_is_alphabetic, spec_is_digit, string_of};
use crate::token::{
    get_keyword_literal, spec_keyword, spec_keyword_literal, Keywords, Literal, LiteralView, Token,
    TokenType, TokenView,
};
use vstd::prelude::*;

verus! {

/// Where the scanner stands: the position at which the current token started,
/// the current position, the indices of the first and last characters of the
/// current token, and the index of the next character to read.
#[derive(Clone, Copy)]
pub struct ScanState {
    pub token_start_line_number: u32,
    pub token_start_line_offset: u32,
    pub current_line_number: u32,
    pub current_line_offset: u32,
    pub start_of_token: usize,
    pub current_end_of_token: usize,
    pub next: usize,
}

pub open spec fn initial_state() -> ScanState {
    ScanState {
        token_start_line_number: 0,
        token_start_line_offset: 0,
        current_line_number: 0,
        current_line_offset: 0,
        start_of_token: 0,
        current_end_of_token: 0,
        next: 0,
    }
}

pub open spec fn state_wf(cs: Seq<char>, st: ScanState) -> bool {
    &&& cs.len() < u32::MAX
    &&& st.next <= cs.len()
    &&& st.current_line_number + st.current_line_offset <= st.next
    &&& st.start_of_token <= st.current_end_of_token
    &&& st.current_end_of_token <= st.next
    &&& (st.next > 0 ==> st.current_end_of_token < st.next)
}

/// Reads the next character.
pub open spec fn spec_advance(st: ScanState) -> ScanState {
    ScanState {
        current_line_offset: (st.current_line_offset + 1) as u32,
        current_end_of_token: st.next,
        next: (st.next + 1) as usize,
        ..st
    }
}

/// Moves to the start of the next line.
pub open spec fn spec_newline(st: ScanState) -> ScanState {
    ScanState {
        current_line_number: (st.current_line_number + 1) as u32,
        current_line_offset: 0,
        ..st
    }
}

pub open spec fn spec_peek_is(cs: Seq<char>, st: ScanState, c: char) -> bool {
    st.next < cs.len() && cs[st.next as int] == c
}

/// The lexeme of the current token.
pub open spec fn spec_lexeme(cs: Seq<char>, st: ScanState) -> Seq<char> {
    cs.subrange(st.start_of_token as int, st.current_end_of_token + 1)
}

pub open spec fn spec_token(
    cs: Seq<char>,
    st: ScanState,
    token_type: TokenType,
    literal: Option<LiteralView>,
) -> TokenView {
    TokenView {
        token_type,
        lexeme: spec_lexeme(cs, st),
        literal,
        start: FileLocation {
            line_number: st.token_start_line_number,
            line_offset: st.token_start_line_offset,
        },
        end: FileLocation {
            line_number: st.current_line_number,
            line_offset: st.current_line_offset,
        },
    }
}

pub open spec fn spec_diagnostic(st: ScanState, message: Seq<char>) -> ReportView {
    diagnostic(
        FileLocation {
            line_number: st.token_start_line_number,
            line_offset: st.token_start_line_offset,
        },
        FileLocation { line_number: st.current_line_number, line_offset: st.current_line_offset },
        message,
    )
}

/// Skips to the end of the line (a comment).
pub open spec fn spec_skip_line(cs: Seq<char>, st: ScanState) -> ScanState
    decreases cs.len() - st.next,
{
    if st.next < cs.len() && st.next < usize::MAX && cs[st.next as int] != '\n' {
        spec_skip_line(cs, spec_advance(st))
    } else {
        st
    }
}

pub open spec fn spec_scan_digits(cs: Seq<char>, st: ScanState) -> ScanState
    decreases cs.len() - st.next,
{
    if st.next < cs.len() && st.next < usize::MAX && spec_is_digit(cs[st.next as int]) {
        spec_scan_digits(cs, spec_advance(st))
    } else {
        st
    }
}

pub open spec fn spec_is_identifier_char(c: char) -> bool {
    spec_is_alphabetic(c) || spec_is_digit(c) || c == '_'
}

pub open spec fn spec_scan_identifier_chars(cs: Seq<char>, st: ScanState) -> ScanState
    decreases cs.len() - st.next,
{
    if st.next < cs.len() && st.next < usize::MAX && spec_is_identifier_char(cs[st.next as int]) {
        spec_scan_identifier_chars(cs, spec_advance(st))
    } else {
        st
    }
}

/// What one step of scanning produces: the new state, maybe a token, maybe a diagnostic.
pub type Step = (ScanState, Option<TokenView>, Option<ReportView>);

/// Scans the rest of a string literal (the opening quote was read).
pub open spec fn spec_scan_string(cs: Seq<char>, st: ScanState) -> Step
    decreases cs.len() - st.next,
{
    if st.next >= cs.len() || st.next >= usize::MAX {
        (st, None, Some(spec_diagnostic(st, "Unterminated string"@)))
    } else {
        let c = cs[st.next as int];
        let st1 = spec_advance(st);
        let st2 = if c == '\n' { spec_newline(st1) } else { st1 };
        if c == '"' {
            (
                st2,
                Some(
                    spec_token(
                        cs,
                        st2,
                        TokenType::String,
                        Some(
                            LiteralView::String(
                                cs.subrange(st2.start_of_token + 1, st2.current_end_of_token as int),
                            ),
                        ),
                    ),
                ),
                None,
            )
        } else {
            spec_scan_string(cs, st2)
        }
    }
}

/// Scans the rest of a number (its first digit was read).
pub open spec fn spec_scan_number(cs: Seq<char>, st: ScanState) -> Step {
    let st1 = spec_scan_digits(cs, st);
    let st2 = if spec_peek_is(cs, st1, '.') && st1.next + 1 < cs.len() && spec_is_digit(
        cs[st1.next + 1],
    ) {
        spec_scan_digits(cs, spec_advance(st1))
    } else {
        st1
    };
    (st2, Some(spec_token(cs, st2, TokenType::Number, Some(LiteralView::Number(spec_lexeme(cs, st2))))), None)
}

/// Scans the rest of an identifier or keyword (its first character was read).
pub open spec fn spec_scan_identifier(cs: Seq<char>, st: ScanState) -> Step {
    let st1 = spec_scan_identifier_chars(cs, st);
    match spec_keyword(spec_lexeme(cs, st1)) {
        Some(t) => (st1, Some(spec_token(cs, st1, t, spec_keyword_literal(t))), None),
        None => (st1, Some(spec_token(cs, st1, TokenType::Identifier, None)), None),
    }
}

pub open spec fn spec_simple(cs: Seq<char>, st: ScanState, t: TokenType) -> Step {
    (st, Some(spec_token(cs, st, t, None)), None)
}

/// A one or two character operator: `two` when `=` follows, `one` otherwise.
pub open spec fn spec_with_equal(cs: Seq<char>, st: ScanState, one: TokenType, two: TokenType) -> Step {
    if spec_peek_is(cs, st, '=') {
        spec_simple(cs, spec_advance(st), two)
    } else {
        spec_simple(cs, st, one)
    }
}

/// What the scanner does after reading the character `c`.
pub open spec fn spec_parse_character(cs: Seq<char>, st: ScanState, c: char) -> Step {
    if c == '(' {
        spec_simple(cs, st, TokenType::LeftParen)
    } else if c == ')' {
        spec_simple(cs, st, TokenType::RightParen)
    } else if c == '{' {
        spec_simple(cs, st, TokenType::LeftBrace)
    } else if c == '}' {
        spec_simple(cs, st, TokenType::RightBrace)
    } else if c == ',' {
        spec_simple(cs, st, TokenType::Comma)
    } else if c == '.' {
        spec_simple(cs, st, TokenType::Dot)
    } else if c == '-' {
        spec_simple(cs, st, TokenType::Minus)
    } else if c == '+' {
        spec_simple(cs, st, TokenType::Plus)
    } else if c == ';' {
        spec_simple(cs, st, TokenType::Semicolon)
    } else if c == '*' {
        spec_simple(cs, st, TokenType::Star)
    } else if c == '!' {
        spec_with_equal(cs, st, TokenType::Bang, TokenType::BangEqual)
    } else if c == '=' {
        spec_with_equal(cs, st, TokenType::Equal, TokenType::EqualEqual)
    } else if c == '<' {
        spec_with_equal(cs, st, TokenType::Less, TokenType::LessEqual)
    } else if c == '>' {
        spec_with_equal(cs, st, TokenType::Greater, TokenType::GreaterEqual)
    } else if c == '/' {
        if spec_peek_is(cs, st, '/') {
            (spec_skip_line(cs, spec_advance(st)), None, None)
        } else {
            spec_simple(cs, st, TokenType::Slash)
        }
    } else if c == '"' {
        spec_scan_string(cs, st)
    } else if c == ' ' || c == '\r' || c == '\t' {
        (st, None, None)
    } else if c == '\n' {
        (spec_newline(st), None, None)
    } else if spec_is_digit(c) {
        spec_scan_number(cs, st)
    } else if spec_is_alphabetic(c) || c == '_' {
        spec_scan_identifier(cs, st)
    } else {
        (st, None, Some(spec_diagnostic(st, "Unexpected character"@)))
    }
}

pub open spec fn opt_seq<T>(o: Option<T>) -> Seq<T> {
    match o {
        Some(x) => seq![x],
        None => Seq::empty(),
    }
}

/// Marks the current position as the start of the next token.
pub open spec fn spec_begin_token(st: ScanState) -> ScanState {
    ScanState {
        token_start_line_number: st.current_line_number,
        token_start_line_offset: st.current_line_offset,
        ..st
    }
}

/// Reads the first character of the next token.
pub open spec fn spec_first_char(st: ScanState) -> ScanState {
    ScanState { start_of_token: st.next, ..spec_advance(st) }
}

/// The token that ends the list.
pub open spec fn spec_eof_token(cs: Seq<char>, st: ScanState) -> TokenView {
    spec_token(
        cs,
        ScanState { start_of_token: st.current_end_of_token, ..spec_begin_token(st) },
        TokenType::Eof,
        None,
    )
}

/// The tokens and diagnostics that scanning produces from the state `st` onwards.
pub open spec fn spec_scan_from(cs: Seq<char>, st: ScanState) -> (Seq<TokenView>, Seq<ReportView>)
    decreases cs.len() - st.next,
{
    let st0 = spec_begin_token(st);
    if st0.next < cs.len() {
        let c = cs[st0.next as int];
        let st1 = spec_first_char(st0);
        let step = spec_parse_character(cs, st1, c);
        if st.next < step.0.next <= cs.len() {
            let rest = spec_scan_from(cs, step.0);
            (opt_seq(step.1) + rest.0, opt_seq(step.2) + rest.1)
        } else {
            (Seq::empty(), Seq::empty())
        }
    } else {
        (seq![spec_eof_token(cs, st0)], Seq::empty())
    }
}

/// The tokens and diagnostics that scanning `cs` produces.
pub open spec fn spec_scan(cs: Seq<char>) -> (Seq<TokenView>, Seq<ReportView>) {
    spec_scan_from(cs, initial_state())
}

/// Whether every token that scanning `cs` builds ends with a one-byte (ASCII)
/// character, so that its lexeme can be cut out of the text on character
/// boundaries.  Scanning an empty text, or one where this fails, is not defined.
pub open spec fn spec_scannable(cs: Seq<char>) -> bool {
    &&& 0 < cs.len() < u32::MAX
    &&& forall|i: int|
        0 <= i < spec_scan(cs).0.len() ==> {
            let lexeme = #[trigger] spec_scan(cs).0[i].lexeme;
            lexeme.len() > 0 && (lexeme.last() as u32) < 128
        }
}

pub open spec fn tokens_view(ts: Seq<Token>) -> Seq<TokenView> {
    ts.map_values(|t: Token| t@)
}

proof fn lemma_skip_line_wf(cs: Seq<char>, st: ScanState)
    requires
        state_wf(cs, st),
    ensures
        state_wf(cs, spec_skip_line(cs, st)),
        spec_skip_line(cs, st).next >= st.next,
        spec_skip_line(cs, st).current_line_number == st.current_line_number,
        spec_skip_line(cs, st).start_of_token == st.start_of_token,
        spec_skip_line(cs, st).token_start_line_number == st.token_start_line_number,
        spec_skip_line(cs, st).token_start_line_offset == st.token_start_line_offset,
    decreases cs.len() - st.next,
{
    if st.next < cs.len() && cs[st.next as int] != '\n' {
        lemma_skip_line_wf(cs, spec_advance(st));
    }
}

proof fn lemma_scan_digits_wf(cs: Seq<char>, st: ScanState)
    requires
        state_wf(cs, st),
    ensures
        state_wf(cs, spec_scan_digits(cs, st)),
        spec_scan_digits(cs, st).next >= st.next,
        spec_scan_digits(cs, st).current_line_number == st.current_line_number,
        spec_scan_digits(cs, st).start_of_token == st.start_of_token,
        spec_scan_digits(cs, st).token_start_line_number == st.token_start_line_number,
        spec_scan_digits(cs, st).token_start_line_offset == st.token_start_line_offset,
    decreases cs.len() - st.next,
{
    if st.next < cs.len() && spec_is_digit(cs[st.next as int]) {
        lemma_scan_digits_wf(cs, spec_advance(st));
    }
}

proof fn lemma_scan_identifier_chars_wf(cs: Seq<char>, st: ScanState)
    requires
        state_wf(cs, st),
    ensures
        state_wf(cs, spec_scan_identifier_chars(cs, st)),
        spec_scan_identifier_chars(cs, st).next >= st.next,
        spec_scan_identifier_chars(cs, st).current_line_number == st.current_line_number,
        spec_scan_identifier_chars(cs, st).start_of_token == st.start_of_token,
        spec_scan_identifier_chars(cs, st).token_start_line_number == st.token_start_line_number,
        spec_scan_identifier_chars(cs, st).token_start_line_offset == st.token_start_line_offset,
    decreases cs.len() - st.next,
{
    if st.next < cs.len() && spec_is_identifier_char(cs[st.next as int]) {
        lemma_scan_identifier_chars_wf(cs, spec_advance(st));
    }
}

proof fn lemma_scan_string_wf(cs: Seq<char>, st: ScanState)
    requires
        state_wf(cs, st),
        st.current_end_of_token < st.next,
    ensures
        state_wf(cs, spec_scan_string(cs, st).0),
        spec_scan_string(cs, st).0.next >= st.next,
        spec_scan_string(cs, st).0.start_of_token == st.start_of_token,
    decreases cs.len() - st.next,
{
    if st.next < cs.len() {
        let c = cs[st.next as int];
        let st1 = spec_advance(st);
        let st2 = if c == '\n' { spec_newline(st1) } else { st1 };
        if c != '"' {
            lemma_scan_string_wf(cs, st2);
        }
    }
}

/// Each step keeps the state well formed and moves forward.
proof fn lemma_parse_character_wf(cs: Seq<char>, st: ScanState, c: char)
    requires
        state_wf(cs, st),
        st.next > 0,
        st.current_line_offset > 0,
    ensures
        state_wf(cs, spec_parse_character(cs, st, c).0),
        spec_parse_character(cs, st, c).0.next >= st.next,
{
    if c == '/' && spec_peek_is(cs, st, '/') {
        lemma_skip_line_wf(cs, spec_advance(st));
    } else if c == '"' {
        lemma_scan_string_wf(cs, st);
    } else if spec_is_digit(c) {
        let st1 = spec_scan_digits(cs, st);
        lemma_scan_digits_wf(cs, st);
        if spec_peek_is(cs, st1, '.') && st1.next + 1 < cs.len() && spec_is_digit(cs[st1.next + 1]) {
            lemma_scan_digits_wf(cs, spec_advance(st1));
        }
    } else if spec_is_alphabetic(c) || c == '_' {
        lemma_scan_identifier_chars_wf(cs, st);
    }
}

pub struct Scanner {
    pub state: ScanState,
    pub keywords: Keywords,
}

impl Scanner {
    pub open spec fn wf(&self, cs: Seq<char>) -> bool {
        &&& state_wf(cs, self.state)
        &&& self.keywords.table() == crate::token::spec_keyword_table()
    }

    pub fn build() -> (s: Self)
        ensures
            s.state == initial_state(),
            s.keywords.table() == crate::token::spec_keyword_table(),
    {
        Scanner {
            state: ScanState {
                token_start_line_number: 0,
                token_start_line_offset: 0,
                current_line_number: 0,
                current_line_offset: 0,
                start_of_token: 0,
                current_end_of_token: 0,
                next: 0,
            },
            keywords: Keywords::build(),
        }
    }

    /// Reads the next character, if there is one.
    pub fn advance(&mut self, cs: &Vec<char>) -> (r: Option<char>)
        requires
            old(self).wf(cs@),
        ensures
            final(self).wf(cs@),
            final(self).keywords == old(self).keywords,
            old(self).state.next < cs.len() ==> r == Some(cs@[old(self).state.next as int])
                && final(self).state == spec_advance(old(self).state),
            old(self).state.next >= cs.len() ==> r is None && final(self).state == old(self).state,
    {
        if self.state.next < cs.len() {
            let c = cs[self.state.next];
            self.state.current_line_offset = self.state.current_line_offset + 1;
            self.state.current_end_of_token = self.state.next;
            self.state.next = self.state.next + 1;
            Some(c)
        } else {
            None
        }
    }

    /// Reads the next character when it is `c`.
    pub fn peek(&mut self, cs: &Vec<char>, c: char) -> (r: bool)
        requires
            old(self).wf(cs@),
        ensures
            final(self).wf(cs@),
            final(self).keywords == old(self).keywords,
            r == spec_peek_is(cs@, old(self).state, c),
            r ==> final(self).state == spec_advance(old(self).state),
            !r ==> final(self).state == old(self).state,
    {
        if self.state.next < cs.len() && cs[self.state.next] == c {
            self.advance(cs);
            true
        } else {
            false
        }
    }

    /// The character after the one at `offset`, if any.
    pub fn peek_next(&self, cs: &Vec<char>, offset: usize) -> (r: Option<char>)
        ensures
            offset + 1 < cs.len() ==> r == Some(cs@[offset + 1]),
            offset + 1 >= cs.len() ==> r is None,
    {
        if offset >= cs.len() || cs.len() - offset < 2 {
            None
        } else {
            Some(cs[offset + 1])
        }
    }

    pub fn build_token(&self, cs: &Vec<char>, token_type: TokenType, literal: Option<Literal>) -> (t: Token)
        requires
            self.wf(cs@),
            self.state.current_end_of_token < cs.len(),
        ensures
            t@ == spec_token(cs@, self.state, token_type, crate::token::opt_literal_view(literal)),
    {
        let lexeme = string_of(cs, self.state.start_of_token, self.state.current_end_of_token + 1);
        Token {
            token_type,
            lexeme,
            literal,
            start: FileLocation::new(
                self.state.token_start_line_number,
                self.state.token_start_line_offset,
            ),
            end: FileLocation::new(self.state.current_line_number, self.state.current_line_offset),
        }
    }

    fn add_diagnostic<R: Reporter>(&self, reporter: &mut R, message: &str)
        ensures
            final(reporter).reports() == old(reporter).reports().push(
                spec_diagnostic(self.state, message@),
            ),
    {
        reporter.add_diagnostic(
            &FileLocation::new(self.state.token_start_line_number, self.state.token_start_line_offset),
            &FileLocation::new(self.state.current_line_number, self.state.current_line_offset),
            message,
        );
    }

    pub fn consume_line(&mut self, cs: &Vec<char>)
        requires
            old(self).wf(cs@),
        ensures
            final(self).wf(cs@),
            final(self).keywords == old(self).keywords,
            final(self).state == spec_skip_line(cs@, old(self).state),
    {
        while self.state.next < cs.len() && cs[self.state.next] != '\n'
            invariant
                self.wf(cs@),
                self.keywords == old(self).keywords,
                spec_skip_line(cs@, self.state) == spec_skip_line(cs@, old(self).state),
            decreases cs.len() - self.state.next,
        {
            self.advance(cs);
        }
    }

    pub fn scan_digits(&mut self, cs: &Vec<char>)
        requires
            old(self).wf(cs@),
        ensures
            final(self).wf(cs@),
            final(self).keywords == old(self).keywords,
            final(self).state == spec_scan_digits(cs@, old(self).state),
    {
        while self.state.next < cs.len() && is_digit(cs[self.state.next])
            invariant
                self.wf(cs@),
                self.keywords == old(self).keywords,
                spec_scan_digits(cs@, self.state) == spec_scan_digits(cs@, old(self).state),
            decreases cs.len() - self.state.next,
        {
            self.advance(cs);
        }
    }

    pub fn build_string<R: Reporter>(&mut self, reporter: &mut R, cs: &Vec<char>) -> (t: Option<Token>)
        requires
            old(self).wf(cs@),
            old(self).state.current_end_of_token < old(self).state.next,
        ensures
            final(self).wf(cs@),
            final(self).keywords == old(self).keywords,
            ({
                let step = spec_scan_string(cs@, old(self).state);
                &&& final(self).state == step.0
                &&& opt_seq(t).map_values(|t: Token| t@) == opt_seq(step.1)
                &&& final(reporter).reports() == old(reporter).reports() + opt_seq(step.2)
            }),
        decreases cs.len() - old(self).state.next,
    {
        let ghost st0 = self.state;
        match self.advance(cs) {
            Some(c) => {
                if c == '\n' {
                    self.state.current_line_offset = 0;
                    self.state.current_line_number = self.state.current_line_number + 1;
                }
                assert(self.state == (if c == '\n' { spec_newline(spec_advance(st0)) } else { spec_advance(st0) }));
                if c == '"' {
                    let contents = string_of(cs, self.state.start_of_token + 1, self.state.current_end_of_token);
                    let t = self.build_token(cs, TokenType::String, Some(Literal::String(contents)));
                    assert(opt_seq(Some(t)).map_values(|t: Token| t@) =~= seq![t@]);
                    assert(old(reporter).reports() + Seq::<ReportView>::empty() =~= old(reporter).reports());
                    Some(t)
                } else {
                    self.build_string(reporter, cs)
                }
            },
            None => {
                self.add_diagnostic(reporter, "Unterminated string");
                assert(opt_seq(None::<Token>).map_values(|t: Token| t@) =~= Seq::<TokenView>::empty());
                assert(old(reporter).reports().push(spec_diagnostic(st0, "Unterminated string"@))
                    =~= old(reporter).reports() + seq![spec_diagnostic(st0, "Unterminated string"@)]);
                None
            },
        }
    }

    pub fn build_number(&mut self, cs: &Vec<char>) -> (t: Token)
        requires
            old(self).wf(cs@),
            old(self).state.next > 0,
        ensures
            final(self).wf(cs@),
            final(self).keywords == old(self).keywords,
            ({
                let step = spec_scan_number(cs@, old(self).state);
                &&& final(self).state == step.0
                &&& step.1 == Some(t@)
            }),
    {
        self.scan_digits(cs);
        let ghost st1 = self.state;
        if self.state.next < cs.len() && cs[self.state.next] == '.' {
            let next_char = self.peek_next(cs, self.state.next);
            match next_char {
                Some(d) => {
                    if is_digit(d) {
                        self.advance(cs);
                        self.scan_digits(cs);
                    }
                },
                None => {},
            }
        }
        let lexeme = string_of(cs, self.state.start_of_token, self.state.current_end_of_token + 1);
        self.build_token(cs, TokenType::Number, Some(Literal::Number(lexeme)))
    }

    pub fn build_identifier(&mut self, cs: &Vec<char>) -> (t: Token)
        requires
            old(self).wf(cs@),
            old(self).state.next > 0,
        ensures
            final(self).wf(cs@),
            final(self).keywords == old(self).keywords,
            ({
                let step = spec_scan_identifier(cs@, old(self).state);
                &&& final(self).state == step.0
                &&& step.1 == Some(t@)
            }),
    {
        while self.state.next < cs.len() && (is_alphabetic(cs[self.state.next]) || is_digit(
            cs[self.state.next],
        ) || cs[self.state.next] == '_')
            invariant
                self.wf(cs@),
                self.keywords == old(self).keywords,
                spec_scan_identifier_chars(cs@, self.state) == spec_scan_identifier_chars(
                    cs@,
                    old(self).state,
                ),
            decreases cs.len() - self.state.next,
        {
            self.advance(cs);
        }
        let token = self.build_token(cs, TokenType::Identifier, None);
        match self.keywords.get_keyword(token.lexeme.as_str()) {
            Some(identifier_token) => {
                let literal = get_keyword_literal(&identifier_token);
                Token { token_type: identifier_token, literal, ..token }
            },
            None => token,
        }
    }

    /// Scans what follows the character `c` that was just read.
    pub fn parse_character<R: Reporter>(&mut self, reporter: &mut R, cs: &Vec<char>, c: char) -> (t: Option<Token>)
        requires
            old(self).wf(cs@),
            old(self).state.next > 0,
            old(self).state.current_line_offset > 0,
        ensures
            final(self).wf(cs@),
            final(self).keywords == old(self).keywords,
            ({
                let step = spec_parse_character(cs@, old(self).state, c);
                &&& final(self).state == step.0
                &&& opt_seq(t).map_values(|t: Token| t@) == opt_seq(step.1)
                &&& final(reporter).reports() == old(reporter).reports() + opt_seq(step.2)
            }),
    {
        let ghost st = self.state;
        proof {
            lemma_parse_character_wf(cs@, st, c);
        }
        let t = if c == '(' {
            Some(self.build_token(cs, TokenType::LeftParen, None))
        } else if c == ')' {
            Some(self.build_token(cs, TokenType::RightParen, None))
        } else if c == '{' {
            Some(self.build_token(cs, TokenType::LeftBrace, None))
        } else if c == '}' {
            Some(self.build_token(cs, TokenType::RightBrace, None))
        } else if c == ',' {
            Some(self.build_token(cs, TokenType::Comma, None))
        } else if c == '.' {
            Some(self.build_token(cs, TokenType::Dot, None))
        } else if c == '-' {
            Some(self.build_token(cs, TokenType::Minus, None))
        } else if c == '+' {
            Some(self.build_token(cs, TokenType::Plus, None))
        } else if c == ';' {
            Some(self.build_token(cs, TokenType::Semicolon, None))
        } else if c == '*' {
            Some(self.build_token(cs, TokenType::Star, None))
        } else if c == '!' {
            if self.peek(cs, '=') {
                Some(self.build_token(cs, TokenType::BangEqual, None))
            } else {
                Some(self.build_token(cs, TokenType::Bang, None))
            }
        } else if c == '=' {
            if self.peek(cs, '=') {
                Some(self.build_token(cs, TokenType::EqualEqual, None))
            } else {
                Some(self.build_token(cs, TokenType::Equal, None))
            }
        } else if c == '<' {
            if self.peek(cs, '=') {
                Some(self.build_token(cs, TokenType::LessEqual, None))
            } else {
                Some(self.build_token(cs, TokenType::Less, None))
            }
        } else if c == '>' {
            if self.peek(cs, '=') {
                Some(self.build_token(cs, TokenType::GreaterEqual, None))
            } else {
                Some(self.build_token(cs, TokenType::Greater, None))
            }
        } else if c == '/' {
            if self.peek(cs, '/') {
                self.consume_line(cs);
                None
            } else {
                Some(self.build_token(cs, TokenType::Slash, None))
            }
        } else if c == '"' {
            return self.build_string(reporter, cs);
        } else if c == ' ' || c == '\r' || c == '\t' {
            None
        } else if c == '\n' {
            self.state.current_line_number = self.state.current_line_number + 1;
            self.state.current_line_offset = 0;
            None
        } else if is_digit(c) {
            Some(self.build_number(cs))
        } else if is_alphabetic(c) || c == '_' {
            Some(self.build_identifier(cs))
        } else {
            self.add_diagnostic(reporter, "Unexpected character");
            assert(old(reporter).reports().push(spec_diagnostic(st, "Unexpected character"@))
                =~= old(reporter).reports() + seq![spec_diagnostic(st, "Unexpected character"@)]);
            assert(opt_seq(None::<Token>).map_values(|t: Token| t@) =~= Seq::<TokenView>::empty());
            return None;
        };
        assert(old(reporter).reports() + Seq::<ReportView>::empty() =~= old(reporter).reports());
        proof {
            if t is Some {
                assert(opt_seq(t).map_values(|t: Token| t@) =~= seq![t->0@]);
            } else {
                assert(opt_seq(t).map_values(|t: Token| t@) =~= Seq::<TokenView>::empty());
            }
        }
        t
    }

    /// Scans all of `cs`, reporting problems to `reporter`.
    pub fn scan<R: Reporter>(&mut self, reporter: &mut R, cs: &Vec<char>) -> (tokens: Vec<Token>)
        requires
            old(self).wf(cs@),
            old(self).state == initial_state(),
            cs.len() > 0,
        ensures
            tokens_view(tokens@) == spec_scan(cs@).0,
            final(reporter).reports() == old(reporter).reports() + spec_scan(cs@).1,
    {
        let mut tokens: Vec<Token> = Vec::new();
        loop
            invariant
                self.wf(cs@),
                cs.len() > 0,
                tokens_view(tokens@) + spec_scan_from(cs@, self.state).0 == spec_scan(cs@).0,
                reporter.reports() + spec_scan_from(cs@, self.state).1 == old(reporter).reports()
                    + spec_scan(cs@).1,
            decreases cs.len() - self.state.next,
        {
            let ghost st = self.state;
            self.state.token_start_line_offset = self.state.current_line_offset;
            self.state.token_start_line_number = self.state.current_line_number;
            let ghost st0 = self.state;
            assert(st0 == spec_begin_token(st));
            let ghost before_tokens = tokens_view(tokens@);
            let ghost before_reports = reporter.reports();
            if let Some(c) = self.advance(cs) {
                let i = self.state.current_end_of_token;
                self.state.start_of_token = i;
                assert(self.state == spec_first_char(st0));
                let ghost st1 = self.state;
                let t = self.parse_character(reporter, cs, c);
                let ghost step = spec_parse_character(cs@, st1, c);
                proof {
                    lemma_parse_character_wf(cs@, st1, c);
                }
                match t {
                    Some(token) => {
                        tokens.push(token);
                    },
                    None => {},
                }
                proof {
                    assert(tokens_view(tokens@) =~= before_tokens + opt_seq(t).map_values(|t: Token| t@));
                    assert(spec_scan_from(cs@, st) == ({
                        let rest = spec_scan_from(cs@, step.0);
                        (opt_seq(step.1) + rest.0, opt_seq(step.2) + rest.1)
                    }));
                    assert(tokens_view(tokens@) + spec_scan_from(cs@, self.state).0
                        =~= before_tokens + spec_scan_from(cs@, st).0);
                    assert(reporter.reports() + spec_scan_from(cs@, self.state).1
                        =~= before_reports + spec_scan_from(cs@, st).1);
                }
            } else {
                let end = self.state.current_end_of_token;
                self.state.start_of_token = end;
                let eof = self.build_token(cs, TokenType::Eof, None);
                assert(eof@ == spec_eof_token(cs@, st0));
                tokens.push(eof);
                proof {
                    assert(tokens_view(tokens@) =~= before_tokens + seq![eof@]);
                    assert(reporter.reports() =~= reporter.reports() + Seq::<ReportView>::empty());
                }
                return tokens;
            }
        }
    }
}

/// Scans the characters of `cs`.  Requires a non-empty text (an empty one has
/// no last character for the end-of-file token).
pub fn scan_chars<R: Reporter>(reporter: &mut R, cs: &Vec<char>) -> (tokens: Vec<Token>)
    requires
        0 < cs.len() < u32::MAX,
    ensures
        tokens_view(tokens@) == spec_scan(cs@).0,
        final(reporter).reports() == old(reporter).reports() + spec_scan(cs@).1,
{
    let mut scanner = Scanner::build();
    scanner.scan(reporter, cs)
}

/// Turns the source text into tokens, ending with an end-of-file token, and
/// reports each unterminated string and unexpected character.
pub fn scan_tokens<R: Reporter>(reporter: &mut R, source: &str) -> (tokens: Vec<Token>)
    requires
        spec_scannable(source@),
    ensures
        tokens_view(tokens@) == spec_scan(source@).0,
        final(reporter).reports() == old(reporter).reports() + spec_scan(source@).1,
{
    let cs = chars_of(source);
    scan_chars(reporter, &cs)
}

/// Whether `source` can be scanned (see `spec_scannable`).
pub fn is_scannable(source: &str) -> (r: bool)
    ensures
        r == spec_scannable(source@),
{
    let cs = chars_of(source);
    if cs.len() == 0 || cs.len() >= 4294967295 {
        return false;
    }
    let mut collector = crate::reporter::Collector::new();
    let tokens = scan_chars(&mut collector, &cs);
    let mut i: usize = 0;
    while i < tokens.len()
        invariant
            0 <= i <= tokens.len(),
            tokens_view(tokens@) == spec_scan(cs@).0,
            cs@ == source@,
            forall|j: int|
                0 <= j < i ==> {
                    let lexeme = #[trigger] spec_scan(cs@).0[j].lexeme;
                    lexeme.len() > 0 && (lexeme.last() as u32) < 128
                },
        decreases tokens.len() - i,
    {
        let lexeme = chars_of(tokens[i].lexeme.as_str());
        assert(spec_scan(cs@).0[i as int] == tokens@[i as int]@);
        assert(lexeme@ == spec_scan(cs@).0[i as int].lexeme);
        if lexeme.len() == 0 {
            return false;
        }
        let last = lexeme[lexeme.len() - 1];
        if (last as u32) > 127 {
            assert(lexeme@.last() == last);
            return false;
        }
        i = i + 1;
    }
    true
}

/// Whether `c` is whitespace between tokens: a space, a carriage return or a tab.
pub open spec fn is_blank(c: char) -> bool {
    c == ' ' || c == '\r' || c == '\t'
}

/// Whitespace between tokens is skipped: where the next character is a space,
/// a carriage return or a tab, scanning gives no token and no diagnostic for
/// it and goes on from the character after it.
pub proof fn law_whitespace_is_skipped(cs: Seq<char>, st: ScanState)
    requires
        st.next < cs.len() < usize::MAX,
        is_blank(cs[st.next as int]),
    ensures
        spec_scan_from(cs, st) == spec_scan_from(cs, spec_first_char(spec_begin_token(st))),
{
}

/// A text that holds nothing but spaces, carriage returns and tabs from `st` on
/// scans to the end token alone, with no diagnostic.
pub proof fn law_blank_text_scans_to_the_end(cs: Seq<char>, st: ScanState)
    requires
        cs.len() < usize::MAX,
        forall|i: int| st.next <= i < cs.len() ==> is_blank(#[trigger] cs[i]),
    ensures
        spec_scan_from(cs, st).1.len() == 0,
        spec_scan_from(cs, st).0.len() == 1,
        spec_scan_from(cs, st).0[0].token_type == TokenType::Eof,
    decreases cs.len() - st.next,
{
    if st.next < cs.len() {
        assert(is_blank(cs[st.next as int]));
        law_whitespace_is_skipped(cs, st);
        law_blank_text_scans_to_the_end(cs, spec_first_char(spec_begin_token(st)));
    }
}

} // verus!
