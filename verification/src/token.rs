use crate::location::FileLocation;
use vstd::prelude::*;

verus! {

#[derive(Debug, Clone, Copy, PartialEq, Eq, Structural)]
pub enum TokenType {
    LeftParen,
    RightParen,
    LeftBrace,
    RightBrace,
    Comma,
    Dot,
    Minus,
    Plus,
    Semicolon,
    Slash,
    Star,
    // One or two character tokens.
    Bang,
    BangEqual,
    Equal,
    EqualEqual,
    Greater,
    GreaterEqual,
    Less,
    LessEqual,
    // Literals.
    Identifier,
    String,
    Number,
    // Keywords.
    And,
    Class,
    Else,
    False,
    Fun,
    For,
    If,
    Nil,
    Or,
    Print,
    Return,
    Super,
    This,
    True,
    Var,
    While,
    Eof,
}

/// The name under which a token type is shown (the name of its variant).
pub open spec fn spec_token_type_name(t: TokenType) -> Seq<char> {
    match t {
        TokenType::LeftParen => "LeftParen"@,
        TokenType::RightParen => "RightParen"@,
        TokenType::LeftBrace => "LeftBrace"@,
        TokenType::RightBrace => "RightBrace"@,
        TokenType::Comma => "Comma"@,
        TokenType::Dot => "Dot"@,
        TokenType::Minus => "Minus"@,
        TokenType::Plus => "Plus"@,
        TokenType::Semicolon => "Semicolon"@,
        TokenType::Slash => "Slash"@,
        TokenType::Star => "Star"@,
        TokenType::Bang => "Bang"@,
        TokenType::BangEqual => "BangEqual"@,
        TokenType::Equal => "Equal"@,
        TokenType::EqualEqual => "EqualEqual"@,
        TokenType::Greater => "Greater"@,
        TokenType::GreaterEqual => "GreaterEqual"@,
        TokenType::Less => "Less"@,
        TokenType::LessEqual => "LessEqual"@,
        TokenType::Identifier => "Identifier"@,
        TokenType::String => "String"@,
        TokenType::Number => "Number"@,
        TokenType::And => "And"@,
        TokenType::Class => "Class"@,
        TokenType::Else => "Else"@,
        TokenType::False => "False"@,
        TokenType::Fun => "Fun"@,
        TokenType::For => "For"@,
        TokenType::If => "If"@,
        TokenType::Nil => "Nil"@,
        TokenType::Or => "Or"@,
        TokenType::Print => "Print"@,
        TokenType::Return => "Return"@,
        TokenType::Super => "Super"@,
        TokenType::This => "This"@,
        TokenType::True => "True"@,
        TokenType::Var => "Var"@,
        TokenType::While => "While"@,
        TokenType::Eof => "Eof"@,
    }
}

pub fn token_type_name(t: TokenType) -> (s: &'static str)
    ensures
        s@ == spec_token_type_name(t),
{
    match t {
        TokenType::LeftParen => "LeftParen",
        TokenType::RightParen => "RightParen",
        TokenType::LeftBrace => "LeftBrace",
        TokenType::RightBrace => "RightBrace",
        TokenType::Comma => "Comma",
        TokenType::Dot => "Dot",
        TokenType::Minus => "Minus",
        TokenType::Plus => "Plus",
        TokenType::Semicolon => "Semicolon",
        TokenType::Slash => "Slash",
        TokenType::Star => "Star",
        TokenType::Bang => "Bang",
        TokenType::BangEqual => "BangEqual",
        TokenType::Equal => "Equal",
        TokenType::EqualEqual => "EqualEqual",
        TokenType::Greater => "Greater",
        TokenType::GreaterEqual => "GreaterEqual",
        TokenType::Less => "Less",
        TokenType::LessEqual => "LessEqual",
        TokenType::Identifier => "Identifier",
        TokenType::String => "String",
        TokenType::Number => "Number",
        TokenType::And => "And",
        TokenType::Class => "Class",
        TokenType::Else => "Else",
        TokenType::False => "False",
        TokenType::Fun => "Fun",
        TokenType::For => "For",
        TokenType::If => "If",
        TokenType::Nil => "Nil",
        TokenType::Or => "Or",
        TokenType::Print => "Print",
        TokenType::Return => "Return",
        TokenType::Super => "Super",
        TokenType::This => "This",
        TokenType::True => "True",
        TokenType::Var => "Var",
        TokenType::While => "While",
        TokenType::Eof => "Eof",
    }
}

/// The reserved words of Lox, each with the token type it scans to.
pub open spec fn spec_keyword_table() -> Seq<(Seq<char>, TokenType)> {
    seq![
        ("and"@, TokenType::And),
        ("class"@, TokenType::Class),
        ("else"@, TokenType::Else),
        ("false"@, TokenType::False),
        ("for"@, TokenType::For),
        ("fun"@, TokenType::Fun),
        ("if"@, TokenType::If),
        ("nil"@, TokenType::Nil),
        ("or"@, TokenType::Or),
        ("print"@, TokenType::Print),
        ("return"@, TokenType::Return),
        ("super"@, TokenType::Super),
        ("this"@, TokenType::This),
        ("true"@, TokenType::True),
        ("var"@, TokenType::Var),
        ("while"@, TokenType::While),
    ]
}

/// The token type of the first entry of `table` whose word is `lexeme`.
pub open spec fn spec_lookup(table: Seq<(Seq<char>, TokenType)>, lexeme: Seq<char>) -> Option<TokenType>
    decreases table.len(),
{
    if table.len() == 0 {
        None
    } else if table[0].0 == lexeme {
        Some(table[0].1)
    } else {
        spec_lookup(table.drop_first(), lexeme)
    }
}

/// The keyword that `lexeme` spells, if any.
pub open spec fn spec_keyword(lexeme: Seq<char>) -> Option<TokenType> {
    spec_lookup(spec_keyword_table(), lexeme)
}

/// The table of reserved words.
pub struct Keywords {
    keywords: Vec<(String, TokenType)>,
}

impl Keywords {
    pub closed spec fn table(&self) -> Seq<(Seq<char>, TokenType)> {
        self.keywords@.map_values(|e: (String, TokenType)| (e.0@, e.1))
    }

    pub fn build() -> (k: Self)
        ensures
            k.table() == spec_keyword_table(),
    {
        let mut keywords: Vec<(String, TokenType)> = Vec::new();
        keywords.push((String::from_str("and"), TokenType::And));
        keywords.push((String::from_str("class"), TokenType::Class));
        keywords.push((String::from_str("else"), TokenType::Else));
        keywords.push((String::from_str("false"), TokenType::False));
        keywords.push((String::from_str("for"), TokenType::For));
        keywords.push((String::from_str("fun"), TokenType::Fun));
        keywords.push((String::from_str("if"), TokenType::If));
        keywords.push((String::from_str("nil"), TokenType::Nil));
        keywords.push((String::from_str("or"), TokenType::Or));
        keywords.push((String::from_str("print"), TokenType::Print));
        keywords.push((String::from_str("return"), TokenType::Return));
        keywords.push((String::from_str("super"), TokenType::Super));
        keywords.push((String::from_str("this"), TokenType::This));
        keywords.push((String::from_str("true"), TokenType::True));
        keywords.push((String::from_str("var"), TokenType::Var));
        keywords.push((String::from_str("while"), TokenType::While));
        let k = Keywords { keywords };
        assert(k.table() =~= spec_keyword_table());
        k
    }

    /// The keyword that `lexeme` spells in this table, if any.
    pub fn get_keyword(&self, lexeme: &str) -> (r: Option<TokenType>)
        ensures
            r == spec_lookup(self.table(), lexeme@),
    {
        let mut i: usize = 0;
        assert(self.table().skip(0) =~= self.table());
        while i < self.keywords.len()
            invariant
                0 <= i <= self.keywords.len(),
                self.table().len() == self.keywords.len(),
                spec_lookup(self.table(), lexeme@) == spec_lookup(self.table().skip(i as int), lexeme@),
            decreases self.keywords.len() - i,
        {
            let ghost rest = self.table().skip(i as int);
            assert(rest.drop_first() =~= self.table().skip(i + 1));
            assert(rest[0] == (self.keywords@[i as int].0@, self.keywords@[i as int].1));
            if str_equal(self.keywords[i].0.as_str(), lexeme) {
                return Some(self.keywords[i].1);
            }
            i = i + 1;
        }
        None
    }
}

/// Whether two strings hold the same characters.
pub fn str_equal(a: &str, b: &str) -> (r: bool)
    ensures
        r == (a@ == b@),
{
    let ca = crate::text::chars_of(a);
    let cb = crate::text::chars_of(b);
    if ca.len() != cb.len() {
        return false;
    }
    let mut i: usize = 0;
    while i < ca.len()
        invariant
            ca@ == a@,
            cb@ == b@,
            ca.len() == cb.len(),
            0 <= i <= ca.len(),
            forall|j: int| 0 <= j < i ==> ca@[j] == cb@[j],
        decreases ca.len() - i,
    {
        if ca[i] != cb[i] {
            return false;
        }
        i = i + 1;
    }
    assert(a@ =~= b@);
    true
}

/// The value a literal token denotes.  A number keeps the digits as written.
#[derive(Debug, PartialEq)]
pub enum Literal {
    String(String),
    Number(String),
    True,
    False,
    Nil,
}

pub enum LiteralView {
    String(Seq<char>),
    Number(Seq<char>),
    True,
    False,
    Nil,
}

impl View for Literal {
    type V = LiteralView;

    open spec fn view(&self) -> LiteralView {
        match self {
            Literal::String(s) => LiteralView::String(s@),
            Literal::Number(s) => LiteralView::Number(s@),
            Literal::True => LiteralView::True,
            Literal::False => LiteralView::False,
            Literal::Nil => LiteralView::Nil,
        }
    }
}

pub open spec fn opt_literal_view(l: Option<Literal>) -> Option<LiteralView> {
    match l {
        Some(l) => Some(l@),
        None => None,
    }
}

/// The literal that a keyword token carries.
pub open spec fn spec_keyword_literal(token_type: TokenType) -> Option<LiteralView> {
    match token_type {
        TokenType::False => Some(LiteralView::False),
        TokenType::True => Some(LiteralView::True),
        TokenType::Nil => Some(LiteralView::Nil),
        _ => None,
    }
}

pub fn get_keyword_literal(token_type: &TokenType) -> (r: Option<Literal>)
    ensures
        opt_literal_view(r) == spec_keyword_literal(*token_type),
{
    match token_type {
        TokenType::False => Some(Literal::False),
        TokenType::True => Some(Literal::True),
        TokenType::Nil => Some(Literal::Nil),
        _ => None,
    }
}

impl Literal {
    pub fn clone_literal(&self) -> (r: Literal)
        ensures
            r@ == self@,
    {
        match self {
            Literal::String(s) => Literal::String(s.clone()),
            Literal::Number(s) => Literal::Number(s.clone()),
            Literal::True => Literal::True,
            Literal::False => Literal::False,
            Literal::Nil => Literal::Nil,
        }
    }
}

#[derive(Debug, PartialEq)]
pub struct Token {
    pub token_type: TokenType,
    pub lexeme: String,
    pub literal: Option<Literal>,
    pub start: FileLocation,
    pub end: FileLocation,
}

pub struct TokenView {
    pub token_type: TokenType,
    pub lexeme: Seq<char>,
    pub literal: Option<LiteralView>,
    pub start: FileLocation,
    pub end: FileLocation,
}

impl View for Token {
    type V = TokenView;

    open spec fn view(&self) -> TokenView {
        TokenView {
            token_type: self.token_type,
            lexeme: self.lexeme@,
            literal: opt_literal_view(self.literal),
            start: self.start,
            end: self.end,
        }
    }
}

impl Token {
    pub fn new(
        token_type: TokenType,
        lexeme: &str,
        start: FileLocation,
        end: FileLocation,
        literal: Option<Literal>,
    ) -> (t: Self)
        ensures
            t.token_type == token_type,
            t.lexeme@ == lexeme@,
            t.literal == literal,
            t.start == start,
            t.end == end,
    {
        Token { token_type, lexeme: String::from_str(lexeme), start, end, literal }
    }

    pub fn clone_token(&self) -> (r: Token)
        ensures
            r@ == self@,
    {
        let literal = match &self.literal {
            Some(l) => Some(l.clone_literal()),
            None => None,
        };
        Token {
            token_type: self.token_type,
            lexeme: self.lexeme.clone(),
            literal,
            start: self.start,
            end: self.end,
        }
    }

    /// The text under which the token is shown: its type, then its lexeme in quotes.
    pub fn to_display_string(&self) -> (s: String)
        ensures
            s@ == spec_token_type_name(self.token_type) + " '"@ + self.lexeme@ + "'"@,
    {
        let mut s = String::from_str(token_type_name(self.token_type));
        s.append(" '");
        s.append(self.lexeme.as_str());
        s.append("'");
        s
    }
}

} // verus!
