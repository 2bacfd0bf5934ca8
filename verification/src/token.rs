//! What the parser can expect at a position, and the furthest failure of a parse.

use vstd::prelude::*;

verus! {

/// Something that the parser looked for and did not find: a literal of the
/// grammar, a class of characters, a name, or the end of the input.
#[derive(Debug, Clone, Copy, PartialEq, Eq, Structural)]
pub enum Token {
    /// The literal `&`.
    Amp,
    /// The literal `*`.
    Star,
    /// The literal `?`.
    Question,
    /// The literal `|`.
    Pipe,
    /// The literal `end`.
    End,
    /// The literal `:`.
    Colon,
    /// The literal `{`.
    LBrace,
    /// The literal `}`.
    RBrace,
    /// The literal `,`.
    Comma,
    /// The literal `type`.
    Type,
    /// The literal `=`.
    Assign,
    /// The literal `<`.
    Less,
    /// The literal `>`.
    Greater,
    /// The literal `(*`.
    CommentOpen,
    /// The literal `*)`.
    CommentClose,
    /// The literal `pass`.
    Pass,
    /// The literal `-`.
    Minus,
    /// The literal `.`.
    Dot,
    /// The literal `true`.
    True,
    /// The literal `false`.
    False,
    /// The literal `"`.
    Quote,
    /// The literal `'`.
    Apostrophe,
    /// The literal `@`.
    At,
    /// The literal `..`.
    DotDot,
    /// The literal `(`.
    LParen,
    /// The literal `)`.
    RParen,
    /// The literal `let`.
    Let,
    /// The literal `[`.
    LBracket,
    /// The literal `]`.
    RBracket,
    /// The literal `struct`.
    Struct,
    /// The literal `+`.
    Plus,
    /// The literal `/`.
    Slash,
    /// The literal `gte`.
    Gte,
    /// The literal `lte`.
    Lte,
    /// The literal `gt`.
    Gt,
    /// The literal `lt`.
    Lt,
    /// The literal `eq`.
    Eq,
    /// The literal `neq`.
    Neq,
    /// The literal `and`.
    And,
    /// The literal `or`.
    Or,
    /// The literal `shl`.
    Shl,
    /// The literal `shr`.
    Shr,
    /// The literal `band`.
    Band,
    /// The literal `bor`.
    Bor,
    /// The literal `xor`.
    Xor,
    /// The literal `rotl`.
    Rotl,
    /// The literal `rotr`.
    Rotr,
    /// The literal `if`.
    If,
    /// The literal `then`.
    Then,
    /// The literal `else`.
    Else,
    /// The literal `for`.
    For,
    /// The literal `in`.
    In,
    /// The literal `match`.
    Match,
    /// The literal `with`.
    With,
    /// The literal `->`.
    Arrow,
    /// The literal `~`.
    Tilde,
    /// The literal `;`.
    Semicolon,
    /// A decimal digit.
    Digit,
    /// A character other than `"`.
    NotQuote,
    /// A character other than `'`.
    NotApostrophe,
    /// Any character.
    AnyChar,
    /// A name, where the grammar asks for one.
    Identifier,
    /// An integer literal that fits in 64 bits.
    I64,
    /// The end of the input.
    EndOfInput,
}

/// The characters that a literal token matches; empty for a token that is no literal.
pub open spec fn token_text(token: Token) -> Seq<char> {
    match token {
        Token::Amp => "&"@,
        Token::Star => "*"@,
        Token::Question => "?"@,
        Token::Pipe => "|"@,
        Token::End => "end"@,
        Token::Colon => ":"@,
        Token::LBrace => "{"@,
        Token::RBrace => "}"@,
        Token::Comma => ","@,
        Token::Type => "type"@,
        Token::Assign => "="@,
        Token::Less => "<"@,
        Token::Greater => ">"@,
        Token::CommentOpen => "(*"@,
        Token::CommentClose => "*)"@,
        Token::Pass => "pass"@,
        Token::Minus => "-"@,
        Token::Dot => "."@,
        Token::True => "true"@,
        Token::False => "false"@,
        Token::Quote => "\""@,
        Token::Apostrophe => "'"@,
        Token::At => "@"@,
        Token::DotDot => ".."@,
        Token::LParen => "("@,
        Token::RParen => ")"@,
        Token::Let => "let"@,
        Token::LBracket => "["@,
        Token::RBracket => "]"@,
        Token::Struct => "struct"@,
        Token::Plus => "+"@,
        Token::Slash => "/"@,
        Token::Gte => "gte"@,
        Token::Lte => "lte"@,
        Token::Gt => "gt"@,
        Token::Lt => "lt"@,
        Token::Eq => "eq"@,
        Token::Neq => "neq"@,
        Token::And => "and"@,
        Token::Or => "or"@,
        Token::Shl => "shl"@,
        Token::Shr => "shr"@,
        Token::Band => "band"@,
        Token::Bor => "bor"@,
        Token::Xor => "xor"@,
        Token::Rotl => "rotl"@,
        Token::Rotr => "rotr"@,
        Token::If => "if"@,
        Token::Then => "then"@,
        Token::Else => "else"@,
        Token::For => "for"@,
        Token::In => "in"@,
        Token::Match => "match"@,
        Token::With => "with"@,
        Token::Arrow => "->"@,
        Token::Tilde => "~"@,
        Token::Semicolon => ";"@,
        _ => ""@,
    }
}

/// How a token is shown in a report: a literal in double quotes, a class in
/// square brackets, a name or the end of the input by a word.
pub open spec fn token_label(token: Token) -> Seq<char> {
    match token {
        Token::Amp => "\"&\""@,
        Token::Star => "\"*\""@,
        Token::Question => "\"?\""@,
        Token::Pipe => "\"|\""@,
        Token::End => "\"end\""@,
        Token::Colon => "\":\""@,
        Token::LBrace => "\"{\""@,
        Token::RBrace => "\"}\""@,
        Token::Comma => "\",\""@,
        Token::Type => "\"type\""@,
        Token::Assign => "\"=\""@,
        Token::Less => "\"<\""@,
        Token::Greater => "\">\""@,
        Token::CommentOpen => "\"(*\""@,
        Token::CommentClose => "\"*)\""@,
        Token::Pass => "\"pass\""@,
        Token::Minus => "\"-\""@,
        Token::Dot => "\".\""@,
        Token::True => "\"true\""@,
        Token::False => "\"false\""@,
        Token::Quote => "\"\\\"\""@,
        Token::Apostrophe => "\"'\""@,
        Token::At => "\"@\""@,
        Token::DotDot => "\"..\""@,
        Token::LParen => "\"(\""@,
        Token::RParen => "\")\""@,
        Token::Let => "\"let\""@,
        Token::LBracket => "\"[\""@,
        Token::RBracket => "\"]\""@,
        Token::Struct => "\"struct\""@,
        Token::Plus => "\"+\""@,
        Token::Slash => "\"/\""@,
        Token::Gte => "\"gte\""@,
        Token::Lte => "\"lte\""@,
        Token::Gt => "\"gt\""@,
        Token::Lt => "\"lt\""@,
        Token::Eq => "\"eq\""@,
        Token::Neq => "\"neq\""@,
        Token::And => "\"and\""@,
        Token::Or => "\"or\""@,
        Token::Shl => "\"shl\""@,
        Token::Shr => "\"shr\""@,
        Token::Band => "\"band\""@,
        Token::Bor => "\"bor\""@,
        Token::Xor => "\"xor\""@,
        Token::Rotl => "\"rotl\""@,
        Token::Rotr => "\"rotr\""@,
        Token::If => "\"if\""@,
        Token::Then => "\"then\""@,
        Token::Else => "\"else\""@,
        Token::For => "\"for\""@,
        Token::In => "\"in\""@,
        Token::Match => "\"match\""@,
        Token::With => "\"with\""@,
        Token::Arrow => "\"->\""@,
        Token::Tilde => "\"~\""@,
        Token::Semicolon => "\";\""@,
        Token::Digit => "['0'..='9']"@,
        Token::NotQuote => "[^ '\"']"@,
        Token::NotApostrophe => "[^ '\\'']"@,
        Token::AnyChar => "[_]"@,
        Token::Identifier => "identifier"@,
        Token::I64 => "i64"@,
        Token::EndOfInput => "EOF"@,
    }
}

impl Token {
    /// The characters that a literal token matches.
    pub fn text(&self) -> (text: &'static str)
        ensures
            text@ == token_text(*self),
    {
        match self {
            Token::Amp => "&",
            Token::Star => "*",
            Token::Question => "?",
            Token::Pipe => "|",
            Token::End => "end",
            Token::Colon => ":",
            Token::LBrace => "{",
            Token::RBrace => "}",
            Token::Comma => ",",
            Token::Type => "type",
            Token::Assign => "=",
            Token::Less => "<",
            Token::Greater => ">",
            Token::CommentOpen => "(*",
            Token::CommentClose => "*)",
            Token::Pass => "pass",
            Token::Minus => "-",
            Token::Dot => ".",
            Token::True => "true",
            Token::False => "false",
            Token::Quote => "\"",
            Token::Apostrophe => "'",
            Token::At => "@",
            Token::DotDot => "..",
            Token::LParen => "(",
            Token::RParen => ")",
            Token::Let => "let",
            Token::LBracket => "[",
            Token::RBracket => "]",
            Token::Struct => "struct",
            Token::Plus => "+",
            Token::Slash => "/",
            Token::Gte => "gte",
            Token::Lte => "lte",
            Token::Gt => "gt",
            Token::Lt => "lt",
            Token::Eq => "eq",
            Token::Neq => "neq",
            Token::And => "and",
            Token::Or => "or",
            Token::Shl => "shl",
            Token::Shr => "shr",
            Token::Band => "band",
            Token::Bor => "bor",
            Token::Xor => "xor",
            Token::Rotl => "rotl",
            Token::Rotr => "rotr",
            Token::If => "if",
            Token::Then => "then",
            Token::Else => "else",
            Token::For => "for",
            Token::In => "in",
            Token::Match => "match",
            Token::With => "with",
            Token::Arrow => "->",
            Token::Tilde => "~",
            Token::Semicolon => ";",
            _ => "",
        }
    }

    /// How the token is shown in a report.
    pub fn label(&self) -> (label: &'static str)
        ensures
            label@ == token_label(*self),
    {
        match self {
            Token::Amp => "\"&\"",
            Token::Star => "\"*\"",
            Token::Question => "\"?\"",
            Token::Pipe => "\"|\"",
            Token::End => "\"end\"",
            Token::Colon => "\":\"",
            Token::LBrace => "\"{\"",
            Token::RBrace => "\"}\"",
            Token::Comma => "\",\"",
            Token::Type => "\"type\"",
            Token::Assign => "\"=\"",
            Token::Less => "\"<\"",
            Token::Greater => "\">\"",
            Token::CommentOpen => "\"(*\"",
            Token::CommentClose => "\"*)\"",
            Token::Pass => "\"pass\"",
            Token::Minus => "\"-\"",
            Token::Dot => "\".\"",
            Token::True => "\"true\"",
            Token::False => "\"false\"",
            Token::Quote => "\"\\\"\"",
            Token::Apostrophe => "\"'\"",
            Token::At => "\"@\"",
            Token::DotDot => "\"..\"",
            Token::LParen => "\"(\"",
            Token::RParen => "\")\"",
            Token::Let => "\"let\"",
            Token::LBracket => "\"[\"",
            Token::RBracket => "\"]\"",
            Token::Struct => "\"struct\"",
            Token::Plus => "\"+\"",
            Token::Slash => "\"/\"",
            Token::Gte => "\"gte\"",
            Token::Lte => "\"lte\"",
            Token::Gt => "\"gt\"",
            Token::Lt => "\"lt\"",
            Token::Eq => "\"eq\"",
            Token::Neq => "\"neq\"",
            Token::And => "\"and\"",
            Token::Or => "\"or\"",
            Token::Shl => "\"shl\"",
            Token::Shr => "\"shr\"",
            Token::Band => "\"band\"",
            Token::Bor => "\"bor\"",
            Token::Xor => "\"xor\"",
            Token::Rotl => "\"rotl\"",
            Token::Rotr => "\"rotr\"",
            Token::If => "\"if\"",
            Token::Then => "\"then\"",
            Token::Else => "\"else\"",
            Token::For => "\"for\"",
            Token::In => "\"in\"",
            Token::Match => "\"match\"",
            Token::With => "\"with\"",
            Token::Arrow => "\"->\"",
            Token::Tilde => "\"~\"",
            Token::Semicolon => "\";\"",
            Token::Digit => "['0'..='9']",
            Token::NotQuote => "[^ '\"']",
            Token::NotApostrophe => "[^ '\\'']",
            Token::AnyChar => "[_]",
            Token::Identifier => "identifier",
            Token::I64 => "i64",
            Token::EndOfInput => "EOF",
        }
    }
}

/// The furthest position at which a parse failed to find something, and what
/// it looked for there, each token once, in the order in which it was first missed.
pub struct Far {
    pub pos: int,
    pub expected: Seq<Token>,
}

/// The state before anything failed: position 0, nothing expected.
pub open spec fn far_start() -> Far {
    Far { pos: 0, expected: Seq::empty() }
}

/// A failure to find `token` at `pos`: beyond the furthest so far it starts
/// a new set, at the furthest it joins the set, before it it is forgotten.
pub open spec fn mark(far: Far, pos: int, token: Token) -> Far {
    if pos > far.pos {
        Far { pos, expected: seq![token] }
    } else if pos == far.pos && !far.expected.contains(token) {
        Far { pos, expected: far.expected.push(token) }
    } else {
        far
    }
}

/// The furthest failure of a parse that is under way.
#[derive(Debug, Clone, PartialEq, Eq)]
pub struct Furthest {
    pub pos: usize,
    pub expected: Vec<Token>,
}

impl View for Furthest {
    type V = Far;

    open spec fn view(&self) -> Far {
        Far { pos: self.pos as int, expected: self.expected@ }
    }
}

impl Furthest {
    /// The state before anything failed.
    pub fn new() -> (far: Self)
        ensures
            far@ == far_start(),
    {
        Furthest { pos: 0, expected: Vec::new() }
    }

    /// Whether `token` is among the expected ones.
    pub fn expects(&self, token: Token) -> (found: bool)
        ensures
            found == self@.expected.contains(token),
    {
        let mut i: usize = 0;
        while i < self.expected.len()
            invariant
                i <= self.expected.len(),
                forall|j: int| 0 <= j < i ==> self.expected@[j] != token,
            decreases self.expected.len() - i,
        {
            if self.expected[i] == token {
                return true;
            }
            i += 1;
        }
        false
    }

    /// Records a failure to find `token` at `pos`.
    pub fn mark(&mut self, pos: usize, token: Token)
        ensures
            final(self)@ == mark(old(self)@, pos as int, token),
    {
        if pos > self.pos {
            self.pos = pos;
            self.expected = Vec::new();
            self.expected.push(token);
            assert(self.expected@ =~= seq![token]);
        } else if pos == self.pos {
            if !self.expects(token) {
                self.expected.push(token);
            }
        }
    }
}

/// The outcome of one grammar rule at one position: the value and the end
/// position of a match, or no value; and the furthest failure after it.
pub struct Step<T> {
    pub value: Option<T>,
    pub end: int,
    pub far: Far,
}

/// A match.
pub open spec fn ok<T>(value: T, end: int, far: Far) -> Step<T> {
    Step { value: Some(value), end, far }
}

/// No match.
pub open spec fn fail<T>(far: Far) -> Step<T> {
    Step { value: None, end: 0, far }
}

/// A match that ends outside `lo..=hi` counts as no match. Every rule ends a
/// match between its start and the end of the input, so this changes
/// nothing; it is what makes the grammar's recursion well-founded.
pub open spec fn within<T>(step: Step<T>, lo: int, hi: nat) -> Step<T> {
    if step.value is Some && !(lo <= step.end <= hi) {
        fail(step.far)
    } else {
        step
    }
}

} // verus!
