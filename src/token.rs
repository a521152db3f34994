use vstd::prelude::*;

verus! {

/// A literal value found in the source text.
///
/// A numeric literal carries the digits (and at most one decimal point) as
/// they were written; reading them as a number is left to the consumer.
#[derive(Clone, Debug, PartialEq)]
pub enum Literal {
    Str(String),
    Num(String),
}

/// A classified unit of source text.
#[derive(Clone, Debug, PartialEq)]
pub enum Token {
    // user generated
    Ident(String),
    Lit(Literal),
    // keywords
    Let,
    Mut,
    Def,
    Struct,
    Enum,
    Object,
    If,
    Elif,
    Else,
    Match,
    True,
    False,
    // newlines/whitespace
    NewLine,
    Space,
    Tab,
    // surrounding chars
    LParen,
    RParen,
    LSquirly,
    RSquirly,
    LBrack,
    RBrack,
    SingleQuote,
    DoubleQuote,
    LAngle,
    RAngle,
    // symbols
    Comma,
    Dot,
    Pipe,
    Plus,
    Dash,
    Underscore,
    Equal,
    FSlash,
    BSlash,
    Colon,
    SemiColon,
    Bang,
    At,
    Octothorpe,
    Dollar,
    Percent,
    Caret,
    Ampersand,
    Asterisk,
    Question,
    Tilde,
    Grave,
    EOF,
}

/// The punctuation and bracket bytes that stand for a token on their own.
pub open spec fn symbol_token(b: u8) -> Option<Token> {
    match b {
        0x7b => Some(Token::LSquirly),
        0x7d => Some(Token::RSquirly),
        0x28 => Some(Token::LParen),
        0x29 => Some(Token::RParen),
        0x5b => Some(Token::LBrack),
        0x5d => Some(Token::RBrack),
        0x3c => Some(Token::LAngle),
        0x3e => Some(Token::RAngle),
        0x2c => Some(Token::Comma),
        0x2e => Some(Token::Dot),
        0x3f => Some(Token::Question),
        0x3a => Some(Token::Colon),
        0x3b => Some(Token::SemiColon),
        0x21 => Some(Token::Bang),
        0x40 => Some(Token::At),
        0x23 => Some(Token::Octothorpe),
        0x24 => Some(Token::Dollar),
        0x25 => Some(Token::Percent),
        0x5e => Some(Token::Caret),
        0x26 => Some(Token::Ampersand),
        0x2a => Some(Token::Asterisk),
        0x2d => Some(Token::Dash),
        0x3d => Some(Token::Equal),
        0x2b => Some(Token::Plus),
        0x7c => Some(Token::Pipe),
        0x5c => Some(Token::BSlash),
        0x2f => Some(Token::FSlash),
        0x7e => Some(Token::Tilde),
        0x60 => Some(Token::Grave),
        _ => None,
    }
}

/// Every byte that is a token by itself: the symbols, a tab and a newline.
pub open spec fn fixed_token(b: u8) -> Option<Token> {
    if b == 0x09 {
        Some(Token::Tab)
    } else if b == 0x0a {
        Some(Token::NewLine)
    } else {
        symbol_token(b)
    }
}

/// Looks up the token that a single byte stands for, if any.
pub fn fixed_token_of(b: u8) -> (r: Option<Token>)
    ensures
        r == fixed_token(b),
{
    match b {
        0x09 => Some(Token::Tab), // \t
        0x0a => Some(Token::NewLine), // \n
        0x7b => Some(Token::LSquirly), // {
        0x7d => Some(Token::RSquirly), // }
        0x28 => Some(Token::LParen), // (
        0x29 => Some(Token::RParen), // )
        0x5b => Some(Token::LBrack), // [
        0x5d => Some(Token::RBrack), // ]
        0x3c => Some(Token::LAngle), // <
        0x3e => Some(Token::RAngle), // >
        0x2c => Some(Token::Comma), // ,
        0x2e => Some(Token::Dot), // .
        0x3f => Some(Token::Question), // ?
        0x3a => Some(Token::Colon), // :
        0x3b => Some(Token::SemiColon), // ;
        0x21 => Some(Token::Bang), // !
        0x40 => Some(Token::At), // @
        0x23 => Some(Token::Octothorpe), // #
        0x24 => Some(Token::Dollar), // $
        0x25 => Some(Token::Percent), // %
        0x5e => Some(Token::Caret), // ^
        0x26 => Some(Token::Ampersand), // &
        0x2a => Some(Token::Asterisk), // *
        0x2d => Some(Token::Dash), // -
        0x3d => Some(Token::Equal), // =
        0x2b => Some(Token::Plus), // +
        0x7c => Some(Token::Pipe), // |
        0x5c => Some(Token::BSlash), // \
        0x2f => Some(Token::FSlash), // /
        0x7e => Some(Token::Tilde), // ~
        0x60 => Some(Token::Grave), // `
        _ => None,
    }
}


/// The keyword that a word spells, matched case-sensitively.
pub open spec fn keyword_token(w: Seq<u8>) -> Option<Token> {
    if w == seq![0x6cu8, 0x65, 0x74] {  // let
        Some(Token::Let)
    } else if w == seq![0x6du8, 0x75, 0x74] {  // mut
        Some(Token::Mut)
    } else if w == seq![0x64u8, 0x65, 0x66] {  // def
        Some(Token::Def)
    } else if w == seq![0x73u8, 0x74, 0x72, 0x75, 0x63, 0x74] {  // struct
        Some(Token::Struct)
    } else if w == seq![0x65u8, 0x6e, 0x75, 0x6d] {  // enum
        Some(Token::Enum)
    } else if w == seq![0x6fu8, 0x62, 0x6a, 0x65, 0x63, 0x74] {  // object
        Some(Token::Object)
    } else if w == seq![0x69u8, 0x66] {  // if
        Some(Token::If)
    } else if w == seq![0x65u8, 0x6c, 0x69, 0x66] {  // elif
        Some(Token::Elif)
    } else if w == seq![0x65u8, 0x6c, 0x73, 0x65] {  // else
        Some(Token::Else)
    } else if w == seq![0x6du8, 0x61, 0x74, 0x63, 0x68] {  // match
        Some(Token::Match)
    } else if w == seq![0x74u8, 0x72, 0x75, 0x65] {  // true
        Some(Token::True)
    } else if w == seq![0x66u8, 0x61, 0x6c, 0x73, 0x65] {  // false
        Some(Token::False)
    } else {
        None
    }
}

/// Looks up the keyword that a word spells, if any.
pub fn keyword_of(w: &[u8]) -> (r: Option<Token>)
    ensures
        r == keyword_token(w@),
{
    if w.len() == 3 && w[0] == 0x6c && w[1] == 0x65 && w[2] == 0x74 {
        assert(w@ =~= seq![0x6cu8, 0x65, 0x74]);
        Some(Token::Let)
    } else if w.len() == 3 && w[0] == 0x6d && w[1] == 0x75 && w[2] == 0x74 {
        assert(w@ =~= seq![0x6du8, 0x75, 0x74]);
        Some(Token::Mut)
    } else if w.len() == 3 && w[0] == 0x64 && w[1] == 0x65 && w[2] == 0x66 {
        assert(w@ =~= seq![0x64u8, 0x65, 0x66]);
        Some(Token::Def)
    } else if w.len() == 6 && w[0] == 0x73 && w[1] == 0x74 && w[2] == 0x72 && w[3] == 0x75 && w[4] == 0x63 && w[5] == 0x74 {
        assert(w@ =~= seq![0x73u8, 0x74, 0x72, 0x75, 0x63, 0x74]);
        Some(Token::Struct)
    } else if w.len() == 4 && w[0] == 0x65 && w[1] == 0x6e && w[2] == 0x75 && w[3] == 0x6d {
        assert(w@ =~= seq![0x65u8, 0x6e, 0x75, 0x6d]);
        Some(Token::Enum)
    } else if w.len() == 6 && w[0] == 0x6f && w[1] == 0x62 && w[2] == 0x6a && w[3] == 0x65 && w[4] == 0x63 && w[5] == 0x74 {
        assert(w@ =~= seq![0x6fu8, 0x62, 0x6a, 0x65, 0x63, 0x74]);
        Some(Token::Object)
    } else if w.len() == 2 && w[0] == 0x69 && w[1] == 0x66 {
        assert(w@ =~= seq![0x69u8, 0x66]);
        Some(Token::If)
    } else if w.len() == 4 && w[0] == 0x65 && w[1] == 0x6c && w[2] == 0x69 && w[3] == 0x66 {
        assert(w@ =~= seq![0x65u8, 0x6c, 0x69, 0x66]);
        Some(Token::Elif)
    } else if w.len() == 4 && w[0] == 0x65 && w[1] == 0x6c && w[2] == 0x73 && w[3] == 0x65 {
        assert(w@ =~= seq![0x65u8, 0x6c, 0x73, 0x65]);
        Some(Token::Else)
    } else if w.len() == 5 && w[0] == 0x6d && w[1] == 0x61 && w[2] == 0x74 && w[3] == 0x63 && w[4] == 0x68 {
        assert(w@ =~= seq![0x6du8, 0x61, 0x74, 0x63, 0x68]);
        Some(Token::Match)
    } else if w.len() == 4 && w[0] == 0x74 && w[1] == 0x72 && w[2] == 0x75 && w[3] == 0x65 {
        assert(w@ =~= seq![0x74u8, 0x72, 0x75, 0x65]);
        Some(Token::True)
    } else if w.len() == 5 && w[0] == 0x66 && w[1] == 0x61 && w[2] == 0x6c && w[3] == 0x73 && w[4] == 0x65 {
        assert(w@ =~= seq![0x66u8, 0x61, 0x6c, 0x73, 0x65]);
        Some(Token::False)
    } else {
        None
    }
}

} // verus!
