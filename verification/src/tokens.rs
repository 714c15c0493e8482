//! The token model: one classified lexical unit per scanner step, and the
//! fixed keyword, symbol and builtin-type tables resolved from source text.

use vstd::prelude::*;
use vstd::string::StringExecFns;

verus! {

/// Reserved words of the language.
#[derive(Debug, PartialEq, Eq, Clone, Copy, Structural)]
pub enum Keywords {
    And,
    Def,
    Else,
    Equals,
    Fn,
    For,
    If,
    In,
    Is,
    Not,
    Or,
    Print,
    Return,
    Use,
    Var,
    While,
}

/// Operator and punctuation symbols.
#[derive(Debug, PartialEq, Eq, Clone, Copy, Structural)]
pub enum Symbols {
    ParenOpen,
    ParenClose,
    SBracketOpen,
    SBracketClose,
    CBracketOpen,
    CBracketClose,
    Period,
    Comma,
    Colon,
    Caret,
    Tilde,
    Equals,
    Plus,
    Minus,
    Asterisk,
    Slash,
    Percent,
    PlusEquals,
    MinusEquals,
    AsteriskEquals,
    SlashEquals,
    PercentEquals,
    RightThinArrow,
    GreaterThan,
    GreaterThanEqual,
    LessThan,
    LessThanEqual,
}

/// Builtin types: the fixed table of primitive kinds.
#[derive(Debug, PartialEq, Eq, Clone, Copy, Structural)]
pub enum Types {
    Int32Bit,
    Int64Bit,
    UInt32Bit,
    UInt64Bit,
    Float32Bit,
    Float64Bit,
    Str,
    Bool,
    NoneType,
}

/// One lexical unit together with its payload.
#[derive(Debug, PartialEq, Clone)]
pub enum Token {
    /// A non-keyword word.
    Identifier(String),
    /// A reserved word from the keyword table.
    Keyword(Keywords),
    /// The literal spellings `True` and `False`.
    BoolLiteral(bool),
    /// Digits (and separators) as written, plus an optional type suffix.
    Numeric(String, Option<Types>),
    /// A character literal after escape resolution.
    CharLiteral(char),
    /// A string literal after escape resolution.
    StrLiteral(String),
    /// An operator or punctuation symbol.
    Symbol(Symbols),
    /// A comment body with its delimiters stripped.
    Comment(String),
    /// The number of tabs that follow a newline.
    Indent(u64),
    /// A diagnostic for malformed input; scanning continues after it.
    Error(String),
    /// End of input.
    EOF,
}

/// The mathematical shape of a token: string payloads as character sequences.
pub enum TokenV {
    Identifier(Seq<char>),
    Keyword(Keywords),
    BoolLiteral(bool),
    Numeric(Seq<char>, Option<Types>),
    CharLiteral(char),
    StrLiteral(Seq<char>),
    Symbol(Symbols),
    Comment(Seq<char>),
    Indent(u64),
    Error(Seq<char>),
    EOF,
}

impl View for Token {
    type V = TokenV;

    open spec fn view(&self) -> TokenV {
        match self {
            Token::Identifier(s) => TokenV::Identifier(s@),
            Token::Keyword(k) => TokenV::Keyword(*k),
            Token::BoolLiteral(b) => TokenV::BoolLiteral(*b),
            Token::Numeric(s, t) => TokenV::Numeric(s@, *t),
            Token::CharLiteral(c) => TokenV::CharLiteral(*c),
            Token::StrLiteral(s) => TokenV::StrLiteral(s@),
            Token::Symbol(s) => TokenV::Symbol(*s),
            Token::Comment(s) => TokenV::Comment(s@),
            Token::Indent(n) => TokenV::Indent(*n),
            Token::Error(s) => TokenV::Error(s@),
            Token::EOF => TokenV::EOF,
        }
    }
}

/// The keyword table as a function from spelling to keyword kind.
pub open spec fn spec_parse_keyword(s: Seq<char>) -> Option<Keywords> {
    if s == "and"@ {
        Some(Keywords::And)
    } else if s == "def"@ {
        Some(Keywords::Def)
    } else if s == "else"@ {
        Some(Keywords::Else)
    } else if s == "equals"@ {
        Some(Keywords::Equals)
    } else if s == "fn"@ {
        Some(Keywords::Fn)
    } else if s == "for"@ {
        Some(Keywords::For)
    } else if s == "if"@ {
        Some(Keywords::If)
    } else if s == "in"@ {
        Some(Keywords::In)
    } else if s == "is"@ {
        Some(Keywords::Is)
    } else if s == "not"@ {
        Some(Keywords::Not)
    } else if s == "or"@ {
        Some(Keywords::Or)
    } else if s == "print"@ {
        Some(Keywords::Print)
    } else if s == "return"@ {
        Some(Keywords::Return)
    } else if s == "use"@ {
        Some(Keywords::Use)
    } else if s == "var"@ {
        Some(Keywords::Var)
    } else if s == "while"@ {
        Some(Keywords::While)
    } else {
        None
    }
}

/// The builtin-type table as a function from spelling to type kind.
/// The same table resolves numeric-literal suffixes.
pub open spec fn spec_parse_type(s: Seq<char>) -> Option<Types> {
    if s == "i32"@ {
        Some(Types::Int32Bit)
    } else if s == "i64"@ {
        Some(Types::Int64Bit)
    } else if s == "u32"@ {
        Some(Types::UInt32Bit)
    } else if s == "u64"@ {
        Some(Types::UInt64Bit)
    } else if s == "f32"@ {
        Some(Types::Float32Bit)
    } else if s == "f64"@ {
        Some(Types::Float64Bit)
    } else if s == "str"@ {
        Some(Types::Str)
    } else if s == "bool"@ {
        Some(Types::Bool)
    } else if s == "None"@ {
        Some(Types::NoneType)
    } else {
        None
    }
}

impl Keywords {
    /// Resolve a word against the keyword table; `None` for any other word.
    pub fn lookup(s: &String) -> (r: Option<Keywords>)
        ensures
            r == spec_parse_keyword(s@),
    {
        if *s == String::from_str("and") {
            Some(Keywords::And)
        } else if *s == String::from_str("def") {
            Some(Keywords::Def)
        } else if *s == String::from_str("else") {
            Some(Keywords::Else)
        } else if *s == String::from_str("equals") {
            Some(Keywords::Equals)
        } else if *s == String::from_str("fn") {
            Some(Keywords::Fn)
        } else if *s == String::from_str("for") {
            Some(Keywords::For)
        } else if *s == String::from_str("if") {
            Some(Keywords::If)
        } else if *s == String::from_str("in") {
            Some(Keywords::In)
        } else if *s == String::from_str("is") {
            Some(Keywords::Is)
        } else if *s == String::from_str("not") {
            Some(Keywords::Not)
        } else if *s == String::from_str("or") {
            Some(Keywords::Or)
        } else if *s == String::from_str("print") {
            Some(Keywords::Print)
        } else if *s == String::from_str("return") {
            Some(Keywords::Return)
        } else if *s == String::from_str("use") {
            Some(Keywords::Use)
        } else if *s == String::from_str("var") {
            Some(Keywords::Var)
        } else if *s == String::from_str("while") {
            Some(Keywords::While)
        } else {
            None
        }
    }
}

impl Types {
    /// Resolve a type name or numeric suffix against the builtin-type table.
    pub fn lookup(s: &String) -> (r: Option<Types>)
        ensures
            r == spec_parse_type(s@),
    {
        if *s == String::from_str("i32") {
            Some(Types::Int32Bit)
        } else if *s == String::from_str("i64") {
            Some(Types::Int64Bit)
        } else if *s == String::from_str("u32") {
            Some(Types::UInt32Bit)
        } else if *s == String::from_str("u64") {
            Some(Types::UInt64Bit)
        } else if *s == String::from_str("f32") {
            Some(Types::Float32Bit)
        } else if *s == String::from_str("f64") {
            Some(Types::Float64Bit)
        } else if *s == String::from_str("str") {
            Some(Types::Str)
        } else if *s == String::from_str("bool") {
            Some(Types::Bool)
        } else if *s == String::from_str("None") {
            Some(Types::NoneType)
        } else {
            None
        }
    }
}

}
