//! Tokens, their classification, and the reserved words.

use vstd::hash_map::StringHashMap;
use vstd::prelude::*;

verus! {

/// The classification of a lexeme.
///
/// A number keeps the text of its literal: an ASCII digit followed by digits
/// and at most one decimal point, which always reads as a decimal number.
#[allow(non_camel_case_types)]
#[derive(Debug, PartialEq)]
pub enum TokenType {
    // Single characters
    LEFT_PAREN,
    RIGHT_PAREN,
    LEFT_BRACE,
    RIGHT_BRACE,
    COMMA,
    DOT,
    MINUS,
    PLUS,
    SEMI_COLON,
    SLASH,
    STAR,
    EQUAL,
    BANG,
    GREATER,
    LESS,
    POUND,
    // Double characters
    BANG_EQUAL,
    EQUAL_EQUAL,
    GREATER_EQUAL,
    LESS_EQUAL,
    // Literals
    IDENTIFIER(String),
    STRING(String),
    NUMBER(String),
    // Keywords
    AND,
    ELSE,
    ELIF,
    FALSE,
    FN,
    FOR,
    IF,
    NONE,
    OR,
    RETURN,
    SUPER,
    THIS,
    TRUE,
    LET,
    WHILE,
    DO,
    /// The end of the input. It ends a scan and is never kept as a token.
    EOF,
}

/// What a token type is: a literal with its text, or one of the fixed marks.
pub enum Kind {
    Identifier(Seq<char>),
    Text(Seq<char>),
    Number(Seq<char>),
    Fixed(TokenType),
}

impl View for TokenType {
    type V = Kind;

    open spec fn view(&self) -> Kind {
        match *self {
            TokenType::IDENTIFIER(s) => Kind::Identifier(s@),
            TokenType::STRING(s) => Kind::Text(s@),
            TokenType::NUMBER(s) => Kind::Number(s@),
            _ => Kind::Fixed(*self),
        }
    }
}

impl TokenType {
    /// Whether the type carries no text.
    pub open spec fn fixed(&self) -> bool {
        !(*self is IDENTIFIER) && !(*self is STRING) && !(*self is NUMBER)
    }
}

impl Clone for TokenType {
    fn clone(&self) -> (r: Self)
        ensures
            r == *self,
    {
        match self {
            TokenType::LEFT_PAREN => TokenType::LEFT_PAREN,
            TokenType::RIGHT_PAREN => TokenType::RIGHT_PAREN,
            TokenType::LEFT_BRACE => TokenType::LEFT_BRACE,
            TokenType::RIGHT_BRACE => TokenType::RIGHT_BRACE,
            TokenType::COMMA => TokenType::COMMA,
            TokenType::DOT => TokenType::DOT,
            TokenType::MINUS => TokenType::MINUS,
            TokenType::PLUS => TokenType::PLUS,
            TokenType::SEMI_COLON => TokenType::SEMI_COLON,
            TokenType::SLASH => TokenType::SLASH,
            TokenType::STAR => TokenType::STAR,
            TokenType::EQUAL => TokenType::EQUAL,
            TokenType::BANG => TokenType::BANG,
            TokenType::GREATER => TokenType::GREATER,
            TokenType::LESS => TokenType::LESS,
            TokenType::POUND => TokenType::POUND,
            TokenType::BANG_EQUAL => TokenType::BANG_EQUAL,
            TokenType::EQUAL_EQUAL => TokenType::EQUAL_EQUAL,
            TokenType::GREATER_EQUAL => TokenType::GREATER_EQUAL,
            TokenType::LESS_EQUAL => TokenType::LESS_EQUAL,
            TokenType::IDENTIFIER(s) => TokenType::IDENTIFIER(s.clone()),
            TokenType::STRING(s) => TokenType::STRING(s.clone()),
            TokenType::NUMBER(s) => TokenType::NUMBER(s.clone()),
            TokenType::AND => TokenType::AND,
            TokenType::ELSE => TokenType::ELSE,
            TokenType::ELIF => TokenType::ELIF,
            TokenType::FALSE => TokenType::FALSE,
            TokenType::FN => TokenType::FN,
            TokenType::FOR => TokenType::FOR,
            TokenType::IF => TokenType::IF,
            TokenType::NONE => TokenType::NONE,
            TokenType::OR => TokenType::OR,
            TokenType::RETURN => TokenType::RETURN,
            TokenType::SUPER => TokenType::SUPER,
            TokenType::THIS => TokenType::THIS,
            TokenType::TRUE => TokenType::TRUE,
            TokenType::LET => TokenType::LET,
            TokenType::WHILE => TokenType::WHILE,
            TokenType::DO => TokenType::DO,
            TokenType::EOF => TokenType::EOF,
        }
    }
}

/// A classified lexeme with the line it stood on.
#[derive(Debug, PartialEq)]
pub struct Token {
    pub token_type: TokenType,
    pub line: usize,
}

/// What a token is: its kind and its line.
pub struct TokenModel {
    pub kind: Kind,
    pub line: nat,
}

impl View for Token {
    type V = TokenModel;

    open spec fn view(&self) -> TokenModel {
        TokenModel { kind: self.token_type@, line: self.line as nat }
    }
}

impl Token {
    /// A token of a type, found on a line.
    pub fn new(token_type: TokenType, line: usize) -> (r: Token)
        ensures
            r.token_type == token_type,
            r.line == line,
    {
        Token { token_type, line }
    }
}

/// The reserved words, each with its token type.
pub open spec fn keyword_map() -> Map<Seq<char>, TokenType> {
    map![
        "and"@ => TokenType::AND,
        "else"@ => TokenType::ELSE,
        "elif"@ => TokenType::ELIF,
        "false"@ => TokenType::FALSE,
        "fn"@ => TokenType::FN,
        "for"@ => TokenType::FOR,
        "if"@ => TokenType::IF,
        "none"@ => TokenType::NONE,
        "or"@ => TokenType::OR,
        "return"@ => TokenType::RETURN,
        "super"@ => TokenType::SUPER,
        "this"@ => TokenType::THIS,
        "true"@ => TokenType::TRUE,
        "let"@ => TokenType::LET,
        "while"@ => TokenType::WHILE,
        "do"@ => TokenType::DO,
    ]
}

/// The token type of a reserved word; `None` for every other spelling.
pub open spec fn keyword_of(spelling: Seq<char>) -> Option<TokenType> {
    if keyword_map().contains_key(spelling) {
        Some(keyword_map()[spelling])
    } else {
        None
    }
}

/// The reserved words, letter by letter.
pub proof fn lemma_keyword_spellings()
    ensures
        "and"@ == seq!['a', 'n', 'd'],
        "else"@ == seq!['e', 'l', 's', 'e'],
        "elif"@ == seq!['e', 'l', 'i', 'f'],
        "false"@ == seq!['f', 'a', 'l', 's', 'e'],
        "fn"@ == seq!['f', 'n'],
        "for"@ == seq!['f', 'o', 'r'],
        "if"@ == seq!['i', 'f'],
        "none"@ == seq!['n', 'o', 'n', 'e'],
        "or"@ == seq!['o', 'r'],
        "return"@ == seq!['r', 'e', 't', 'u', 'r', 'n'],
        "super"@ == seq!['s', 'u', 'p', 'e', 'r'],
        "this"@ == seq!['t', 'h', 'i', 's'],
        "true"@ == seq!['t', 'r', 'u', 'e'],
        "let"@ == seq!['l', 'e', 't'],
        "while"@ == seq!['w', 'h', 'i', 'l', 'e'],
        "do"@ == seq!['d', 'o'],
{
    reveal_strlit("and");
    reveal_strlit("else");
    reveal_strlit("elif");
    reveal_strlit("false");
    reveal_strlit("fn");
    reveal_strlit("for");
    reveal_strlit("if");
    reveal_strlit("none");
    reveal_strlit("or");
    reveal_strlit("return");
    reveal_strlit("super");
    reveal_strlit("this");
    reveal_strlit("true");
    reveal_strlit("let");
    reveal_strlit("while");
    reveal_strlit("do");
}

/// The token type of a reserved word carries no text and is not the end mark.
pub proof fn lemma_keyword_reserved(spelling: Seq<char>)
    ensures
        keyword_of(spelling) matches Some(token_type) ==> token_type.fixed() && token_type !is EOF,
{
}

/// A spelling that differs from a reserved word in its last character alone,
/// by one more, by one fewer or by another in its place, is not reserved.
pub proof fn law_reserved_words_differ_before_the_last(word: Seq<char>, c: char)
    requires
        keyword_map().contains_key(word),
    ensures
        keyword_of(word.push(c)) is None,
        keyword_of(word.drop_last()) is None,
        c != word.last() ==> keyword_of(word.drop_last().push(c)) is None,
{
    lemma_keyword_spellings();
    // Reserved words of one length differ within their first three characters.
    let other = word.drop_last().push(c);
    assert(other[0] == word[0]);
    assert(other.len() >= 3 ==> other[1] == word[1]);
    assert(other.len() >= 4 ==> other[2] == word[2]);
}

/// Builds the table of reserved words.
pub fn keywords() -> (table: StringHashMap<TokenType>)
    ensures
        table@ == keyword_map(),
{
    let mut table: StringHashMap<TokenType> = StringHashMap::new();
    table.insert("and".to_owned(), TokenType::AND);
    table.insert("else".to_owned(), TokenType::ELSE);
    table.insert("elif".to_owned(), TokenType::ELIF);
    table.insert("false".to_owned(), TokenType::FALSE);
    table.insert("fn".to_owned(), TokenType::FN);
    table.insert("for".to_owned(), TokenType::FOR);
    table.insert("if".to_owned(), TokenType::IF);
    table.insert("none".to_owned(), TokenType::NONE);
    table.insert("or".to_owned(), TokenType::OR);
    table.insert("return".to_owned(), TokenType::RETURN);
    table.insert("super".to_owned(), TokenType::SUPER);
    table.insert("this".to_owned(), TokenType::THIS);
    table.insert("true".to_owned(), TokenType::TRUE);
    table.insert("let".to_owned(), TokenType::LET);
    table.insert("while".to_owned(), TokenType::WHILE);
    table.insert("do".to_owned(), TokenType::DO);
    table
}

} // verus!
