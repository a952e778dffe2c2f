//! What scanning a line means.
//!
//! A line is a sequence of characters. [`step`] says what the lexeme that
//! begins at a position yields and where the next one begins; [`lex`] says
//! what the whole line yields. Positions count characters from 0, columns
//! from 1.

use crate::chars::{
    alphanumeric, ascii_digit, ascii_letter, blank, number_part, symbol_part, symbol_start,
};
use crate::exceptions::{invalid_number, unexpected_character, unterminated_string, Diagnostic};
use crate::token::{
    keyword_map, keyword_of, law_reserved_words_differ_before_the_last, lemma_keyword_reserved,
    lemma_keyword_spellings, Kind, TokenModel, TokenType,
};
use vstd::prelude::*;

verus! {

/// The kinds of lexeme that run on for as long as the characters allow.
#[derive(Clone, Copy)]
pub enum Run {
    /// Digits and decimal points.
    Number,
    /// Letters, digits and underscores.
    Symbol,
    /// Anything but a double quote or a line feed.
    Text,
}

/// Whether a character continues a run.
pub open spec fn continues(run: Run, c: char) -> bool {
    match run {
        Run::Number => number_part(c),
        Run::Symbol => symbol_part(c),
        Run::Text => c != '"' && c != '\n',
    }
}

/// Where the longest run that begins at `pos` ends: the first position from
/// `pos` on whose character does not continue the run, or the end of the line.
pub open spec fn run_end(src: Seq<char>, pos: int, run: Run) -> int
    decreases src.len() - pos,
{
    if 0 <= pos < src.len() && continues(run, src[pos]) {
        run_end(src, pos + 1, run)
    } else {
        pos
    }
}

/// What one lexeme yields: at most one token, at most one exception, and the
/// position at which the next lexeme begins.
pub struct Step {
    pub token: Option<Kind>,
    pub error: Option<Diagnostic>,
    pub next: int,
}

impl Step {
    /// The token of the step, on its line, as a sequence of none or one.
    pub open spec fn tokens(self, line: nat) -> Seq<TokenModel> {
        match self.token {
            Some(kind) => seq![TokenModel { kind, line }],
            None => Seq::empty(),
        }
    }

    /// The exception of the step as a sequence of none or one.
    pub open spec fn errors(self) -> Seq<Diagnostic> {
        match self.error {
            Some(e) => seq![e],
            None => Seq::empty(),
        }
    }
}

/// The token of a character that is a lexeme by itself.
pub open spec fn punctuation(c: char) -> Option<TokenType> {
    if c == '(' {
        Some(TokenType::LEFT_PAREN)
    } else if c == ')' {
        Some(TokenType::RIGHT_PAREN)
    } else if c == '{' {
        Some(TokenType::LEFT_BRACE)
    } else if c == '}' {
        Some(TokenType::RIGHT_BRACE)
    } else if c == ';' {
        Some(TokenType::SEMI_COLON)
    } else if c == ',' {
        Some(TokenType::COMMA)
    } else if c == '.' {
        Some(TokenType::DOT)
    } else if c == '-' {
        Some(TokenType::MINUS)
    } else if c == '+' {
        Some(TokenType::PLUS)
    } else if c == '/' {
        Some(TokenType::SLASH)
    } else if c == '*' {
        Some(TokenType::STAR)
    } else {
        None
    }
}

/// The two tokens of a character that `=` may follow.
pub struct Operator {
    /// The token of the character alone.
    pub alone: TokenType,
    /// The token of the character followed by `=`.
    pub doubled: TokenType,
}

/// The tokens of a character that `=` may follow.
pub open spec fn operator(c: char) -> Option<Operator> {
    if c == '!' {
        Some(Operator { alone: TokenType::BANG, doubled: TokenType::BANG_EQUAL })
    } else if c == '=' {
        Some(Operator { alone: TokenType::EQUAL, doubled: TokenType::EQUAL_EQUAL })
    } else if c == '>' {
        Some(Operator { alone: TokenType::GREATER, doubled: TokenType::GREATER_EQUAL })
    } else if c == '<' {
        Some(Operator { alone: TokenType::LESS, doubled: TokenType::LESS_EQUAL })
    } else {
        None
    }
}

/// Whether a text holds at most one decimal point.
pub open spec fn single_point(text: Seq<char>) -> bool {
    forall|i: int, j: int| 0 <= i < j < text.len() ==> !(text[i] == '.' && text[j] == '.')
}

/// The rest of an operator whose first character ends just before `cur`: the
/// double token if `second` follows, which is then taken, else the single one.
pub open spec fn operator_step(
    src: Seq<char>,
    cur: int,
    second: char,
    single: Kind,
    double: Kind,
) -> Step {
    if 0 <= cur < src.len() && src[cur] == second {
        Step { token: Some(double), error: None, next: cur + 1 }
    } else {
        Step { token: Some(single), error: None, next: cur }
    }
}

/// The rest of a comment: everything up to the end of the line, for nothing.
pub open spec fn comment_step(src: Seq<char>, cur: int) -> Step {
    Step { token: None, error: None, next: if cur <= src.len() { src.len() as int } else { cur } }
}

/// The rest of a string literal whose opening quote ends just before `cur`.
///
/// The text runs up to the closing quote, which is taken too. Where a line
/// feed or the end of the line comes first there is no token: the exception
/// names the column of the opening quote, and the line feed is taken.
pub open spec fn string_step(src: Seq<char>, cur: int, line: nat) -> Step {
    let end = run_end(src, cur, Run::Text);
    if end < src.len() && src[end] == '"' {
        Step { token: Some(Kind::Text(src.subrange(cur, end))), error: None, next: end + 1 }
    } else {
        Step {
            token: None,
            error: Some(unterminated_string(line, cur as nat)),
            next: if end < src.len() { end + 1 } else { end },
        }
    }
}

/// The rest of a number literal whose first digit ends just before `cur`.
///
/// The literal runs on over digits and decimal points. With more than one
/// decimal point it is no number: there is no token then, and the exception
/// names the column of the first digit.
pub open spec fn number_step(src: Seq<char>, cur: int, line: nat) -> Step {
    let end = run_end(src, cur, Run::Number);
    let text = src.subrange(cur - 1, end);
    if single_point(text) {
        Step { token: Some(Kind::Number(text)), error: None, next: end }
    } else {
        Step { token: None, error: Some(invalid_number(line, cur as nat)), next: end }
    }
}

/// The rest of a symbol whose first character ends just before `cur`.
///
/// After a letter or an underscore the spelling runs on over letters, digits
/// and underscores, and is a reserved word or an identifier. Any other first
/// character is unexpected: the exception names it and its column, there is
/// no token, and where the character counts as a letter or digit the run that
/// follows it is taken with it.
pub open spec fn symbol_step(src: Seq<char>, cur: int, line: nat) -> Step {
    let first = src[cur - 1];
    let end = run_end(src, cur, Run::Symbol);
    if symbol_start(first) {
        let spelling = src.subrange(cur - 1, end);
        Step {
            token: Some(
                match keyword_of(spelling) {
                    Some(reserved) => reserved@,
                    None => Kind::Identifier(spelling),
                },
            ),
            error: None,
            next: end,
        }
    } else {
        Step {
            token: None,
            error: Some(unexpected_character(first, line, cur as nat)),
            next: if alphanumeric(first) { end } else { cur },
        }
    }
}

/// What the lexeme that begins at `pos` yields.
pub open spec fn step(src: Seq<char>, pos: int, line: nat) -> Step
    recommends
        0 <= pos < src.len(),
{
    let c = src[pos];
    if punctuation(c) is Some {
        Step { token: Some(punctuation(c)->0@), error: None, next: pos + 1 }
    } else if let Some(op) = operator(c) {
        operator_step(src, pos + 1, '=', op.alone@, op.doubled@)
    } else if c == '#' {
        comment_step(src, pos + 1)
    } else if c == '"' {
        string_step(src, pos + 1, line)
    } else if ascii_digit(c) {
        number_step(src, pos + 1, line)
    } else if blank(c) {
        Step { token: None, error: None, next: pos + 1 }
    } else {
        symbol_step(src, pos + 1, line)
    }
}

/// The tokens and the exceptions of a scan, each in the order of the line.
pub struct Lexed {
    pub tokens: Seq<TokenModel>,
    pub errors: Seq<Diagnostic>,
}

/// What the line yields from `pos` on: the lexeme at `pos`, then the rest.
pub open spec fn lex_from(src: Seq<char>, pos: int, line: nat) -> Lexed
    decreases src.len() - pos,
{
    if 0 <= pos < src.len() {
        let here = step(src, pos, line);
        proof {
            lemma_step_advances(src, pos, line);
        }
        let rest = lex_from(src, here.next, line);
        Lexed { tokens: here.tokens(line) + rest.tokens, errors: here.errors() + rest.errors }
    } else {
        nothing()
    }
}

/// What scanning a whole line yields.
pub open spec fn lex(src: Seq<char>, line: nat) -> Lexed {
    lex_from(src, 0, line)
}

/// What a line yields that holds no lexeme.
pub open spec fn nothing() -> Lexed {
    Lexed { tokens: Seq::empty(), errors: Seq::empty() }
}

/// What a line of one token and no exception yields.
pub open spec fn one_token(kind: Kind, line: nat) -> Lexed {
    Lexed { tokens: seq![TokenModel { kind, line }], errors: Seq::empty() }
}

/// Whether a spelling is that of a symbol: a letter or an underscore, then
/// letters, digits and underscores.
pub open spec fn symbol(spelling: Seq<char>) -> bool {
    &&& spelling.len() > 0
    &&& symbol_start(spelling[0])
    &&& forall|i: int| 0 < i < spelling.len() ==> symbol_part(#[trigger] spelling[i])
}

/// Whether a text is a number literal: a digit, then digits and at most one
/// decimal point.
pub open spec fn number_literal(text: Seq<char>) -> bool {
    &&& text.len() > 0
    &&& ascii_digit(text[0])
    &&& forall|i: int| 0 < i < text.len() ==> number_part(#[trigger] text[i])
    &&& single_point(text)
}

/// Whether a line begins with at least `k` blanks.
pub open spec fn blank_before(src: Seq<char>, k: int) -> bool {
    0 <= k <= src.len() && forall|i: int| 0 <= i < k ==> blank(#[trigger] src[i])
}

/// Whether a line holds nothing to scan: blanks alone, or blanks and then a
/// comment.
pub open spec fn idle(src: Seq<char>) -> bool {
    exists|k: int| #[trigger] blank_before(src, k) && (k < src.len() ==> src[k] == '#')
}

/// Whether a token is one that a scan can keep.
pub open spec fn sound(kind: Kind) -> bool {
    match kind {
        Kind::Identifier(spelling) => symbol(spelling) && keyword_of(spelling) is None,
        Kind::Text(text) => forall|i: int|
            0 <= i < text.len() ==> #[trigger] text[i] != '"' && text[i] != '\n',
        Kind::Number(text) => number_literal(text),
        Kind::Fixed(token_type) => token_type.fixed() && token_type !is EOF,
    }
}

/// A run ends between its beginning and the end of the line.
pub proof fn lemma_run_end_bounds(src: Seq<char>, pos: int, run: Run)
    requires
        0 <= pos <= src.len(),
    ensures
        pos <= run_end(src, pos, run) <= src.len(),
    decreases src.len() - pos,
{
    if pos < src.len() && continues(run, src[pos]) {
        lemma_run_end_bounds(src, pos + 1, run);
    }
}

/// One more character keeps a text to a single decimal point unless it is a
/// second one.
pub proof fn lemma_single_point_push(text: Seq<char>, c: char)
    ensures
        single_point(text.push(c)) <==> single_point(text) && !(c == '.' && text.contains('.')),
{
    let longer = text.push(c);
    if single_point(longer) {
        assert forall|i: int, j: int| 0 <= i < j < text.len() implies !(text[i] == '.' && text[j]
            == '.') by {
            assert(longer[i] == text[i] && longer[j] == text[j]);
        }
        if c == '.' && text.contains('.') {
            let i = choose|i: int| 0 <= i < text.len() && text[i] == '.';
            assert(longer[i] == '.' && longer[text.len() as int] == '.');
        }
    }
}

/// A text with a single decimal point has no beginning with two.
pub proof fn lemma_single_point_prefix(text: Seq<char>, len: int)
    requires
        0 <= len <= text.len(),
    ensures
        single_point(text) ==> single_point(text.subrange(0, len)),
{
}

/// Every lexeme takes at least one character and none beyond the line.
pub proof fn lemma_step_advances(src: Seq<char>, pos: int, line: nat)
    requires
        0 <= pos < src.len(),
    ensures
        pos < step(src, pos, line).next <= src.len(),
{
    lemma_run_end_bounds(src, pos + 1, Run::Number);
    lemma_run_end_bounds(src, pos + 1, Run::Symbol);
    lemma_run_end_bounds(src, pos + 1, Run::Text);
}

/// No lexeme yields the end mark as its token.
pub proof fn lemma_step_token(src: Seq<char>, pos: int, line: nat)
    requires
        0 <= pos < src.len(),
    ensures
        step(src, pos, line).token != Some(Kind::Fixed(TokenType::EOF)),
{
    lemma_keyword_reserved(src.subrange(pos, run_end(src, pos + 1, Run::Symbol)));
}

/// Every character of a run continues it, and the character after it, if
/// there is one, does not.
pub proof fn lemma_run_end_is_first_stop(src: Seq<char>, pos: int, run: Run)
    requires
        0 <= pos <= src.len(),
    ensures
        forall|i: int| pos <= i < run_end(src, pos, run) ==> continues(run, #[trigger] src[i]),
        run_end(src, pos, run) < src.len() ==> !continues(run, src[run_end(src, pos, run)]),
    decreases src.len() - pos,
{
    if pos < src.len() && continues(run, src[pos]) {
        lemma_run_end_is_first_stop(src, pos + 1, run);
    }
}

/// A run ends at the first position from its beginning on whose character
/// does not continue it.
pub proof fn lemma_run_end_at(src: Seq<char>, pos: int, run: Run, end: int)
    requires
        0 <= pos <= end <= src.len(),
        forall|i: int| pos <= i < end ==> continues(run, #[trigger] src[i]),
        end < src.len() ==> !continues(run, src[end]),
    ensures
        run_end(src, pos, run) == end,
    decreases end - pos,
{
    if pos < end {
        lemma_run_end_at(src, pos + 1, run, end);
    }
}

/// A lexeme with an exception has no token.
pub proof fn law_exception_excludes_token(src: Seq<char>, pos: int, line: nat)
    requires
        0 <= pos < src.len(),
    ensures
        step(src, pos, line).error is Some ==> step(src, pos, line).token is None,
{
}

/// The token of a lexeme is one that a scan can keep: never the end mark, a
/// number only where its text is a number literal, an identifier only where
/// its spelling is a symbol that is not reserved.
pub proof fn law_step_token_sound(src: Seq<char>, pos: int, line: nat)
    requires
        0 <= pos < src.len(),
    ensures
        step(src, pos, line).token matches Some(kind) ==> sound(kind),
{
    lemma_run_end_bounds(src, pos + 1, Run::Text);
    lemma_run_end_is_first_stop(src, pos + 1, Run::Text);
    lemma_run_end_bounds(src, pos + 1, Run::Number);
    lemma_run_end_is_first_stop(src, pos + 1, Run::Number);
    lemma_run_end_bounds(src, pos + 1, Run::Symbol);
    lemma_run_end_is_first_stop(src, pos + 1, Run::Symbol);
    lemma_keyword_reserved(src.subrange(pos, run_end(src, pos + 1, Run::Symbol)));
}

/// Every token of a scan is one that a scan can keep, and stands on the line
/// that was scanned.
pub proof fn law_tokens_sound(src: Seq<char>, pos: int, line: nat)
    ensures
        forall|i: int|
            0 <= i < lex_from(src, pos, line).tokens.len() ==> sound(
                (#[trigger] lex_from(src, pos, line).tokens[i]).kind,
            ) && lex_from(src, pos, line).tokens[i].line == line,
    decreases src.len() - pos,
{
    if 0 <= pos < src.len() {
        let here = step(src, pos, line);
        lemma_step_advances(src, pos, line);
        law_step_token_sound(src, pos, line);
        law_tokens_sound(src, here.next, line);
    }
}

/// A line that is empty yields no token and no exception.
pub proof fn law_empty_line(line: nat)
    ensures
        lex(Seq::empty(), line) == nothing(),
{
}

/// Within the blanks before a comment or the end, the rest of the line yields
/// nothing.
proof fn lemma_idle_from(src: Seq<char>, pos: int, k: int, line: nat)
    requires
        0 <= pos <= k,
        blank_before(src, k),
        k < src.len() ==> src[k] == '#',
    ensures
        lex_from(src, pos, line) == nothing(),
    decreases k - pos,
{
    if pos < k {
        lemma_idle_from(src, pos + 1, k, line);
    } else if pos < src.len() {
        assert(lex_from(src, src.len() as int, line) == nothing());
    }
}

/// A line of blanks alone, or of blanks and then a comment, yields no token
/// and no exception.
pub proof fn law_idle_line(src: Seq<char>, line: nat)
    requires
        idle(src),
    ensures
        lex(src, line) == nothing(),
{
    let k = choose|k: int| #[trigger] blank_before(src, k) && (k < src.len() ==> src[k] == '#');
    lemma_idle_from(src, 0, k, line);
}

/// A line that is one character of an operator, with nothing after it,
/// yields the token of that character alone and no exception.
pub proof fn law_lone_operator(c: char, line: nat)
    requires
        operator(c) is Some,
    ensures
        lex(seq![c], line) == one_token(operator(c)->0.alone@, line),
{
    assert(lex_from(seq![c], 1, line) == nothing());
}

/// A line that is one symbol yields one token and no exception: the token
/// of the reserved word, if the symbol is one, else an identifier of that
/// spelling.
pub proof fn law_symbol_line(spelling: Seq<char>, line: nat)
    requires
        symbol(spelling),
    ensures
        lex(spelling, line) == (Lexed {
            tokens: seq![
                TokenModel {
                    kind: match keyword_of(spelling) {
                        Some(reserved) => reserved@,
                        None => Kind::Identifier(spelling),
                    },
                    line,
                },
            ],
            errors: Seq::empty(),
        }),
{
    lemma_run_end_at(spelling, 1, Run::Symbol, spelling.len() as int);
    assert(spelling.subrange(0, spelling.len() as int) =~= spelling);
    assert(lex_from(spelling, spelling.len() as int, line) == nothing());
}

/// Scanning a reserved word yields its token and no identifier. Scanning a
/// symbol that differs from a reserved word in its last character alone, by
/// one more, by one fewer or by another in its place, yields an identifier.
pub proof fn law_reserved_word_line(word: Seq<char>, c: char, line: nat)
    requires
        keyword_map().contains_key(word),
        symbol_part(c),
    ensures
        lex(word, line) == one_token(Kind::Fixed(keyword_map()[word]), line),
        lex(word.push(c), line) == one_token(Kind::Identifier(word.push(c)), line),
        lex(word.drop_last(), line) == one_token(Kind::Identifier(word.drop_last()), line),
        c != word.last() ==> lex(word.drop_last().push(c), line) == one_token(
            Kind::Identifier(word.drop_last().push(c)),
            line,
        ),
{
    let stem = word.drop_last();
    lemma_keyword_spellings();
    law_reserved_words_differ_before_the_last(word, c);
    assert(symbol(stem));
    assert(symbol(word.push(c)));
    assert(symbol(stem.push(c)));
    law_symbol_line(word, line);
    law_symbol_line(stem, line);
    law_symbol_line(word.push(c), line);
    law_symbol_line(stem.push(c), line);
    lemma_keyword_reserved(word);
}

} // verus!
