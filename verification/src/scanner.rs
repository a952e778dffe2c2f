//! The scanner: a cursor over one line, and the tokens and exceptions found so far.

use crate::chars::{
    ascii_digit, is_alphanumeric, is_ascii_digit, is_number_part, is_symbol_part, is_symbol_start,
};
use crate::exceptions::{unexpected_character, Diagnostic, SyntaxException};
use crate::grammar::{
    comment_step, continues, lemma_run_end_bounds, lemma_single_point_prefix,
    lemma_single_point_push, lemma_step_token, lex, lex_from, nothing, number_step,
    operator_step, run_end, single_point, step, string_step, symbol_step, Run, Step,
};
use crate::token::{keywords, Token, TokenModel, TokenType};
use vstd::prelude::*;

verus! {

/// Scans one line of source text, once, from left to right.
pub struct Scanner {
    /// The line to scan.
    pub source: String,
    /// The tokens found so far.
    pub tokens: Vec<Token>,
    /// How many characters have been taken.
    pub current: usize,
    /// The number of the line in its file.
    pub line: usize,
    /// The malformed fragments found so far.
    pub exceptions: Vec<SyntaxException>,
}

/// What a scanner is at one moment.
pub struct ScannerView {
    pub source: Seq<char>,
    pub cursor: int,
    pub line: nat,
    pub tokens: Seq<TokenModel>,
    pub errors: Seq<Diagnostic>,
}

/// What each token of a sequence is.
pub open spec fn token_models(tokens: Seq<Token>) -> Seq<TokenModel> {
    Seq::new(tokens.len(), |i: int| tokens[i]@)
}

/// What each exception of a sequence states.
pub open spec fn diagnostics(exceptions: Seq<SyntaxException>) -> Seq<Diagnostic> {
    Seq::new(exceptions.len(), |i: int| exceptions[i]@)
}

impl View for Scanner {
    type V = ScannerView;

    open spec fn view(&self) -> ScannerView {
        ScannerView {
            source: self.source@,
            cursor: self.current as int,
            line: self.line as nat,
            tokens: token_models(self.tokens@),
            errors: diagnostics(self.exceptions@),
        }
    }
}

impl ScannerView {
    /// A scanner at the beginning of a line, with nothing found yet.
    pub open spec fn fresh(source: Seq<char>, line: nat) -> ScannerView {
        ScannerView { source, cursor: 0, line, tokens: Seq::empty(), errors: Seq::empty() }
    }

    /// The scanner once it has scanned what was left of its line: it stands
    /// at the end, and has added what the rest of the line yields to what it
    /// had found.
    pub open spec fn scanned(self) -> ScannerView {
        let found = lex_from(self.source, self.cursor, self.line);
        ScannerView {
            cursor: self.source.len() as int,
            tokens: self.tokens + found.tokens,
            errors: self.errors + found.errors,
            ..self
        }
    }
}

/// Two scanners made of the same text and the same line number find the same
/// tokens and the same exceptions, in the same order: what the line yields.
pub proof fn law_same_line_same_result(a: ScannerView, b: ScannerView, source: Seq<char>, line: nat)
    requires
        a == ScannerView::fresh(source, line),
        b == ScannerView::fresh(source, line),
    ensures
        a.scanned() == b.scanned(),
        a.scanned().tokens == lex(source, line).tokens,
        a.scanned().errors == lex(source, line).errors,
{
    assert(a.scanned().tokens =~= lex(source, line).tokens);
    assert(a.scanned().errors =~= lex(source, line).errors);
}

/// Scans a line: what it yields stands in the scanner that is handed back.
pub fn run(source: String, line: usize) -> (scanner: Scanner)
    ensures
        scanner.wf(),
        scanner@ == (ScannerView {
            source: source@,
            cursor: source@.len() as int,
            line: line as nat,
            tokens: lex(source@, line as nat).tokens,
            errors: lex(source@, line as nat).errors,
        }),
{
    let mut scanner = Scanner::new(source, line);
    scanner.start();
    proof {
        let fresh = ScannerView::fresh(source@, line as nat);
        law_same_line_same_result(fresh, fresh, source@, line as nat);
    }
    scanner
}

/// Whether a scanner that was `before` has taken one lexeme as `lexeme` says:
/// it stands where the next lexeme begins, has recorded the exception, if
/// any, and has handed back the token, if any, without keeping it.
pub open spec fn took(
    before: ScannerView,
    after: ScannerView,
    handed: Option<TokenType>,
    lexeme: Step,
) -> bool {
    &&& after.source == before.source
    &&& after.line == before.line
    &&& after.tokens == before.tokens
    &&& after.cursor == lexeme.next
    &&& after.errors == before.errors + lexeme.errors()
    &&& match handed {
        Some(token_type) => lexeme.token == Some(token_type@),
        None => lexeme.token is None,
    }
}

/// Whether a character continues a run.
fn is_continued(run: Run, c: char) -> (r: bool)
    ensures
        r == continues(run, c),
{
    match run {
        Run::Number => is_number_part(c),
        Run::Symbol => is_symbol_part(c),
        Run::Text => c != '"' && c != '\n',
    }
}

/// Whether a text holds at most one decimal point.
pub fn has_single_point(text: &str) -> (r: bool)
    ensures
        r == single_point(text@),
{
    let length = text.unicode_len();
    let mut seen = false;
    let mut i: usize = 0;
    while i < length
        invariant
            length == text@.len(),
            i <= length,
            single_point(text@.subrange(0, i as int)),
            seen == text@.subrange(0, i as int).contains('.'),
        decreases length - i,
    {
        let c = text.get_char(i);
        proof {
            let prefix = text@.subrange(0, i as int);
            lemma_single_point_push(prefix, c);
            assert(text@.subrange(0, i + 1) =~= prefix.push(c));
            if prefix.push(c).contains('.') {
                let k = choose|k: int| 0 <= k < prefix.push(c).len() && prefix.push(c)[k] == '.';
                assert(k < prefix.len() ==> prefix[k] == '.');
            }
            if prefix.contains('.') {
                let k = choose|k: int| 0 <= k < prefix.len() && prefix[k] == '.';
                assert(prefix.push(c)[k] == '.');
            }
            if c == '.' {
                assert(prefix.push(c)[prefix.len() as int] == '.');
            }
        }
        if c == '.' {
            if seen {
                proof {
                    lemma_single_point_prefix(text@, i + 1);
                }
                return false;
            }
            seen = true;
        }
        i += 1;
    }
    assert(text@.subrange(0, i as int) =~= text@);
    true
}

impl Scanner {
    /// The cursor is within the line, and no kept token is the end mark.
    pub open spec fn wf(&self) -> bool {
        &&& self.current <= self.source@.len()
        &&& forall|i: int|
            0 <= i < self.tokens@.len() ==> !(#[trigger] self.tokens@[i].token_type is EOF)
    }

    /// Whether the whole line has been taken.
    pub open spec fn at_end(&self) -> bool {
        self.current >= self.source@.len()
    }

    /// A scanner at the beginning of `source`, which is line number `line`.
    pub fn new(source: String, line: usize) -> (scanner: Scanner)
        ensures
            scanner.wf(),
            scanner@ == ScannerView::fresh(source@, line as nat),
    {
        let scanner = Scanner {
            source,
            tokens: Vec::new(),
            current: 0,
            line,
            exceptions: Vec::new(),
        };
        assert(token_models(scanner.tokens@) =~= Seq::empty());
        assert(diagnostics(scanner.exceptions@) =~= Seq::empty());
        scanner
    }

    /// Takes the next character, if one is left.
    pub fn next(&mut self) -> (c: Option<char>)
        requires
            old(self).wf(),
        ensures
            final(self).wf(),
            old(self).at_end() ==> c is None && final(self).current == old(self).current,
            !old(self).at_end() ==> c == Some(old(self)@.source[old(self)@.cursor]),
            !old(self).at_end() ==> final(self).current == old(self).current + 1,
            *final(self) == (Scanner { current: final(self).current, ..*old(self) }),
    {
        let length = self.source.as_str().unicode_len();
        if self.current < length {
            let c = self.source.as_str().get_char(self.current);
            self.current += 1;
            Some(c)
        } else {
            None
        }
    }

    /// The next character, if one is left. It is not taken.
    pub fn next_peek(&mut self) -> (c: Option<char>)
        requires
            old(self).wf(),
        ensures
            *final(self) == *old(self),
            old(self).at_end() ==> c is None,
            !old(self).at_end() ==> c == Some(old(self)@.source[old(self)@.cursor]),
    {
        let length = self.source.as_str().unicode_len();
        if self.current < length {
            Some(self.source.as_str().get_char(self.current))
        } else {
            None
        }
    }

    /// Takes the longest run that begins at the cursor.
    fn take_run(&mut self, run: Run)
        requires
            old(self).wf(),
        ensures
            final(self).wf(),
            old(self).current <= final(self).current,
            final(self).current == run_end(old(self)@.source, old(self)@.cursor, run),
            *final(self) == (Scanner { current: final(self).current, ..*old(self) }),
    {
        proof {
            lemma_run_end_bounds(self@.source, self@.cursor, run);
        }
        loop
            invariant
                self.wf(),
                *self == (Scanner { current: self.current, ..*old(self) }),
                run_end(self@.source, self@.cursor, run) == run_end(
                    old(self)@.source,
                    old(self)@.cursor,
                    run,
                ),
            ensures
                self.current == run_end(old(self)@.source, old(self)@.cursor, run),
            decreases self.source@.len() - self.current,
        {
            match self.next_peek() {
                Some(c) => {
                    if !is_continued(run, c) {
                        break ;
                    }
                },
                None => {
                    break ;
                },
            }
            self.next();
        }
    }

    /// Records an exception.
    fn record(&mut self, exception: SyntaxException)
        ensures
            final(self)@ == (ScannerView {
                errors: old(self)@.errors + seq![exception@],
                ..old(self)@
            }),
            *final(self) == (Scanner { exceptions: final(self).exceptions, ..*old(self) }),
    {
        self.exceptions.push(exception);
        assert(diagnostics(self.exceptions@) =~= diagnostics(old(self).exceptions@) + seq![
            exception@,
        ]);
    }

    /// The exception for the character just taken.
    fn unexpected(&self) -> (exception: SyntaxException)
        requires
            self.wf(),
            self.current >= 1,
        ensures
            exception@ == unexpected_character(
                self@.source[self@.cursor - 1],
                self@.line,
                self@.cursor as nat,
            ),
    {
        let shown = self.source.as_str().substring_char(self.current - 1, self.current);
        let msg = "Unexpected character ".to_owned().concat(shown);
        assert(msg@ =~= "Unexpected character "@.push(self@.source[self@.cursor - 1]));
        SyntaxException::new(msg, self.line, self.current)
    }

    /// Takes one lexeme and hands back its token, if it has one; at the end
    /// of the line, hands back the end mark.
    pub fn scan(&mut self) -> (token_type: Option<TokenType>)
        requires
            old(self).wf(),
        ensures
            final(self).wf(),
            old(self).at_end() ==> token_type == Some(TokenType::EOF) && *final(self) == *old(self),
            !old(self).at_end() ==> took(
                old(self)@,
                final(self)@,
                token_type,
                step(old(self)@.source, old(self)@.cursor, old(self)@.line),
            ),
            !old(self).at_end() ==> old(self).current < final(self).current,
            !old(self).at_end() ==> token_type != Some(TokenType::EOF),
    {
        let c = match self.next() {
            Some(c) => c,
            None => {
                return Some(TokenType::EOF);
            },
        };
        proof {
            lemma_step_token(old(self)@.source, old(self)@.cursor, old(self)@.line);
        }
        match c {
            '(' => Some(TokenType::LEFT_PAREN),
            ')' => Some(TokenType::RIGHT_PAREN),
            '{' => Some(TokenType::LEFT_BRACE),
            '}' => Some(TokenType::RIGHT_BRACE),
            ';' => Some(TokenType::SEMI_COLON),
            ',' => Some(TokenType::COMMA),
            '.' => Some(TokenType::DOT),
            '-' => Some(TokenType::MINUS),
            '+' => Some(TokenType::PLUS),
            '/' => Some(TokenType::SLASH),
            '*' => Some(TokenType::STAR),
            '#' => self.scan_comment(),
            '!' => self.scan_double_character('=', TokenType::BANG, TokenType::BANG_EQUAL),
            '=' => self.scan_double_character('=', TokenType::EQUAL, TokenType::EQUAL_EQUAL),
            '>' => self.scan_double_character('=', TokenType::GREATER, TokenType::GREATER_EQUAL),
            '<' => self.scan_double_character('=', TokenType::LESS, TokenType::LESS_EQUAL),
            '"' => self.scan_string(),
            ' ' | '\r' | '\t' => None,
            _ => {
                if is_ascii_digit(c) {
                    self.scan_number()
                } else {
                    self.scan_symbol()
                }
            },
        }
    }

    /// Takes the rest of a string literal, its opening quote being taken.
    pub fn scan_string(&mut self) -> (token_type: Option<TokenType>)
        requires
            old(self).wf(),
        ensures
            final(self).wf(),
            took(
                old(self)@,
                final(self)@,
                token_type,
                string_step(old(self)@.source, old(self)@.cursor, old(self)@.line),
            ),
            old(self).current <= final(self).current,
    {
        let begin = self.current;
        self.take_run(Run::Text);
        let end = self.current;
        match self.next() {
            Some(c) => {
                if c == '"' {
                    let text = self.source.as_str().substring_char(begin, end).to_owned();
                    return Some(TokenType::STRING(text));
                }
            },
            None => {},
        }
        let exception = SyntaxException::new("Unterminated string".to_owned(), self.line, begin);
        self.record(exception);
        None
    }

    /// Takes the rest of a comment: all that is left of the line.
    pub fn scan_comment(&mut self) -> (token_type: Option<TokenType>)
        requires
            old(self).wf(),
        ensures
            final(self).wf(),
            took(
                old(self)@,
                final(self)@,
                token_type,
                comment_step(old(self)@.source, old(self)@.cursor),
            ),
            old(self).current <= final(self).current,
    {
        loop
            invariant
                self.wf(),
                *self == (Scanner { current: self.current, ..*old(self) }),
            ensures
                self.at_end(),
            decreases self.source@.len() - self.current,
        {
            match self.next() {
                Some(_) => {},
                None => {
                    break ;
                },
            }
        }
        None
    }

    /// Decides between an operator of one character, which is taken, and the
    /// same followed by `next_char`: hands back `double_token` and takes
    /// `next_char` if it comes next, else hands back `initial_token`.
    pub fn scan_double_character(
        &mut self,
        next_char: char,
        initial_token: TokenType,
        double_token: TokenType,
    ) -> (token_type: Option<TokenType>)
        requires
            old(self).wf(),
        ensures
            final(self).wf(),
            took(
                old(self)@,
                final(self)@,
                token_type,
                operator_step(
                    old(self)@.source,
                    old(self)@.cursor,
                    next_char,
                    initial_token@,
                    double_token@,
                ),
            ),
            token_type == Some(
                if final(self).current == old(self).current {
                    initial_token
                } else {
                    double_token
                },
            ),
            old(self).current <= final(self).current,
    {
        match self.next_peek() {
            Some(c) => {
                if c == next_char {
                    self.next();
                    return Some(double_token);
                }
            },
            None => {},
        }
        Some(initial_token)
    }

    /// Takes the rest of a number literal, its first digit being taken.
    pub fn scan_number(&mut self) -> (token_type: Option<TokenType>)
        requires
            old(self).wf(),
            old(self).current >= 1,
            ascii_digit(old(self)@.source[old(self)@.cursor - 1]),
        ensures
            final(self).wf(),
            took(
                old(self)@,
                final(self)@,
                token_type,
                number_step(old(self)@.source, old(self)@.cursor, old(self)@.line),
            ),
            old(self).current <= final(self).current,
    {
        let column = self.current;
        self.take_run(Run::Number);
        let text = self.source.as_str().substring_char(column - 1, self.current).to_owned();
        if has_single_point(text.as_str()) {
            Some(TokenType::NUMBER(text))
        } else {
            let exception = SyntaxException::new(
                "Invalid number literal".to_owned(),
                self.line,
                column,
            );
            self.record(exception);
            None
        }
    }

    /// Takes the rest of a symbol, its first character being taken.
    pub fn scan_symbol(&mut self) -> (token_type: Option<TokenType>)
        requires
            old(self).wf(),
            old(self).current >= 1,
        ensures
            final(self).wf(),
            took(
                old(self)@,
                final(self)@,
                token_type,
                symbol_step(old(self)@.source, old(self)@.cursor, old(self)@.line),
            ),
            old(self).current <= final(self).current,
    {
        let begin = self.current - 1;
        let first = self.source.as_str().get_char(begin);
        if is_symbol_start(first) {
            self.take_run(Run::Symbol);
            let spelling = self.source.as_str().substring_char(begin, self.current).to_owned();
            let table = keywords();
            match table.get(spelling.as_str()) {
                Some(reserved) => Some(reserved.clone()),
                None => Some(TokenType::IDENTIFIER(spelling)),
            }
        } else {
            let exception = self.unexpected();
            self.record(exception);
            if is_alphanumeric(first) {
                self.take_run(Run::Symbol);
            }
            None
        }
    }

    /// Scans what is left of the line: takes lexeme after lexeme up to the
    /// end, and keeps every token with the number of the line.
    pub fn start(&mut self)
        requires
            old(self).wf(),
        ensures
            final(self).wf(),
            final(self)@ == old(self)@.scanned(),
            old(self).current <= final(self).current,
    {
        loop
            invariant
                self.wf(),
                self@.scanned() == old(self)@.scanned(),
                old(self).current <= self.current,
            ensures
                self.wf(),
                self.at_end(),
                self@.scanned() == old(self)@.scanned(),
                old(self).current <= self.current,
            decreases self.source@.len() - self.current,
        {
            let ghost before = self@;
            let ghost lexeme = step(before.source, before.cursor, before.line);
            let ghost kept = lexeme.tokens(before.line);
            let ghost recorded = lexeme.errors();
            let ghost rest = lex_from(before.source, lexeme.next, before.line);
            let token_type = match self.scan() {
                Some(TokenType::EOF) => {
                    break ;
                },
                Some(token_type) => token_type,
                None => {
                    proof {
                        assert(before.tokens + (kept + rest.tokens) =~= before.tokens
                            + rest.tokens);
                        assert(before.errors + (recorded + rest.errors) =~= (before.errors
                            + recorded) + rest.errors);
                    }
                    continue ;
                },
            };
            self.tokens.push(Token::new(token_type, self.line));
            proof {
                assert(token_models(self.tokens@) =~= before.tokens + kept);
                assert(before.tokens + (kept + rest.tokens) =~= (before.tokens + kept)
                    + rest.tokens);
                assert(before.errors + (recorded + rest.errors) =~= (before.errors + recorded)
                    + rest.errors);
            }
        }
        assert(lex_from(self@.source, self@.cursor, self@.line) == nothing());
    }
}

} // verus!
