//! Records of malformed input.

use vstd::prelude::*;

verus! {

/// What an exception states: a message and the place it speaks of.
pub struct Diagnostic {
    pub msg: Seq<char>,
    pub line: nat,
    pub col: nat,
}

/// A message with the line and column it refers to.
#[derive(Debug)]
pub struct BaseException {
    msg: String,
    line: usize,
    col: usize,
}

/// A malformed fragment of the scanned text. It describes; it never stops a scan.
#[derive(Debug)]
pub struct SyntaxException {
    exception: BaseException,
}

impl View for BaseException {
    type V = Diagnostic;

    closed spec fn view(&self) -> Diagnostic {
        Diagnostic { msg: self.msg@, line: self.line as nat, col: self.col as nat }
    }
}

impl View for SyntaxException {
    type V = Diagnostic;

    closed spec fn view(&self) -> Diagnostic {
        self.exception@
    }
}

/// The exception for a character that begins no lexeme.
pub open spec fn unexpected_character(c: char, line: nat, col: nat) -> Diagnostic {
    Diagnostic { msg: "Unexpected character "@.push(c), line, col }
}

/// The exception for a string literal that no quote closes.
pub open spec fn unterminated_string(line: nat, col: nat) -> Diagnostic {
    Diagnostic { msg: "Unterminated string"@, line, col }
}

/// The exception for digits and decimal points that read as no number.
pub open spec fn invalid_number(line: nat, col: nat) -> Diagnostic {
    Diagnostic { msg: "Invalid number literal"@, line, col }
}

/// The character of a decimal digit.
pub open spec fn digit(d: nat) -> char
    recommends
        d < 10,
{
    ('0' as nat + d) as char
}

/// A number written in decimal: its digits, the highest first, without
/// leading zeros.
pub open spec fn decimal(n: nat) -> Seq<char>
    decreases n,
{
    if n < 10 {
        seq![digit(n)]
    } else {
        decimal(n / 10).push(digit(n % 10))
    }
}

/// The text that reports an exception: a heading in red, the line and the
/// column, and the message on a line of its own.
pub open spec fn report(exception: Diagnostic) -> Seq<char> {
    "\x1b[31mSyntax Error\x1b[0m at "@ + decimal(exception.line) + ":"@ + decimal(exception.col)
        + "\n\t "@ + exception.msg
}

/// An exception that can be shown to the user.
pub trait PrintException {
    /// The text to show.
    spec fn shown(&self) -> Seq<char>;

    /// The text to print for the exception.
    fn print_exception(&self) -> (text: String)
        ensures
            text@ == self.shown(),
    ;
}

/// A decimal digit as a text of one character.
fn digit_text(d: usize) -> (text: &'static str)
    requires
        d < 10,
    ensures
        text@ == seq![digit(d as nat)],
{
    let text = if d == 0 {
        "0"
    } else if d == 1 {
        "1"
    } else if d == 2 {
        "2"
    } else if d == 3 {
        "3"
    } else if d == 4 {
        "4"
    } else if d == 5 {
        "5"
    } else if d == 6 {
        "6"
    } else if d == 7 {
        "7"
    } else if d == 8 {
        "8"
    } else {
        "9"
    };
    proof {
        reveal_strlit("0");
        reveal_strlit("1");
        reveal_strlit("2");
        reveal_strlit("3");
        reveal_strlit("4");
        reveal_strlit("5");
        reveal_strlit("6");
        reveal_strlit("7");
        reveal_strlit("8");
        reveal_strlit("9");
    }
    text
}

/// Writes a number in decimal.
pub fn decimal_text(n: usize) -> (text: String)
    ensures
        text@ == decimal(n as nat),
    decreases n,
{
    if n < 10 {
        digit_text(n).to_owned()
    } else {
        decimal_text(n / 10).concat(digit_text(n % 10))
    }
}

impl BaseException {
    /// A message about a line and a column.
    pub fn new(msg: String, line: usize, col: usize) -> (r: BaseException)
        ensures
            r@ == (Diagnostic { msg: msg@, line: line as nat, col: col as nat }),
    {
        BaseException { msg, line, col }
    }

    /// The message.
    pub fn msg(&self) -> (msg: &String)
        ensures
            msg@ == self@.msg,
    {
        &self.msg
    }

    /// The line that the message refers to.
    pub fn line(&self) -> (line: usize)
        ensures
            line == self@.line,
    {
        self.line
    }

    /// The column that the message refers to, counted from 1.
    pub fn col(&self) -> (col: usize)
        ensures
            col == self@.col,
    {
        self.col
    }
}

impl SyntaxException {
    /// An exception with a message, about a line and a column.
    pub fn new(msg: String, line: usize, col: usize) -> (r: SyntaxException)
        ensures
            r@ == (Diagnostic { msg: msg@, line: line as nat, col: col as nat }),
    {
        SyntaxException { exception: BaseException::new(msg, line, col) }
    }

    /// The message.
    pub fn msg(&self) -> (msg: &String)
        ensures
            msg@ == self@.msg,
    {
        self.exception.msg()
    }

    /// The line of the malformed fragment.
    pub fn line(&self) -> (line: usize)
        ensures
            line == self@.line,
    {
        self.exception.line()
    }

    /// The column at which the malformed fragment begins, counted from 1.
    pub fn col(&self) -> (col: usize)
        ensures
            col == self@.col,
    {
        self.exception.col()
    }
}

impl PrintException for SyntaxException {
    open spec fn shown(&self) -> Seq<char> {
        report(self@)
    }

    fn print_exception(&self) -> (text: String) {
        let text = "\x1b[31mSyntax Error\x1b[0m at ".to_owned();
        let text = text.concat(decimal_text(self.line()).as_str());
        let text = text.concat(":");
        let text = text.concat(decimal_text(self.col()).as_str());
        let text = text.concat("\n\t ");
        let text = text.concat(self.msg().as_str());
        text
    }
}

} // verus!
