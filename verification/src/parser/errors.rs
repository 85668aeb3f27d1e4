//! The one error type of the front end.

use crate::parser::text::{join, joined, texts};
use vstd::prelude::*;

verus! {

/// The mathematical value of an error.
pub enum ErrorView {
    Syntax { message: Seq<char>, line: nat, column: nat },
    Structure { message: Seq<char>, line: nat, column: nat },
    Resolution { call: Seq<char>, known: Seq<Seq<char>> },
    Recursion { signature: Seq<char> },
    Codec { message: Seq<char> },
}

/// Why a source text could not be compiled, or stored bytes not be read.
#[derive(Debug)]
pub enum ParseError {
    /// The source text does not follow the grammar. Line and column say
    /// where.
    Syntax { message: String, line: usize, column: usize },
    /// A node of the parse tree has a shape that the builder cannot
    /// interpret. Line and column say where the node starts.
    Structure { message: String, line: usize, column: usize },
    /// A call matches no registered definition. `call` is the signature of
    /// the call, `known` the signatures of all definitions, in the order in
    /// which they were registered.
    Resolution { call: String, known: Vec<String> },
    /// A definition was called while it was being expanded.
    Recursion { signature: String },
    /// Stored bytes are not a program, or could not be read or written.
    Codec { message: String },
}

impl View for ParseError {
    type V = ErrorView;

    open spec fn view(&self) -> ErrorView {
        match self {
            ParseError::Syntax { message, line, column } => ErrorView::Syntax {
                message: message@,
                line: *line as nat,
                column: *column as nat,
            },
            ParseError::Structure { message, line, column } => ErrorView::Structure {
                message: message@,
                line: *line as nat,
                column: *column as nat,
            },
            ParseError::Resolution { call, known } => ErrorView::Resolution {
                call: call@,
                known: texts(known@),
            },
            ParseError::Recursion { signature } => ErrorView::Recursion { signature: signature@ },
            ParseError::Codec { message } => ErrorView::Codec { message: message@ },
        }
    }
}

/// The character of a decimal digit.
pub open spec fn digit(d: nat) -> char {
    if d == 0 {
        '0'
    } else if d == 1 {
        '1'
    } else if d == 2 {
        '2'
    } else if d == 3 {
        '3'
    } else if d == 4 {
        '4'
    } else if d == 5 {
        '5'
    } else if d == 6 {
        '6'
    } else if d == 7 {
        '7'
    } else if d == 8 {
        '8'
    } else {
        '9'
    }
}

/// A number written in decimal, without leading zeros.
pub open spec fn decimal(n: nat) -> Seq<char>
    decreases n,
{
    if n < 10 {
        seq![digit(n)]
    } else {
        decimal(n / 10).push(digit(n % 10))
    }
}

/// A message followed by the place it speaks of.
pub open spec fn located(message: Seq<char>, line: nat, column: nat) -> Seq<char> {
    message + " (line: "@ + decimal(line) + ", column: "@ + decimal(column) + ")"@
}

/// The text that describes an error to a reader.
pub open spec fn message_text(error: ErrorView) -> Seq<char> {
    match error {
        ErrorView::Syntax { message, line, column } => located(message, line, column),
        ErrorView::Structure { message, line, column } => located(message, line, column),
        ErrorView::Resolution { call, known } => "Function not found: { "@ + call
            + " } Available functions: { "@ + joined(known, ", "@) + " }"@,
        ErrorView::Recursion { signature } => "Recursive function call: "@ + signature,
        ErrorView::Codec { message } => message,
    }
}

/// Writes one decimal digit.
fn digit_text(d: usize) -> (text: &'static str)
    requires
        d < 10,
    ensures
        text@ == seq![digit(d as nat)],
{
    proof {
        reveal_strlit("0");
        reveal_strlit("1");
        reveal_strlit("2");
        reveal_strlit("3");
        reveal_strlit("4");
        reveal_strlit("5");
        reveal_strlit("6");
        reveal_strlit("7");
        reveal_strlit("8");
        reveal_strlit("9");
    }
    let text = if d == 0 {
        "0"
    } else if d == 1 {
        "1"
    } else if d == 2 {
        "2"
    } else if d == 3 {
        "3"
    } else if d == 4 {
        "4"
    } else if d == 5 {
        "5"
    } else if d == 6 {
        "6"
    } else if d == 7 {
        "7"
    } else if d == 8 {
        "8"
    } else {
        "9"
    };
    text
}

/// Writes a number in decimal.
pub fn decimal_text(n: usize) -> (text: String)
    ensures
        text@ == decimal(n as nat),
    decreases n,
{
    if n < 10 {
        let mut text = String::new();
        text.append(digit_text(n));
        text
    } else {
        let mut text = decimal_text(n / 10);
        text.append(digit_text(n % 10));
        text
    }
}

/// Writes a message followed by the place it speaks of.
fn located_text(message: &String, line: usize, column: usize) -> (text: String)
    ensures
        text@ == located(message@, line as nat, column as nat),
{
    let mut text = message.clone();
    text.append(" (line: ");
    text.append(decimal_text(line).as_str());
    text.append(", column: ");
    text.append(decimal_text(column).as_str());
    text.append(")");
    text
}

impl ParseError {
    /// An error of the codec or of the file system, with its message.
    pub fn new(message: String) -> (error: ParseError)
        ensures
            error@ == (ErrorView::Codec { message: message@ }),
    {
        ParseError::Codec { message }
    }

    /// The text that describes this error to a reader.
    pub fn message(&self) -> (text: String)
        ensures
            text@ == message_text(self@),
    {
        match self {
            ParseError::Syntax { message, line, column } => located_text(message, *line, *column),
            ParseError::Structure { message, line, column } => located_text(
                message,
                *line,
                *column,
            ),
            ParseError::Resolution { call, known } => {
                let mut text = String::new();
                text.append("Function not found: { ");
                text.append(call.as_str());
                text.append(" } Available functions: { ");
                text.append(join(known, ", ").as_str());
                text.append(" }");
                text
            },
            ParseError::Recursion { signature } => {
                let mut text = String::new();
                text.append("Recursive function call: ");
                text.append(signature.as_str());
                text
            },
            ParseError::Codec { message } => message.clone(),
        }
    }
}

} // verus!
