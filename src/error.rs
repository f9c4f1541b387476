//! Diagnostics: named error kinds with a source location.
use vstd::prelude::*;
use crate::lex::byte_offset;
use crate::text::push_char;

verus! {

/// The closed set of compile errors, named after the rule that was broken.
#[derive(Debug, Clone, Copy, PartialEq, Eq, Structural)]
pub enum ErrorKind {
    ExpectedParen,
    ExpectedDef,
    ExpectedName,
    ExpectedFuncType,
    ExpectedFuncTypeAfterName,
    ExpectedFuncExpr,
    ExpectedType,
    ExpectedFuncRetTerminalType,
    ExpectedParam,
    ExpectedParamName,
    ExpectedParamType,
    UnexpectedToken,
    ExpectedDefinedType,
    ExpectedTerminalType,
    ExpectedMain,
    UnexpectedMultiMain,
    ExpectedMainType,
    ExpectedDefinedSymbol,
    ExpectedLiteralOrVar,
    TypeMismatch,
    ExpectedFunc,
    FuncTypeMismatch,
    ExpectedArgument,
    UnexpectedArgument,
    NoTypeMatch,
}

/// The stable identifier of an error kind.
pub open spec fn kind_name(kind: ErrorKind) -> Seq<char> {
    match kind {
        ErrorKind::ExpectedParen => "expected_paren"@,
        ErrorKind::ExpectedDef => "expected_def"@,
        ErrorKind::ExpectedName => "expected_name"@,
        ErrorKind::ExpectedFuncType => "expected_func_type"@,
        ErrorKind::ExpectedFuncTypeAfterName => "expected_func_type_after_name"@,
        ErrorKind::ExpectedFuncExpr => "expected_func_expr"@,
        ErrorKind::ExpectedType => "expected_type"@,
        ErrorKind::ExpectedFuncRetTerminalType => "expected_func_ret_terminal_type"@,
        ErrorKind::ExpectedParam => "expected_param"@,
        ErrorKind::ExpectedParamName => "expected_param_name"@,
        ErrorKind::ExpectedParamType => "expected_param_type"@,
        ErrorKind::UnexpectedToken => "unexpected_token"@,
        ErrorKind::ExpectedDefinedType => "expected_defined_type"@,
        ErrorKind::ExpectedTerminalType => "expected_terminal_type"@,
        ErrorKind::ExpectedMain => "expected_main"@,
        ErrorKind::UnexpectedMultiMain => "unexpected_multi_main"@,
        ErrorKind::ExpectedMainType => "expected_main_type"@,
        ErrorKind::ExpectedDefinedSymbol => "expected_defined_symbol"@,
        ErrorKind::ExpectedLiteralOrVar => "expected_literal_or_var"@,
        ErrorKind::TypeMismatch => "type_mismatch"@,
        ErrorKind::ExpectedFunc => "expected_func"@,
        ErrorKind::FuncTypeMismatch => "func_type_mismatch"@,
        ErrorKind::ExpectedArgument => "expected_argument"@,
        ErrorKind::UnexpectedArgument => "unexpected_argument"@,
        ErrorKind::NoTypeMatch => "no_type_match"@,
    }
}

/// Mathematical model of a diagnostic: its kind and where it points.
pub struct Fault {
    pub kind: ErrorKind,
    pub location: Option<usize>,
}

pub open spec fn fault(kind: ErrorKind, location: usize) -> Fault {
    Fault { kind, location: Some(location) }
}

/// A compile error: its kind, the byte offset it points at, and a message for people.
#[derive(Debug)]
pub struct Error {
    kind: ErrorKind,
    location: Option<usize>,
    message: String,
}

impl View for Error {
    type V = Fault;

    closed spec fn view(&self) -> Fault {
        Fault { kind: self.kind, location: self.location }
    }
}

impl Error {
    pub fn new(kind: ErrorKind, location: Option<usize>, message: String) -> (r: Error)
        ensures
            r@ == (Fault { kind, location }),
            r.message_text() == message@,
    {
        Error { kind, location, message }
    }

    /// An error of `kind` at `location`, with the kind's standard message.
    pub fn at(kind: ErrorKind, location: usize) -> (r: Error)
        ensures
            r@ == fault(kind, location),
    {
        Error { kind, location: Some(location), message: String::from_str(kind_message(kind)) }
    }

    /// An error with no location.
    pub fn global(kind: ErrorKind) -> (r: Error)
        ensures
            r@ == (Fault { kind, location: None }),
    {
        Error { kind, location: None, message: String::from_str(kind_message(kind)) }
    }

    /// An error of `kind` at `location` whose message quotes `token`.
    pub fn about(kind: ErrorKind, location: usize, token: &str) -> (r: Error)
        ensures
            r@ == fault(kind, location),
    {
        let mut message = String::from_str(kind_message(kind));
        message.append(" `");
        message.append(token);
        message.append("`");
        Error { kind, location: Some(location), message }
    }

    pub fn kind(&self) -> (r: ErrorKind)
        ensures
            r == self@.kind,
    {
        self.kind
    }

    pub fn location(&self) -> (r: Option<usize>)
        ensures
            r == self@.location,
    {
        self.location
    }

    /// The message for people.
    pub closed spec fn message_text(&self) -> Seq<char> {
        self.message@
    }

    pub fn message(&self) -> (r: &str)
        ensures
            r@ == self.message_text(),
    {
        self.message.as_str()
    }

    /// The diagnostic shown to people: the offending source line with a caret under the error's
    /// position, then the message.
    pub fn render(&self, text: &str) -> (r: String)
        requires
            text@.len() <= usize::MAX / 4,
        ensures
            r@ == render_spec(text@, self@.location, self.message_text()),
    {
        let mut tail = String::from_str("Error: ");
        tail.append(self.message.as_str());
        tail.append("\n");
        let loc = match self.location {
            None => {
                return tail;
            },
            Some(loc) => loc,
        };
        let ghost t = text@;
        let n = text.unicode_len();
        let mut i: usize = 0;
        let mut offset: usize = 0;
        let mut start: usize = 0;
        let mut start_offset: usize = 0;
        while i < n && offset != loc
            invariant
                n == t.len(),
                t == text@,
                n <= usize::MAX / 4,
                i <= n,
                offset == byte_offset(t, i as int),
                start == line_start(t, i as int),
                start_offset == byte_offset(t, start as int),
                char_at_offset(t, loc, 0) == char_at_offset(t, loc, i as int),
            decreases n - i,
        {
            proof {
                crate::lex::lemma_byte_offset_bound(t, i as int);
            }
            let c = text.get_char(i);
            offset = offset + crate::lex::width(c);
            i = i + 1;
            if c == '\n' {
                start = i;
                start_offset = offset;
            }
        }
        if i >= n {
            return tail;
        }
        proof {
            lemma_line_start_bound(t, i as int);
            lemma_offset_monotone(t, start as int, i as int);
        }
        let column = offset - start_offset;
        let mut end: usize = i;
        while end < n && text.get_char(end) != '\n'
            invariant
                n == t.len(),
                t == text@,
                i <= end <= n,
                line_end(t, i as int) == line_end(t, end as int),
            decreases n - end,
        {
            end = end + 1;
        }
        proof {
            lemma_line_end_bound(t, i as int);
            lemma_line_start_bound(t, i as int);
        }
        let mut r = String::from_str(text.substring_char(start, end));
        r.append("\n");
        let mut k: usize = 0;
        let ghost head = r@;
        while k < column
            invariant
                k <= column,
                r@ == head + spaces(k as nat),
            decreases column - k,
        {
            push_char(&mut r, ' ');
            k = k + 1;
        }
        r.append("^\n");
        r.append(tail.as_str());
        r
    }

    /// The stable identifier of the error's kind, such as `type_mismatch`.
    pub fn name(&self) -> (r: &'static str)
        ensures
            r@ == kind_name(self@.kind),
    {
        match self.kind {
            ErrorKind::ExpectedParen => "expected_paren",
            ErrorKind::ExpectedDef => "expected_def",
            ErrorKind::ExpectedName => "expected_name",
            ErrorKind::ExpectedFuncType => "expected_func_type",
            ErrorKind::ExpectedFuncTypeAfterName => "expected_func_type_after_name",
            ErrorKind::ExpectedFuncExpr => "expected_func_expr",
            ErrorKind::ExpectedType => "expected_type",
            ErrorKind::ExpectedFuncRetTerminalType => "expected_func_ret_terminal_type",
            ErrorKind::ExpectedParam => "expected_param",
            ErrorKind::ExpectedParamName => "expected_param_name",
            ErrorKind::ExpectedParamType => "expected_param_type",
            ErrorKind::UnexpectedToken => "unexpected_token",
            ErrorKind::ExpectedDefinedType => "expected_defined_type",
            ErrorKind::ExpectedTerminalType => "expected_terminal_type",
            ErrorKind::ExpectedMain => "expected_main",
            ErrorKind::UnexpectedMultiMain => "unexpected_multi_main",
            ErrorKind::ExpectedMainType => "expected_main_type",
            ErrorKind::ExpectedDefinedSymbol => "expected_defined_symbol",
            ErrorKind::ExpectedLiteralOrVar => "expected_literal_or_var",
            ErrorKind::TypeMismatch => "type_mismatch",
            ErrorKind::ExpectedFunc => "expected_func",
            ErrorKind::FuncTypeMismatch => "func_type_mismatch",
            ErrorKind::ExpectedArgument => "expected_argument",
            ErrorKind::UnexpectedArgument => "unexpected_argument",
            ErrorKind::NoTypeMatch => "no_type_match",
        }
    }
}

/// Index of the first character of `text`, from `i` on, that starts at byte offset `loc`.
pub open spec fn char_at_offset(text: Seq<char>, loc: usize, i: int) -> Option<int>
    decreases text.len() - i,
{
    if i < 0 || i >= text.len() {
        None
    } else if byte_offset(text, i) == loc {
        Some(i)
    } else {
        char_at_offset(text, loc, i + 1)
    }
}

/// Index of the first character of the line that holds character `i`.
pub open spec fn line_start(text: Seq<char>, i: int) -> int
    decreases i,
{
    if i <= 0 || i > text.len() {
        0
    } else if text[i - 1] == '\n' {
        i
    } else {
        line_start(text, i - 1)
    }
}

/// Index of the newline that ends the line holding character `i`, or the text's length.
pub open spec fn line_end(text: Seq<char>, i: int) -> int
    decreases text.len() - i,
{
    if i < 0 || i >= text.len() {
        text.len() as int
    } else if text[i] == '\n' {
        i
    } else {
        line_end(text, i + 1)
    }
}

pub open spec fn spaces(n: nat) -> Seq<char>
    decreases n,
{
    if n == 0 {
        seq![]
    } else {
        spaces((n - 1) as nat).push(' ')
    }
}

/// A diagnostic for people: the source line that holds the error's position with a caret under
/// that byte, then the message. Without a position inside the text, the message alone.
pub open spec fn render_spec(text: Seq<char>, location: Option<usize>, message: Seq<char>) -> Seq<char> {
    let tail = "Error: "@ + message + "\n"@;
    match location {
        None => tail,
        Some(loc) => match char_at_offset(text, loc, 0) {
            None => tail,
            Some(i) => {
                let start = line_start(text, i);
                let column = (byte_offset(text, i) - byte_offset(text, start)) as nat;
                text.subrange(start, line_end(text, i)) + "\n"@ + spaces(column) + "^\n"@ + tail
            },
        },
    }
}

proof fn lemma_offset_monotone(text: Seq<char>, a: int, b: int)
    requires
        0 <= a <= b <= text.len(),
    ensures
        byte_offset(text, a) <= byte_offset(text, b),
    decreases b - a,
{
    if a < b {
        lemma_offset_monotone(text, a, b - 1);
    }
}

proof fn lemma_line_start_bound(text: Seq<char>, i: int)
    requires
        0 <= i <= text.len(),
    ensures
        0 <= line_start(text, i) <= i,
    decreases i,
{
    if i > 0 && text[i - 1] != '\n' {
        lemma_line_start_bound(text, i - 1);
    }
}

proof fn lemma_line_end_bound(text: Seq<char>, i: int)
    requires
        0 <= i <= text.len(),
    ensures
        i <= line_end(text, i) <= text.len(),
    decreases text.len() - i,
{
    if i < text.len() && text[i] != '\n' {
        lemma_line_end_bound(text, i + 1);
    }
}

/// A sentence that explains an error kind to the programmer.
fn kind_message(kind: ErrorKind) -> &'static str {
    match kind {
        ErrorKind::ExpectedParen => "Unexpected lone token. You may be missing some parentheses.",
        ErrorKind::ExpectedDef => "Expected definition, got lone token.",
        ErrorKind::ExpectedName => "Expected a name to start definition.",
        ErrorKind::ExpectedFuncType => "Expected function type consisting of parameters and a return type.",
        ErrorKind::ExpectedFuncTypeAfterName => "Expected function type after this definition name.",
        ErrorKind::ExpectedFuncExpr => "Expected function expression after this function type.",
        ErrorKind::ExpectedType => "Expected at least one type inside function type. Try adding `void`.",
        ErrorKind::ExpectedFuncRetTerminalType => "Unexpected nesting in function return type.",
        ErrorKind::ExpectedParam => "Expected a parameter consisting of a name and a type.",
        ErrorKind::ExpectedParamName => "Unexpected nesting, expected a name for a parameter.",
        ErrorKind::ExpectedParamType => "Unexpected nesting, expected a type for a parameter.",
        ErrorKind::UnexpectedToken => "Unexpected extra token. Function definition should be a name, type and expression.",
        ErrorKind::ExpectedDefinedType => "No such type.",
        ErrorKind::ExpectedTerminalType => "Expected terminal type.",
        ErrorKind::ExpectedMain => "Expected `main` function to be defined.",
        ErrorKind::UnexpectedMultiMain => "Multiple definitions of function `main`.",
        ErrorKind::ExpectedMainType => "Expected `main` to have type `(i32)` or `(i32 i32)`.",
        ErrorKind::ExpectedDefinedSymbol => "Symbol is undefined.",
        ErrorKind::ExpectedLiteralOrVar => "Expected a literal, variable or function call.",
        ErrorKind::TypeMismatch => "This type cannot be used here.",
        ErrorKind::ExpectedFunc => "Expected a function name in the beginning of function call.",
        ErrorKind::FuncTypeMismatch => "Function call gives wrong type.",
        ErrorKind::ExpectedArgument => "Missing argument in function call.",
        ErrorKind::UnexpectedArgument => "Unexpected extra argument in function call.",
        ErrorKind::NoTypeMatch => "Functions with this name exist, but none are appropriate in this context.",
    }
}

} // verus!
