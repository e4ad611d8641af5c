//! What the parser and the validator report.
use crate::token::Span;
use vstd::prelude::*;
use vstd::string::StringExecFns;

verus! {

/// What the parser wanted to see where it gave up.
#[derive(Clone, Copy, Debug, PartialEq, Eq, Structural)]
pub enum Expected {
    /// The start of a top-level declaration.
    Declaration,
    Identifier,
    Semicolon,
    Rpc,
    Service,
    Returns,
    Parentheses,
    Braces,
    TypePath,
    /// The end of a group.
    End,
}

impl Expected {
    /// The message of a syntax error that wanted `self`.
    pub open spec fn text(self) -> Seq<char> {
        match self {
            Expected::Declaration => "unexpected token, expected `package`, `service` or `codec`"@,
            Expected::Identifier => "expected identifier"@,
            Expected::Semicolon => "expected `;`"@,
            Expected::Rpc => "expected `rpc`"@,
            Expected::Service => "expected `service`"@,
            Expected::Returns => "expected `returns`"@,
            Expected::Parentheses => "expected parentheses"@,
            Expected::Braces => "expected curly braces"@,
            Expected::TypePath => "expected type path"@,
            Expected::End => "unexpected token"@,
        }
    }

    /// The message of a syntax error that wanted `self`.
    pub fn message(self) -> (text: &'static str)
        ensures
            text@ == self.text(),
    {
        match self {
            Expected::Declaration => "unexpected token, expected `package`, `service` or `codec`",
            Expected::Identifier => "expected identifier",
            Expected::Semicolon => "expected `;`",
            Expected::Rpc => "expected `rpc`",
            Expected::Service => "expected `service`",
            Expected::Returns => "expected `returns`",
            Expected::Parentheses => "expected parentheses",
            Expected::Braces => "expected curly braces",
            Expected::TypePath => "expected type path",
            Expected::End => "unexpected token",
        }
    }
}

/// Why a unit was turned down. The first fault found ends the work: no
/// error holds more than one.
#[derive(Clone, Debug, PartialEq, Eq)]
pub enum Error {
    /// The tokens do not follow the grammar; `span` is the offending token.
    SyntaxError { message: String, span: Span },
    /// A declaration that the dialect requires is absent.
    MissingField(String),
    /// A declaration that may stand once stands twice.
    DuplicateDeclaration(String),
    /// The dialect wants exactly one service and the unit has another count.
    InvalidServiceCount,
}

/// An [`Error`] with its texts as sequences of characters.
pub enum ErrorView {
    SyntaxError { message: Seq<char>, span: Span },
    MissingField(Seq<char>),
    DuplicateDeclaration(Seq<char>),
    InvalidServiceCount,
}

impl View for Error {
    type V = ErrorView;

    open spec fn view(&self) -> ErrorView {
        match *self {
            Error::SyntaxError { message, span } => ErrorView::SyntaxError {
                message: message@,
                span,
            },
            Error::MissingField(field) => ErrorView::MissingField(field@),
            Error::DuplicateDeclaration(field) => ErrorView::DuplicateDeclaration(field@),
            Error::InvalidServiceCount => ErrorView::InvalidServiceCount,
        }
    }
}

impl ErrorView {
    /// What the error says, for a reader.
    pub open spec fn message(self) -> Seq<char> {
        match self {
            ErrorView::SyntaxError { message, .. } => message,
            ErrorView::MissingField(field) => "missing declaration: "@ + field,
            ErrorView::DuplicateDeclaration(field) => "duplicate declaration: "@ + field,
            ErrorView::InvalidServiceCount => "exactly one service is required"@,
        }
    }

    /// The place that the error blames. Only a syntax error has one: the
    /// others speak of the unit as a whole.
    pub open spec fn span(self) -> Option<Span> {
        match self {
            ErrorView::SyntaxError { span, .. } => Some(span),
            _ => None,
        }
    }
}

/// The syntax error that wanted `expected` at `span`.
pub open spec fn syntax_error(expected: Expected, span: Span) -> ErrorView {
    ErrorView::SyntaxError { message: expected.text(), span }
}

impl Error {
    /// The syntax error that wanted `expected` at `span`.
    pub fn syntax(expected: Expected, span: Span) -> (error: Error)
        ensures
            error@ == syntax_error(expected, span),
    {
        Error::SyntaxError { message: String::from_str(expected.message()), span }
    }

    /// What the error says, for a reader.
    pub fn message(&self) -> (text: String)
        ensures
            text@ == self@.message(),
    {
        match self {
            Error::SyntaxError { message, .. } => message.clone(),
            Error::MissingField(field) => String::from_str("missing declaration: ").concat(
                field.as_str(),
            ),
            Error::DuplicateDeclaration(field) => String::from_str(
                "duplicate declaration: ",
            ).concat(field.as_str()),
            Error::InvalidServiceCount => String::from_str("exactly one service is required"),
        }
    }

    /// The place that the error blames, if it blames one.
    pub fn span(&self) -> (span: Option<Span>)
        ensures
            span == self@.span(),
    {
        match self {
            Error::SyntaxError { span, .. } => Some(*span),
            _ => None,
        }
    }
}

} // verus!
