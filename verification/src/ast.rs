use vstd::prelude::*;

use crate::token::TokenInfo;
use crate::token::TokenInfoV;

verus! {

/// The four stream-retargeting categories a redirection clause can have.
#[derive(Debug, PartialEq, Eq, Clone, Copy)]
pub enum RedirectionKind {
    Overwrite,
    Append,
    StderrOverwrite,
    StderrAppend,
}

/// A redirection clause attached to a command: its category and the target
/// filename. Owned by the statement that carries it.
#[derive(Debug, PartialEq, Eq)]
pub struct Redirection {
    pub kind: RedirectionKind,
    pub target: String,
}

/// Mathematical image of a `Redirection`.
pub struct RedirectionV {
    pub kind: RedirectionKind,
    pub target: Seq<char>,
}

impl View for Redirection {
    type V = RedirectionV;

    open spec fn view(&self) -> RedirectionV {
        RedirectionV { kind: self.kind, target: self.target@ }
    }
}

impl DeepView for Redirection {
    type V = RedirectionV;

    open spec fn deep_view(&self) -> RedirectionV {
        self.view()
    }
}

/// One abstract-syntax-tree node: a fully parsed batch-script construct.
#[derive(Debug, PartialEq, Eq)]
pub enum Statement {
    Echo { value: Vec<String>, invisible: bool, redirection: Option<Redirection> },
    Exit { invisible: bool, value: Vec<String> },
    Goto { label: String, invisible: bool },
    EchoNewLine { value: Vec<String>, invisible: bool, redirection: Option<Redirection> },
    Label(String),
    Rem(String),
    SetCommand { variable: Vec<String>, value: String, invisible: bool },
    RedirectionOverwriteFile(String),
    RedirectionAppendFile(String),
    RedirectionStderrOverwriteFile(String),
    RedirectionStderrAppendFile(String),
    AmpersandOnlyIfSuccess,
    AmpersandAlways,
    NewLine,
    Identifier(String),
    Unknown(TokenInfo),
}

/// Mathematical image of a `Statement`.
pub enum StatementV {
    Echo { value: Seq<Seq<char>>, invisible: bool, redirection: Option<RedirectionV> },
    Exit { invisible: bool, value: Seq<Seq<char>> },
    Goto { label: Seq<char>, invisible: bool },
    EchoNewLine { value: Seq<Seq<char>>, invisible: bool, redirection: Option<RedirectionV> },
    Label(Seq<char>),
    Rem(Seq<char>),
    SetCommand { variable: Seq<Seq<char>>, value: Seq<char>, invisible: bool },
    RedirectionOverwriteFile(Seq<char>),
    RedirectionAppendFile(Seq<char>),
    RedirectionStderrOverwriteFile(Seq<char>),
    RedirectionStderrAppendFile(Seq<char>),
    AmpersandOnlyIfSuccess,
    AmpersandAlways,
    NewLine,
    Identifier(Seq<char>),
    Unknown(TokenInfoV),
}

impl View for Statement {
    type V = StatementV;

    open spec fn view(&self) -> StatementV {
        match self {
            Statement::Echo { value, invisible, redirection } => StatementV::Echo {
                value: value.deep_view(),
                invisible: *invisible,
                redirection: redirection.deep_view(),
            },
            Statement::Exit { invisible, value } => StatementV::Exit {
                invisible: *invisible,
                value: value.deep_view(),
            },
            Statement::Goto { label, invisible } => StatementV::Goto {
                label: label@,
                invisible: *invisible,
            },
            Statement::EchoNewLine { value, invisible, redirection } => StatementV::EchoNewLine {
                value: value.deep_view(),
                invisible: *invisible,
                redirection: redirection.deep_view(),
            },
            Statement::Label(s) => StatementV::Label(s@),
            Statement::Rem(s) => StatementV::Rem(s@),
            Statement::SetCommand { variable, value, invisible } => StatementV::SetCommand {
                variable: variable.deep_view(),
                value: value@,
                invisible: *invisible,
            },
            Statement::RedirectionOverwriteFile(s) => StatementV::RedirectionOverwriteFile(s@),
            Statement::RedirectionAppendFile(s) => StatementV::RedirectionAppendFile(s@),
            Statement::RedirectionStderrOverwriteFile(s) => StatementV::RedirectionStderrOverwriteFile(s@),
            Statement::RedirectionStderrAppendFile(s) => StatementV::RedirectionStderrAppendFile(s@),
            Statement::AmpersandOnlyIfSuccess => StatementV::AmpersandOnlyIfSuccess,
            Statement::AmpersandAlways => StatementV::AmpersandAlways,
            Statement::NewLine => StatementV::NewLine,
            Statement::Identifier(s) => StatementV::Identifier(s@),
            Statement::Unknown(t) => StatementV::Unknown(t@),
        }
    }
}

impl DeepView for Statement {
    type V = StatementV;

    open spec fn deep_view(&self) -> StatementV {
        self.view()
    }
}

/// How a parse can fail as a whole. A `SET` statement whose accumulated text
/// holds no `=` separator is the one fatal, unrecoverable condition; every
/// other malformed input folds into an `Unknown` node instead.
#[derive(Debug, PartialEq, Eq, Clone, Copy)]
pub enum ParseError {
    InvalidAssignment,
}

impl ParseError {
    /// A short human-readable description of the error.
    pub fn message(&self) -> (s: &'static str)
        ensures
            s@ == "invalid assignment: missing separator"@,
    {
        "invalid assignment: missing separator"
    }
}

} // verus!
