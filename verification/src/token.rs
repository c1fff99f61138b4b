use vstd::prelude::*;
use vstd::string::*;

verus! {

/// One lexical unit, as the upstream lexer classifies it.
///
/// A bare word (command name, argument, filename, label) carries its literal
/// text; every other variant is a fixed keyword or operator category.
#[derive(Debug, PartialEq, Eq)]
pub enum Token {
    Identifier(String),
    Echo,
    EchoNewLine,
    Exit,
    Goto,
    Label,
    Rem,
    SetKeyword,
    NewLine,
    RedirectionOverwriteFile,
    RedirectionAppendFile,
    RedirectionStderrOverwriteFile,
    RedirectionStderrAppendFile,
    AmpersandOnlyIfSuccess,
    AmpersandAlways,
}

/// A token together with the echo-suppression flag the lexer attached to the
/// line it came from. The parser reads nothing else of a token's position.
#[derive(Debug, PartialEq, Eq)]
pub struct TokenInfo {
    pub token: Token,
    pub invisible: bool,
}

/// Mathematical image of a `Token`: identifier text becomes a character sequence.
pub enum TokenV {
    Identifier(Seq<char>),
    Echo,
    EchoNewLine,
    Exit,
    Goto,
    Label,
    Rem,
    SetKeyword,
    NewLine,
    RedirectionOverwriteFile,
    RedirectionAppendFile,
    RedirectionStderrOverwriteFile,
    RedirectionStderrAppendFile,
    AmpersandOnlyIfSuccess,
    AmpersandAlways,
}

/// Mathematical image of a `TokenInfo`.
pub struct TokenInfoV {
    pub token: TokenV,
    pub invisible: bool,
}

impl View for Token {
    type V = TokenV;

    open spec fn view(&self) -> TokenV {
        match self {
            Token::Identifier(s) => TokenV::Identifier(s@),
            Token::Echo => TokenV::Echo,
            Token::EchoNewLine => TokenV::EchoNewLine,
            Token::Exit => TokenV::Exit,
            Token::Goto => TokenV::Goto,
            Token::Label => TokenV::Label,
            Token::Rem => TokenV::Rem,
            Token::SetKeyword => TokenV::SetKeyword,
            Token::NewLine => TokenV::NewLine,
            Token::RedirectionOverwriteFile => TokenV::RedirectionOverwriteFile,
            Token::RedirectionAppendFile => TokenV::RedirectionAppendFile,
            Token::RedirectionStderrOverwriteFile => TokenV::RedirectionStderrOverwriteFile,
            Token::RedirectionStderrAppendFile => TokenV::RedirectionStderrAppendFile,
            Token::AmpersandOnlyIfSuccess => TokenV::AmpersandOnlyIfSuccess,
            Token::AmpersandAlways => TokenV::AmpersandAlways,
        }
    }
}

impl DeepView for Token {
    type V = TokenV;

    open spec fn deep_view(&self) -> TokenV {
        self.view()
    }
}

impl View for TokenInfo {
    type V = TokenInfoV;

    open spec fn view(&self) -> TokenInfoV {
        TokenInfoV { token: self.token@, invisible: self.invisible }
    }
}

impl DeepView for TokenInfo {
    type V = TokenInfoV;

    open spec fn deep_view(&self) -> TokenInfoV {
        self.view()
    }
}

impl Clone for Token {
    fn clone(&self) -> (r: Self)
        ensures
            r@ == self@,
    {
        match self {
            Token::Identifier(s) => Token::Identifier(s.clone()),
            Token::Echo => Token::Echo,
            Token::EchoNewLine => Token::EchoNewLine,
            Token::Exit => Token::Exit,
            Token::Goto => Token::Goto,
            Token::Label => Token::Label,
            Token::Rem => Token::Rem,
            Token::SetKeyword => Token::SetKeyword,
            Token::NewLine => Token::NewLine,
            Token::RedirectionOverwriteFile => Token::RedirectionOverwriteFile,
            Token::RedirectionAppendFile => Token::RedirectionAppendFile,
            Token::RedirectionStderrOverwriteFile => Token::RedirectionStderrOverwriteFile,
            Token::RedirectionStderrAppendFile => Token::RedirectionStderrAppendFile,
            Token::AmpersandOnlyIfSuccess => Token::AmpersandOnlyIfSuccess,
            Token::AmpersandAlways => Token::AmpersandAlways,
        }
    }
}

impl Clone for TokenInfo {
    fn clone(&self) -> (r: Self)
        ensures
            r@ == self@,
    {
        TokenInfo { token: self.token.clone(), invisible: self.invisible }
    }
}

/// Canonical surface spelling of a token, used when a comment's text is
/// reconstructed: a bare word renders as its literal text, each keyword or
/// operator category as its fixed spelling.
pub open spec fn spec_token_text(t: TokenV) -> Seq<char> {
    match t {
        TokenV::Identifier(s) => s,
        TokenV::Echo => "echo"@,
        TokenV::EchoNewLine => "EchoNewLine"@,
        TokenV::Exit => "exit"@,
        TokenV::Goto => "goto"@,
        TokenV::Label => ":"@,
        TokenV::Rem => "rem"@,
        TokenV::SetKeyword => "Set"@,
        TokenV::NewLine => Seq::empty(),
        TokenV::RedirectionOverwriteFile => ">"@,
        TokenV::RedirectionAppendFile => ">>"@,
        TokenV::RedirectionStderrOverwriteFile => "2>"@,
        TokenV::RedirectionStderrAppendFile => "2>>"@,
        TokenV::AmpersandOnlyIfSuccess => "&&"@,
        TokenV::AmpersandAlways => "&"@,
    }
}

/// Renders one token in its canonical surface spelling.
pub fn token_text(t: &Token) -> (s: String)
    ensures
        s@ == spec_token_text(t@),
{
    match t {
        Token::Identifier(w) => w.clone(),
        Token::Echo => String::from_str("echo"),
        Token::EchoNewLine => String::from_str("EchoNewLine"),
        Token::Exit => String::from_str("exit"),
        Token::Goto => String::from_str("goto"),
        Token::Label => String::from_str(":"),
        Token::Rem => String::from_str("rem"),
        Token::SetKeyword => String::from_str("Set"),
        Token::NewLine => String::new(),
        Token::RedirectionOverwriteFile => String::from_str(">"),
        Token::RedirectionAppendFile => String::from_str(">>"),
        Token::RedirectionStderrOverwriteFile => String::from_str("2>"),
        Token::RedirectionStderrAppendFile => String::from_str("2>>"),
        Token::AmpersandOnlyIfSuccess => String::from_str("&&"),
        Token::AmpersandAlways => String::from_str("&"),
    }
}

} // verus!
