use vstd::prelude::*;

use crate::ast::ParseError;
use crate::ast::RedirectionKind;
use crate::ast::RedirectionV;
use crate::ast::StatementV;
use crate::text::find_eq;
use crate::text::join_words;
use crate::text::split_ws;
use crate::text::strip_quotes;
use crate::text::trim_spec;
use crate::token::spec_token_text;
use crate::token::TokenInfoV;
use crate::token::TokenV;

verus! {

/// The number of leading bare-word tokens.
pub open spec fn words_len(ts: Seq<TokenInfoV>) -> nat
    decreases ts.len(),
{
    if ts.len() > 0 && ts[0].token is Identifier {
        (1 + words_len(ts.skip(1))) as nat
    } else {
        0
    }
}

/// The texts of the leading bare-word tokens, in order.
pub open spec fn words_texts(ts: Seq<TokenInfoV>) -> Seq<Seq<char>>
    decreases ts.len(),
{
    if ts.len() > 0 && ts[0].token is Identifier {
        seq![ts[0].token->Identifier_0] + words_texts(ts.skip(1))
    } else {
        seq![]
    }
}

pub proof fn lemma_words_len(ts: Seq<TokenInfoV>)
    ensures
        words_len(ts) <= ts.len(),
        words_texts(ts).len() == words_len(ts),
    decreases ts.len(),
{
    if ts.len() > 0 && ts[0].token is Identifier {
        lemma_words_len(ts.skip(1));
    }
}

/// The number of tokens a comment consumes: everything before the next
/// newline token, or the whole remainder when none follows.
pub open spec fn rem_len(ts: Seq<TokenInfoV>) -> nat
    decreases ts.len(),
{
    if ts.len() > 0 && !(ts[0].token is NewLine) {
        (1 + rem_len(ts.skip(1))) as nat
    } else {
        0
    }
}

/// The canonical renderings of the tokens a comment consumes, in order.
pub open spec fn rem_texts(ts: Seq<TokenInfoV>) -> Seq<Seq<char>>
    decreases ts.len(),
{
    if ts.len() > 0 && !(ts[0].token is NewLine) {
        seq![spec_token_text(ts[0].token)] + rem_texts(ts.skip(1))
    } else {
        seq![]
    }
}

pub proof fn lemma_rem_len(ts: Seq<TokenInfoV>)
    ensures
        rem_len(ts) <= ts.len(),
        rem_texts(ts).len() == rem_len(ts),
    decreases ts.len(),
{
    if ts.len() > 0 && !(ts[0].token is NewLine) {
        lemma_rem_len(ts.skip(1));
    }
}

/// A comment's reconstructed text: the consumed tokens' renderings joined
/// with single spaces.
pub open spec fn rem_render(ts: Seq<TokenInfoV>) -> Seq<char> {
    join_words(rem_texts(ts))
}

/// The redirection category a marker token stands for, if it is one.
pub open spec fn redirection_kind(t: TokenV) -> Option<RedirectionKind> {
    match t {
        TokenV::RedirectionOverwriteFile => Some(RedirectionKind::Overwrite),
        TokenV::RedirectionAppendFile => Some(RedirectionKind::Append),
        TokenV::RedirectionStderrOverwriteFile => Some(RedirectionKind::StderrOverwrite),
        TokenV::RedirectionStderrAppendFile => Some(RedirectionKind::StderrAppend),
        _ => None,
    }
}

/// A redirection clause stands at the front: a marker token immediately
/// followed by a bare-word target. Only then are the two consumed.
pub open spec fn redirs_guard(ts: Seq<TokenInfoV>) -> bool {
    ts.len() >= 2 && redirection_kind(ts[0].token) is Some && ts[1].token is Identifier
}

/// The clause at the front, assuming `redirs_guard`.
pub open spec fn first_redirection(ts: Seq<TokenInfoV>) -> RedirectionV {
    RedirectionV {
        kind: redirection_kind(ts[0].token)->0,
        target: ts[1].token->Identifier_0,
    }
}

/// How many tokens the redirection resolver consumes: two per complete
/// clause, and nothing of a dangling marker or its non-word follower.
pub open spec fn redirs_len(ts: Seq<TokenInfoV>) -> nat
    decreases ts.len(),
{
    if redirs_guard(ts) {
        (2 + redirs_len(ts.skip(2))) as nat
    } else {
        0
    }
}

/// What the resolver returns: the last complete clause wins; with no
/// complete clause at the front there is no redirection.
pub open spec fn redirs_result(ts: Seq<TokenInfoV>) -> Option<RedirectionV>
    decreases ts.len(),
{
    if redirs_guard(ts) {
        let rest = redirs_result(ts.skip(2));
        if rest is Some {
            rest
        } else {
            Some(first_redirection(ts))
        }
    } else {
        None
    }
}

pub proof fn lemma_redirs_len(ts: Seq<TokenInfoV>)
    ensures
        redirs_len(ts) <= ts.len(),
    decreases ts.len(),
{
    if redirs_guard(ts) {
        lemma_redirs_len(ts.skip(2));
    }
}

/// What a `SET` statement makes of its accumulated argument words: the words
/// are joined with single spaces and split at the first `=`; the variable
/// part is trimmed, quote-stripped and split on whitespace, the value part
/// trimmed and quote-stripped. Without any `=` the whole parse fails.
pub open spec fn set_spec(args: Seq<Seq<char>>, invisible: bool) -> Result<
    StatementV,
    ParseError,
> {
    let joined = join_words(args);
    match find_eq(joined) {
        None => Err(ParseError::InvalidAssignment),
        Some(i) => Ok(
            StatementV::SetCommand {
                variable: split_ws(strip_quotes(trim_spec(joined.take(i)))),
                value: strip_quotes(trim_spec(joined.skip(i + 1))),
                invisible,
            },
        ),
    }
}

/// A bare word immediately follows.
pub open spec fn follow_word(rest: Seq<TokenInfoV>) -> bool {
    rest.len() > 0 && rest[0].token is Identifier
}

/// How many tokens the statement whose head is `head` consumes beyond the
/// head itself, out of the remainder `rest`.
pub open spec fn step_consumed(head: TokenInfoV, rest: Seq<TokenInfoV>) -> nat {
    match head.token {
        TokenV::Echo => {
            let k = words_len(rest);
            (k + redirs_len(rest.skip(k as int))) as nat
        },
        TokenV::EchoNewLine => redirs_len(rest),
        TokenV::Identifier(_) => words_len(rest),
        TokenV::Exit => words_len(rest),
        TokenV::SetKeyword => words_len(rest),
        TokenV::Goto => if follow_word(rest) {
            1
        } else {
            0
        },
        TokenV::Label => if follow_word(rest) {
            1
        } else {
            0
        },
        TokenV::Rem => rem_len(rest),
        TokenV::RedirectionOverwriteFile => if follow_word(rest) {
            1
        } else {
            0
        },
        TokenV::RedirectionAppendFile => if follow_word(rest) {
            1
        } else {
            0
        },
        TokenV::RedirectionStderrOverwriteFile => if follow_word(rest) {
            1
        } else {
            0
        },
        TokenV::RedirectionStderrAppendFile => if follow_word(rest) {
            1
        } else {
            0
        },
        TokenV::AmpersandOnlyIfSuccess => 0,
        TokenV::AmpersandAlways => 0,
        TokenV::NewLine => 0,
    }
}

/// The node the statement whose head is `head` emits, or the one fatal
/// error. The `invisible` flag always comes from the head token alone.
pub open spec fn step_stmt(head: TokenInfoV, rest: Seq<TokenInfoV>) -> Result<
    StatementV,
    ParseError,
> {
    match head.token {
        TokenV::Echo => Ok(
            StatementV::Echo {
                value: words_texts(rest),
                invisible: head.invisible,
                redirection: redirs_result(rest.skip(words_len(rest) as int)),
            },
        ),
        TokenV::EchoNewLine => Ok(
            StatementV::EchoNewLine {
                value: seq!["_NEW.LINE_"@],
                invisible: head.invisible,
                redirection: redirs_result(rest),
            },
        ),
        TokenV::Identifier(s) => Ok(
            StatementV::Identifier(join_words(seq![s] + words_texts(rest))),
        ),
        TokenV::Exit => Ok(
            StatementV::Exit { invisible: head.invisible, value: words_texts(rest) },
        ),
        TokenV::SetKeyword => set_spec(words_texts(rest), head.invisible),
        TokenV::Goto => if follow_word(rest) {
            Ok(StatementV::Goto { label: rest[0].token->Identifier_0, invisible: head.invisible })
        } else {
            Ok(StatementV::Unknown(head))
        },
        TokenV::Label => if follow_word(rest) {
            Ok(StatementV::Label(rest[0].token->Identifier_0))
        } else {
            Ok(StatementV::Unknown(head))
        },
        TokenV::Rem => Ok(StatementV::Rem(rem_render(rest))),
        TokenV::RedirectionOverwriteFile => if follow_word(rest) {
            Ok(StatementV::RedirectionOverwriteFile(rest[0].token->Identifier_0))
        } else {
            Ok(StatementV::Unknown(head))
        },
        TokenV::RedirectionAppendFile => if follow_word(rest) {
            Ok(StatementV::RedirectionAppendFile(rest[0].token->Identifier_0))
        } else {
            Ok(StatementV::Unknown(head))
        },
        TokenV::RedirectionStderrOverwriteFile => if follow_word(rest) {
            Ok(StatementV::RedirectionStderrOverwriteFile(rest[0].token->Identifier_0))
        } else {
            Ok(StatementV::Unknown(head))
        },
        TokenV::RedirectionStderrAppendFile => if follow_word(rest) {
            Ok(StatementV::RedirectionStderrAppendFile(rest[0].token->Identifier_0))
        } else {
            Ok(StatementV::Unknown(head))
        },
        TokenV::AmpersandOnlyIfSuccess => Ok(StatementV::AmpersandOnlyIfSuccess),
        TokenV::AmpersandAlways => Ok(StatementV::AmpersandAlways),
        TokenV::NewLine => Ok(StatementV::NewLine),
    }
}

pub proof fn lemma_step_consumed_le(head: TokenInfoV, rest: Seq<TokenInfoV>)
    ensures
        step_consumed(head, rest) <= rest.len(),
{
    lemma_words_len(rest);
    lemma_rem_len(rest);
    lemma_redirs_len(rest);
    if head.token is Echo {
        lemma_redirs_len(rest.skip(words_len(rest) as int));
    }
}

/// A statement node put in front of the rest of a parse's outcome.
pub open spec fn cons_stmt(st: StatementV, r: Result<Seq<StatementV>, ParseError>) -> Result<
    Seq<StatementV>,
    ParseError,
> {
    match r {
        Ok(sts) => Ok(seq![st] + sts),
        Err(e) => Err(e),
    }
}

/// Statements already emitted put in front of the rest of a parse's outcome.
pub open spec fn prepend(p: Seq<StatementV>, r: Result<Seq<StatementV>, ParseError>) -> Result<
    Seq<StatementV>,
    ParseError,
> {
    match r {
        Ok(sts) => Ok(p + sts),
        Err(e) => Err(e),
    }
}

pub proof fn lemma_prepend_empty(r: Result<Seq<StatementV>, ParseError>)
    ensures
        prepend(Seq::empty(), r) == r,
{
    match r {
        Ok(sts) => {
            assert(Seq::<StatementV>::empty() + sts =~= sts);
        },
        Err(_) => {},
    }
}

pub proof fn lemma_prepend_cons(
    p: Seq<StatementV>,
    st: StatementV,
    r: Result<Seq<StatementV>, ParseError>,
)
    ensures
        prepend(p, cons_stmt(st, r)) == prepend(p.push(st), r),
{
    match r {
        Ok(sts) => {
            assert(p + (seq![st] + sts) =~= p.push(st) + sts);
        },
        Err(_) => {},
    }
}

/// What the whole pass returns: one node per statement head, in input order,
/// each head consuming what `step_consumed` says, until the stream is
/// exhausted — or the one fatal error, which aborts the pass.
pub open spec fn parse_spec(ts: Seq<TokenInfoV>) -> Result<Seq<StatementV>, ParseError>
    decreases ts.len(),
{
    if ts.len() == 0 {
        Ok(seq![])
    } else {
        let head = ts[0];
        let rest = ts.skip(1);
        let n = step_consumed(head, rest) as int;
        let n2 = if n <= rest.len() {
            n
        } else {
            rest.len() as int
        };
        match step_stmt(head, rest) {
            Err(e) => Err(e),
            Ok(st) => cons_stmt(st, parse_spec(rest.skip(n2))),
        }
    }
}

/// The number of statement heads the pass visits: each loop iteration reads
/// one head and emits exactly one node.
pub open spec fn heads_count(ts: Seq<TokenInfoV>) -> nat
    decreases ts.len(),
{
    if ts.len() == 0 {
        0
    } else {
        let head = ts[0];
        let rest = ts.skip(1);
        let n = step_consumed(head, rest) as int;
        let n2 = if n <= rest.len() {
            n
        } else {
            rest.len() as int
        };
        (1 + heads_count(rest.skip(n2))) as nat
    }
}

} // verus!
