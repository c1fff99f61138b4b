use vstd::prelude::*;

use crate::ast::ParseError;
use crate::ast::StatementV;
use crate::model::cons_stmt;
use crate::model::heads_count;
use crate::model::parse_spec;
use crate::model::redirs_len;
use crate::model::redirs_result;
use crate::model::rem_len;
use crate::model::rem_render;
use crate::model::rem_texts;
use crate::model::step_consumed;
use crate::model::step_stmt;
use crate::model::words_len;
use crate::model::words_texts;
use crate::text::is_space;
use crate::text::join_words;
use crate::text::split_ws;
use crate::text::split_ws_from;
use crate::token::TokenInfoV;
use crate::token::TokenV;

verus! {

/// A well-formed bare word as the round-trip properties need it: non-empty
/// and free of whitespace, so that a lexer splitting on spaces gives it back.
pub open spec fn word_ok(w: Seq<char>) -> bool {
    w.len() > 0 && forall|k: int| 0 <= k < w.len() ==> !is_space(w[k])
}

/// The bare-word token a space-splitting lexer makes of one word.
pub open spec fn word_token(w: Seq<char>, invisible: bool) -> TokenInfoV {
    TokenInfoV { token: TokenV::Identifier(w), invisible }
}

/// The token stream a space-splitting lexer makes of a word list.
pub open spec fn word_tokens(ws: Seq<Seq<char>>, invisible: bool) -> Seq<TokenInfoV> {
    ws.map_values(|w: Seq<char>| word_token(w, invisible))
}

/// Walking a whitespace-free prefix only moves it into the current run.
proof fn lemma_split_carries_word(w: Seq<char>, rest: Seq<char>, cur: Seq<char>)
    requires
        forall|k: int| 0 <= k < w.len() ==> !is_space(w[k]),
    ensures
        split_ws_from(w + rest, cur) == split_ws_from(rest, cur + w),
    decreases w.len(),
{
    if w.len() == 0 {
        assert(w + rest =~= rest);
        assert(cur + w =~= cur);
    } else {
        assert((w + rest)[0] == w[0]);
        assert(!is_space(w[0]));
        assert((w + rest).skip(1) =~= w.skip(1) + rest);
        assert(cur.push(w[0]) + w.skip(1) =~= cur + w);
        lemma_split_carries_word(w.skip(1), rest, cur.push(w[0]));
    }
}

/// Splitting on whitespace undoes joining with single spaces: for non-empty,
/// whitespace-free words, the split of the joined text is the word list
/// again. This is the core of the round-trip properties.
pub proof fn lemma_split_join(ws: Seq<Seq<char>>)
    requires
        forall|j: int| 0 <= j < ws.len() ==> word_ok(ws[j]),
    ensures
        split_ws(join_words(ws)) == ws,
    decreases ws.len(),
{
    if ws.len() == 0 {
        assert(split_ws(join_words(ws)) =~= ws);
    } else if ws.len() == 1 {
        let w = ws[0];
        assert(word_ok(w));
        assert(w =~= w + Seq::<char>::empty());
        lemma_split_carries_word(w, Seq::empty(), Seq::empty());
        assert(Seq::<char>::empty() + w =~= w);
        assert(split_ws(join_words(ws)) =~= ws);
    } else {
        let w = ws[0];
        let rest_txt = join_words(ws.skip(1));
        assert(word_ok(w));
        assert(join_words(ws) =~= w + (seq![' '] + rest_txt));
        lemma_split_carries_word(w, seq![' '] + rest_txt, Seq::empty());
        assert(Seq::<char>::empty() + w =~= w);
        assert((seq![' '] + rest_txt)[0] == ' ');
        assert((seq![' '] + rest_txt).skip(1) =~= rest_txt);
        lemma_split_join(ws.skip(1));
        assert(seq![w] + ws.skip(1) =~= ws);
    }
}

/// A stream of bare-word tokens is consumed whole by word accumulation, and
/// gives back exactly the word texts.
proof fn lemma_words_of_word_tokens(ws: Seq<Seq<char>>, invisible: bool)
    ensures
        words_len(word_tokens(ws, invisible)) == ws.len(),
        words_texts(word_tokens(ws, invisible)) == ws,
    decreases ws.len(),
{
    let ts = word_tokens(ws, invisible);
    if ws.len() == 0 {
        assert(words_texts(ts) =~= ws);
    } else {
        assert(ts[0].token is Identifier);
        assert(ts.skip(1) =~= word_tokens(ws.skip(1), invisible));
        lemma_words_of_word_tokens(ws.skip(1), invisible);
        assert(words_texts(ts) =~= ws);
    }
}

/// A stream of bare-word tokens is consumed whole by comment reconstruction,
/// and renders back exactly the word texts.
proof fn lemma_rem_of_word_tokens(ws: Seq<Seq<char>>, invisible: bool)
    ensures
        rem_len(word_tokens(ws, invisible)) == ws.len(),
        rem_texts(word_tokens(ws, invisible)) == ws,
    decreases ws.len(),
{
    let ts = word_tokens(ws, invisible);
    if ws.len() == 0 {
        assert(rem_texts(ts) =~= ws);
    } else {
        assert(!(ts[0].token is NewLine));
        assert(ts.skip(1) =~= word_tokens(ws.skip(1), invisible));
        lemma_rem_of_word_tokens(ws.skip(1), invisible);
        assert(rem_texts(ts) =~= ws);
    }
}

/// Every successful parse emits exactly one node per statement head: nothing
/// is dropped and nothing is emitted twice.
pub proof fn lemma_statement_count(ts: Seq<TokenInfoV>)
    ensures
        parse_spec(ts) matches Ok(sts) ==> sts.len() == heads_count(ts),
    decreases ts.len(),
{
    if ts.len() > 0 {
        let head = ts[0];
        let rest = ts.skip(1);
        let n = step_consumed(head, rest) as int;
        let n2 = if n <= rest.len() {
            n
        } else {
            rest.len() as int
        };
        lemma_statement_count(rest.skip(n2));
    }
}

/// An empty token stream parses to an empty statement sequence.
pub proof fn lemma_empty_input()
    ensures
        parse_spec(Seq::empty()) == Result::<Seq<StatementV>, ParseError>::Ok(
            Seq::<StatementV>::empty(),
        ),
{
    assert(seq![] =~= Seq::<StatementV>::empty());
}

/// Round trip for an Echo: rendering its argument words with single spaces,
/// re-tokenizing that text with a space-splitting lexer and parsing again
/// yields an Echo with the same words — re-rendering reproduces the text.
pub proof fn lemma_echo_round_trip(ws: Seq<Seq<char>>, invisible: bool)
    requires
        forall|j: int| 0 <= j < ws.len() ==> word_ok(ws[j]),
    ensures
        split_ws(join_words(ws)) == ws,
        parse_spec(
            seq![TokenInfoV { token: TokenV::Echo, invisible }] + word_tokens(
                split_ws(join_words(ws)),
                invisible,
            ),
        ) == Result::<Seq<StatementV>, ParseError>::Ok(
            seq![StatementV::Echo { value: ws, invisible, redirection: None }],
        ),
{
    lemma_split_join(ws);
    lemma_words_of_word_tokens(ws, invisible);
    let ts = seq![TokenInfoV { token: TokenV::Echo, invisible }] + word_tokens(ws, invisible);
    let rest = ts.skip(1);
    assert(ts[0] == TokenInfoV { token: TokenV::Echo, invisible });
    assert(rest =~= word_tokens(ws, invisible));
    assert(rest.skip(words_len(rest) as int).len() == 0);
    assert(redirs_len(rest.skip(words_len(rest) as int)) == 0);
    assert(redirs_result(rest.skip(words_len(rest) as int)) is None);
    let node = StatementV::Echo { value: ws, invisible, redirection: None };
    assert(step_stmt(ts[0], rest) == Result::<StatementV, ParseError>::Ok(node));
    let n = step_consumed(ts[0], rest) as int;
    assert(n == rest.len());
    assert(rest.skip(n).len() == 0);
    assert(parse_spec(rest.skip(n)) == Result::<Seq<StatementV>, ParseError>::Ok(seq![]));
    assert(parse_spec(ts) == cons_stmt(node, parse_spec(rest.skip(n))));
    assert(seq![node] + seq![] =~= seq![node]);
}

/// Round trip for an Exit: as for Echo, a second parse of the re-tokenized
/// rendering yields an Exit with the same argument words.
pub proof fn lemma_exit_round_trip(ws: Seq<Seq<char>>, invisible: bool)
    requires
        forall|j: int| 0 <= j < ws.len() ==> word_ok(ws[j]),
    ensures
        split_ws(join_words(ws)) == ws,
        parse_spec(
            seq![TokenInfoV { token: TokenV::Exit, invisible }] + word_tokens(
                split_ws(join_words(ws)),
                invisible,
            ),
        ) == Result::<Seq<StatementV>, ParseError>::Ok(
            seq![StatementV::Exit { invisible, value: ws }],
        ),
{
    lemma_split_join(ws);
    lemma_words_of_word_tokens(ws, invisible);
    let ts = seq![TokenInfoV { token: TokenV::Exit, invisible }] + word_tokens(ws, invisible);
    let rest = ts.skip(1);
    assert(ts[0] == TokenInfoV { token: TokenV::Exit, invisible });
    assert(rest =~= word_tokens(ws, invisible));
    let node = StatementV::Exit { invisible, value: ws };
    assert(step_stmt(ts[0], rest) == Result::<StatementV, ParseError>::Ok(node));
    let n = step_consumed(ts[0], rest) as int;
    assert(n == rest.len());
    assert(rest.skip(n).len() == 0);
    assert(parse_spec(rest.skip(n)) == Result::<Seq<StatementV>, ParseError>::Ok(seq![]));
    assert(parse_spec(ts) == cons_stmt(node, parse_spec(rest.skip(n))));
    assert(seq![node] + seq![] =~= seq![node]);
}

/// Round trip for a comment: re-tokenizing a Rem node's reconstructed text
/// with a space-splitting lexer and parsing it as a new comment reconstructs
/// the same text byte for byte, provided every consumed token renders as a
/// non-empty, whitespace-free word.
pub proof fn lemma_rem_round_trip(ts: Seq<TokenInfoV>, invisible: bool)
    requires
        forall|j: int| 0 <= j < rem_texts(ts).len() ==> word_ok(rem_texts(ts)[j]),
    ensures
        parse_spec(
            seq![TokenInfoV { token: TokenV::Rem, invisible }] + word_tokens(
                split_ws(rem_render(ts)),
                invisible,
            ),
        ) == Result::<Seq<StatementV>, ParseError>::Ok(seq![StatementV::Rem(rem_render(ts))]),
{
    let ws = rem_texts(ts);
    lemma_split_join(ws);
    lemma_rem_of_word_tokens(ws, invisible);
    let toks = seq![TokenInfoV { token: TokenV::Rem, invisible }] + word_tokens(ws, invisible);
    let rest = toks.skip(1);
    assert(toks[0] == TokenInfoV { token: TokenV::Rem, invisible });
    assert(rest =~= word_tokens(ws, invisible));
    let node = StatementV::Rem(rem_render(ts));
    assert(rem_render(rest) == rem_render(ts));
    assert(step_stmt(toks[0], rest) == Result::<StatementV, ParseError>::Ok(node));
    let n = step_consumed(toks[0], rest) as int;
    assert(n == rest.len());
    assert(rest.skip(n).len() == 0);
    assert(parse_spec(rest.skip(n)) == Result::<Seq<StatementV>, ParseError>::Ok(seq![]));
    assert(parse_spec(toks) == cons_stmt(node, parse_spec(rest.skip(n))));
    assert(seq![node] + seq![] =~= seq![node]);
}

} // verus!
