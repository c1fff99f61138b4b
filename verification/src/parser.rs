use vstd::prelude::*;
use vstd::string::*;

use crate::ast::ParseError;
use crate::ast::Redirection;
use crate::ast::RedirectionKind;
use crate::ast::Statement;
use crate::ast::StatementV;
use crate::model::cons_stmt;
use crate::model::first_redirection;
use crate::model::follow_word;
use crate::model::lemma_prepend_cons;
use crate::model::lemma_prepend_empty;
use crate::model::lemma_step_consumed_le;
use crate::model::parse_spec;
use crate::model::prepend;
use crate::model::redirection_kind;
use crate::model::redirs_guard;
use crate::model::redirs_len;
use crate::model::redirs_result;
use crate::model::rem_len;
use crate::model::rem_texts;
use crate::model::set_spec;
use crate::model::step_consumed;
use crate::model::step_stmt;
use crate::model::words_len;
use crate::model::words_texts;
use crate::text::find_equals;
use crate::text::join_spaces;
use crate::text::split_spaces;
use crate::text::strip_quotes_str;
use crate::text::trim_str;
use crate::token::token_text;
use crate::token::Token;
use crate::token::TokenInfo;

verus! {

/// Consumes every immediately following bare-word token and returns the
/// accumulated texts, leaving the cursor on the first non-word token.
fn collect_words(tokens: &Vec<TokenInfo>, i: &mut usize) -> (words: Vec<String>)
    requires
        *old(i) <= tokens@.len(),
    ensures
        *old(i) <= *final(i) <= tokens@.len(),
        *final(i) == *old(i) + words_len(tokens.deep_view().skip(*old(i) as int)),
        words.deep_view() == words_texts(tokens.deep_view().skip(*old(i) as int)),
{
    let ghost ts = tokens.deep_view();
    let ghost i0 = *i as int;
    let mut words: Vec<String> = Vec::new();
    proof {
        assert(words.deep_view() + words_texts(ts.skip(i0)) =~= words_texts(ts.skip(i0)));
    }
    loop
        invariant
            ts == tokens.deep_view(),
            ts.len() == tokens@.len(),
            i0 <= *i <= ts.len(),
            words_texts(ts.skip(i0)) == words.deep_view() + words_texts(ts.skip(*i as int)),
            words_len(ts.skip(i0)) == (*i - i0) + words_len(ts.skip(*i as int)),
        ensures
            i0 <= *i <= ts.len(),
            *i == i0 + words_len(ts.skip(i0)),
            words.deep_view() == words_texts(ts.skip(i0)),
        decreases ts.len() - *i,
    {
        if *i >= tokens.len() {
            proof {
                assert(ts.skip(*i as int).len() == 0);
                assert(words.deep_view() + words_texts(ts.skip(*i as int)) =~= words.deep_view());
            }
            break ;
        }
        let ghost k = *i as int;
        proof {
            assert(ts[k] == tokens@[k]@);
            assert(ts.skip(k)[0] == ts[k]);
            assert(ts.skip(k).skip(1) =~= ts.skip(k + 1));
        }
        match &tokens[*i].token {
            Token::Identifier(w) => {
                let ghost old_words = words.deep_view();
                words.push(w.clone());
                *i = *i + 1;
                proof {
                    assert(words.deep_view() =~= old_words.push(ts[k].token->Identifier_0));
                    assert(old_words + (seq![ts[k].token->Identifier_0] + words_texts(
                        ts.skip(k + 1),
                    )) =~= old_words.push(ts[k].token->Identifier_0) + words_texts(ts.skip(k + 1)));
                }
            },
            _ => {
                proof {
                    assert(words.deep_view() + words_texts(ts.skip(*i as int))
                        =~= words.deep_view());
                }
                break ;
            },
        }
    }
    words
}

/// Consumes the next token when it is a bare word and returns its text;
/// otherwise consumes nothing.
fn take_word(tokens: &Vec<TokenInfo>, i: &mut usize) -> (r: Option<String>)
    requires
        *old(i) <= tokens@.len(),
    ensures
        *old(i) <= *final(i) <= tokens@.len(),
        match r {
            Some(w) => follow_word(tokens.deep_view().skip(*old(i) as int)) && w@
                == tokens.deep_view().skip(*old(i) as int)[0].token->Identifier_0 && *final(i)
                == *old(i) + 1,
            None => !follow_word(tokens.deep_view().skip(*old(i) as int)) && *final(i) == *old(i),
        },
{
    if *i < tokens.len() {
        proof {
            assert(tokens.deep_view().skip(*i as int)[0] == tokens@[*i as int]@);
        }
        match &tokens[*i].token {
            Token::Identifier(w) => {
                let word = w.clone();
                *i = *i + 1;
                Some(word)
            },
            _ => None,
        }
    } else {
        None
    }
}

/// Consumes every token up to, but not including, the next newline token,
/// and returns each one's canonical rendering.
fn rem_words(tokens: &Vec<TokenInfo>, i: &mut usize) -> (texts: Vec<String>)
    requires
        *old(i) <= tokens@.len(),
    ensures
        *old(i) <= *final(i) <= tokens@.len(),
        *final(i) == *old(i) + rem_len(tokens.deep_view().skip(*old(i) as int)),
        texts.deep_view() == rem_texts(tokens.deep_view().skip(*old(i) as int)),
{
    let ghost ts = tokens.deep_view();
    let ghost i0 = *i as int;
    let mut texts: Vec<String> = Vec::new();
    proof {
        assert(texts.deep_view() + rem_texts(ts.skip(i0)) =~= rem_texts(ts.skip(i0)));
    }
    loop
        invariant
            ts == tokens.deep_view(),
            ts.len() == tokens@.len(),
            i0 <= *i <= ts.len(),
            rem_texts(ts.skip(i0)) == texts.deep_view() + rem_texts(ts.skip(*i as int)),
            rem_len(ts.skip(i0)) == (*i - i0) + rem_len(ts.skip(*i as int)),
        ensures
            i0 <= *i <= ts.len(),
            *i == i0 + rem_len(ts.skip(i0)),
            texts.deep_view() == rem_texts(ts.skip(i0)),
        decreases ts.len() - *i,
    {
        if *i >= tokens.len() {
            proof {
                assert(ts.skip(*i as int).len() == 0);
                assert(texts.deep_view() + rem_texts(ts.skip(*i as int)) =~= texts.deep_view());
            }
            break ;
        }
        let ghost k = *i as int;
        proof {
            assert(ts[k] == tokens@[k]@);
            assert(ts.skip(k)[0] == ts[k]);
            assert(ts.skip(k).skip(1) =~= ts.skip(k + 1));
        }
        match &tokens[*i].token {
            Token::NewLine => {
                proof {
                    assert(texts.deep_view() + rem_texts(ts.skip(*i as int))
                        =~= texts.deep_view());
                }
                break ;
            },
            _ => {
                let t = token_text(&tokens[*i].token);
                let ghost old_texts = texts.deep_view();
                texts.push(t);
                *i = *i + 1;
                proof {
                    assert(texts.deep_view() =~= old_texts.push(rem_texts(ts.skip(k))[0]));
                    assert(old_texts + (seq![rem_texts(ts.skip(k))[0]] + rem_texts(ts.skip(k + 1)))
                        =~= old_texts.push(rem_texts(ts.skip(k))[0]) + rem_texts(ts.skip(k + 1)));
                }
            },
        }
    }
    texts
}

/// The redirection category a marker token stands for, if it is one.
fn redirection_category(t: &Token) -> (r: Option<RedirectionKind>)
    ensures
        r == redirection_kind(t@),
{
    match t {
        Token::RedirectionOverwriteFile => Some(RedirectionKind::Overwrite),
        Token::RedirectionAppendFile => Some(RedirectionKind::Append),
        Token::RedirectionStderrOverwriteFile => Some(RedirectionKind::StderrOverwrite),
        Token::RedirectionStderrAppendFile => Some(RedirectionKind::StderrAppend),
        _ => None,
    }
}

/// Greedily consumes redirection clauses (a marker and its bare-word target)
/// from the cursor position. Only the last complete clause is kept; earlier
/// ones are consumed but overwritten. A marker whose target is missing or not
/// a bare word is left unconsumed, with everything after it, and whatever was
/// already resolved is returned unharmed.
pub fn parse_redirections(tokens: &Vec<TokenInfo>, i: &mut usize) -> (r: Option<Redirection>)
    requires
        *old(i) <= tokens@.len(),
    ensures
        *old(i) <= *final(i) <= tokens@.len(),
        *final(i) == *old(i) + redirs_len(tokens.deep_view().skip(*old(i) as int)),
        r.deep_view() == redirs_result(tokens.deep_view().skip(*old(i) as int)),
{
    let ghost ts = tokens.deep_view();
    let ghost i0 = *i as int;
    let mut acc: Option<Redirection> = None;
    loop
        invariant
            ts == tokens.deep_view(),
            ts.len() == tokens@.len(),
            i0 <= *i <= ts.len(),
            redirs_len(ts.skip(i0)) == (*i - i0) + redirs_len(ts.skip(*i as int)),
            redirs_result(ts.skip(i0)) == if redirs_result(ts.skip(*i as int)) is Some {
                redirs_result(ts.skip(*i as int))
            } else {
                acc.deep_view()
            },
        ensures
            i0 <= *i <= ts.len(),
            *i == i0 + redirs_len(ts.skip(i0)),
            acc.deep_view() == redirs_result(ts.skip(i0)),
        decreases ts.len() - *i,
    {
        let ghost k = *i as int;
        if *i >= tokens.len() {
            proof {
                assert(ts.skip(k).len() == 0);
                assert(!redirs_guard(ts.skip(k)));
            }
            break ;
        }
        proof {
            assert(ts[k] == tokens@[k]@);
            assert(ts.skip(k)[0] == ts[k]);
        }
        let kind_opt = redirection_category(&tokens[*i].token);
        if kind_opt.is_none() {
            proof {
                assert(!redirs_guard(ts.skip(k)));
            }
            break ;
        }
        let kind = kind_opt.unwrap();
        if *i + 1 >= tokens.len() {
            proof {
                assert(ts.skip(k).len() < 2);
                assert(!redirs_guard(ts.skip(k)));
            }
            break ;
        }
        proof {
            assert(ts.skip(k)[1] == ts[k + 1]);
            assert(ts[k + 1] == tokens@[k + 1]@);
        }
        match &tokens[*i + 1].token {
            Token::Identifier(target) => {
                acc = Some(Redirection { kind, target: target.clone() });
                *i = *i + 2;
                proof {
                    assert(redirs_guard(ts.skip(k)));
                    assert(ts.skip(k).skip(2) =~= ts.skip(k + 2));
                    assert(acc.deep_view() == Some(first_redirection(ts.skip(k))));
                }
            },
            _ => {
                proof {
                    assert(!(ts.skip(k)[1].token is Identifier));
                    assert(!redirs_guard(ts.skip(k)));
                }
                break ;
            },
        }
    }
    acc
}

/// Builds the `SET` node from the accumulated argument words, or reports the
/// one fatal condition: no `=` anywhere in the joined text.
fn build_set(args: &Vec<String>, invisible: bool) -> (r: Result<Statement, ParseError>)
    ensures
        match r {
            Ok(st) => set_spec(args.deep_view(), invisible) == Result::<
                StatementV,
                ParseError,
            >::Ok(st@),
            Err(e) => set_spec(args.deep_view(), invisible) == Result::<
                StatementV,
                ParseError,
            >::Err(e),
        },
{
    let joined = join_spaces(args);
    let js = joined.as_str();
    match find_equals(js) {
        None => Err(ParseError::InvalidAssignment),
        Some(pos) => {
            let n = js.unicode_len();
            let var_raw = js.substring_char(0, pos);
            let val_raw = js.substring_char(pos + 1, n);
            proof {
                assert(js@.subrange(0, pos as int) =~= js@.take(pos as int));
                assert(js@.subrange(pos as int + 1, n as int) =~= js@.skip(pos as int + 1));
            }
            let variable = split_spaces(strip_quotes_str(trim_str(var_raw)));
            let value = String::from_str(strip_quotes_str(trim_str(val_raw)));
            Ok(Statement::SetCommand { variable, value, invisible })
        },
    }
}

/// Drives one forward pass over the token stream and emits one statement
/// node per statement head, in input order, exactly as `parse_spec` says:
/// `Ok` with the node sequence, or the fatal malformed-assignment error.
pub fn parse(tokens: Vec<TokenInfo>) -> (r: Result<Vec<Statement>, ParseError>)
    ensures
        match r {
            Ok(stmts) => parse_spec(tokens.deep_view()) == Result::<
                Seq<StatementV>,
                ParseError,
            >::Ok(stmts.deep_view()),
            Err(e) => parse_spec(tokens.deep_view()) == Result::<
                Seq<StatementV>,
                ParseError,
            >::Err(e),
        },
{
    let ghost ts = tokens.deep_view();
    let mut out: Vec<Statement> = Vec::new();
    let mut i: usize = 0;
    proof {
        lemma_prepend_empty(parse_spec(ts));
        assert(ts.skip(0) =~= ts);
        assert(out.deep_view() =~= Seq::<StatementV>::empty());
    }
    while i < tokens.len()
        invariant
            ts == tokens.deep_view(),
            ts.len() == tokens@.len(),
            i <= tokens@.len(),
            parse_spec(ts) == prepend(out.deep_view(), parse_spec(ts.skip(i as int))),
        decreases tokens@.len() - i,
    {
        let hi = i;
        let ghost h = ts[hi as int];
        let ghost rest = ts.skip(hi as int + 1);
        let invisible = tokens[hi].invisible;
        proof {
            assert(h == tokens@[hi as int]@);
            assert(ts.skip(hi as int)[0] == h);
            assert(ts.skip(hi as int).skip(1) =~= rest);
        }
        i = i + 1;
        let stmt: Statement = match &tokens[hi].token {
            Token::Echo => {
                let value = collect_words(&tokens, &mut i);
                proof {
                    assert(rest.skip(words_len(rest) as int) =~= ts.skip(i as int));
                }
                let redirection = parse_redirections(&tokens, &mut i);
                Statement::Echo { value, invisible, redirection }
            },
            Token::EchoNewLine => {
                let mut value: Vec<String> = Vec::new();
                value.push(String::from_str("_NEW.LINE_"));
                proof {
                    assert(value.deep_view() =~= seq!["_NEW.LINE_"@]);
                }
                let redirection = parse_redirections(&tokens, &mut i);
                Statement::EchoNewLine { value, invisible, redirection }
            },
            Token::Identifier(first) => {
                let head_word = first.clone();
                let more = collect_words(&tokens, &mut i);
                let mut all: Vec<String> = Vec::new();
                all.push(head_word);
                let mut tail = more;
                all.append(&mut tail);
                proof {
                    assert(all.deep_view() =~= seq![h.token->Identifier_0] + words_texts(rest));
                }
                Statement::Identifier(join_spaces(&all))
            },
            Token::Exit => {
                let value = collect_words(&tokens, &mut i);
                Statement::Exit { invisible, value }
            },
            Token::SetKeyword => {
                let args = collect_words(&tokens, &mut i);
                match build_set(&args, invisible) {
                    Ok(st) => st,
                    Err(e) => {
                        proof {
                            assert(step_stmt(h, rest) == Result::<StatementV, ParseError>::Err(e));
                            lemma_step_consumed_le(h, rest);
                            assert(parse_spec(ts.skip(hi as int)) == Result::<
                                Seq<StatementV>,
                                ParseError,
                            >::Err(e));
                        }
                        return Err(e);
                    },
                }
            },
            Token::Goto => {
                match take_word(&tokens, &mut i) {
                    Some(label) => Statement::Goto { label, invisible },
                    None => Statement::Unknown(tokens[hi].clone()),
                }
            },
            Token::Label => {
                match take_word(&tokens, &mut i) {
                    Some(label) => Statement::Label(label),
                    None => Statement::Unknown(tokens[hi].clone()),
                }
            },
            Token::Rem => {
                let texts = rem_words(&tokens, &mut i);
                Statement::Rem(join_spaces(&texts))
            },
            Token::RedirectionOverwriteFile => {
                match take_word(&tokens, &mut i) {
                    Some(target) => Statement::RedirectionOverwriteFile(target),
                    None => Statement::Unknown(tokens[hi].clone()),
                }
            },
            Token::RedirectionAppendFile => {
                match take_word(&tokens, &mut i) {
                    Some(target) => Statement::RedirectionAppendFile(target),
                    None => Statement::Unknown(tokens[hi].clone()),
                }
            },
            Token::RedirectionStderrOverwriteFile => {
                match take_word(&tokens, &mut i) {
                    Some(target) => Statement::RedirectionStderrOverwriteFile(target),
                    None => Statement::Unknown(tokens[hi].clone()),
                }
            },
            Token::RedirectionStderrAppendFile => {
                match take_word(&tokens, &mut i) {
                    Some(target) => Statement::RedirectionStderrAppendFile(target),
                    None => Statement::Unknown(tokens[hi].clone()),
                }
            },
            Token::AmpersandOnlyIfSuccess => Statement::AmpersandOnlyIfSuccess,
            Token::AmpersandAlways => Statement::AmpersandAlways,
            Token::NewLine => Statement::NewLine,
        };
        let ghost sv = stmt@;
        proof {
            lemma_step_consumed_le(h, rest);
            assert(i == hi + 1 + step_consumed(h, rest));
            assert(step_stmt(h, rest) == Result::<StatementV, ParseError>::Ok(sv));
            assert(rest.skip(step_consumed(h, rest) as int) =~= ts.skip(i as int));
            assert(parse_spec(ts.skip(hi as int)) == cons_stmt(sv, parse_spec(ts.skip(i as int))));
            lemma_prepend_cons(out.deep_view(), sv, parse_spec(ts.skip(i as int)));
        }
        let ghost old_out = out.deep_view();
        out.push(stmt);
        proof {
            assert(out.deep_view() =~= old_out.push(sv));
        }
    }
    proof {
        assert(ts.skip(tokens@.len() as int).len() == 0);
        assert(out.deep_view() + Seq::<StatementV>::empty() =~= out.deep_view());
    }
    Ok(out)
}

} // verus!
