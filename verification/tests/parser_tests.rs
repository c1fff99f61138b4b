use batch_parser::parse;
use batch_parser::parse_redirections;
use batch_parser::ParseError;
use batch_parser::Redirection;
use batch_parser::RedirectionKind;
use batch_parser::Statement;
use batch_parser::Token;
use batch_parser::TokenInfo;

fn tok(token: Token) -> TokenInfo {
    TokenInfo { token, invisible: false }
}

fn word(s: &str) -> TokenInfo {
    tok(Token::Identifier(s.to_string()))
}

fn strings(ws: &[&str]) -> Vec<String> {
    ws.iter().map(|w| w.to_string()).collect()
}

#[test]
fn empty_input_gives_empty_output() {
    assert_eq!(parse(Vec::new()), Ok(Vec::new()));
}

#[test]
fn echo_collects_arguments() {
    let tokens = vec![tok(Token::Echo), word("hello"), word("world")];
    let stmts = parse(tokens).unwrap();
    assert_eq!(
        stmts,
        vec![Statement::Echo {
            value: strings(&["hello", "world"]),
            invisible: false,
            redirection: None,
        }]
    );
}

#[test]
fn echo_reads_invisible_from_leading_token() {
    let tokens = vec![
        TokenInfo { token: Token::Echo, invisible: true },
        word("hi"),
    ];
    let stmts = parse(tokens).unwrap();
    assert_eq!(
        stmts,
        vec![Statement::Echo {
            value: strings(&["hi"]),
            invisible: true,
            redirection: None,
        }]
    );
}

#[test]
fn echo_stops_arguments_at_non_word() {
    let tokens = vec![tok(Token::Echo), word("a"), tok(Token::NewLine), word("b")];
    let stmts = parse(tokens).unwrap();
    assert_eq!(
        stmts,
        vec![
            Statement::Echo { value: strings(&["a"]), invisible: false, redirection: None },
            Statement::NewLine,
            Statement::Identifier("b".to_string()),
        ]
    );
}

#[test]
fn redirection_last_wins() {
    let tokens = vec![
        tok(Token::Echo),
        word("x"),
        tok(Token::RedirectionOverwriteFile),
        word("a.txt"),
        tok(Token::RedirectionAppendFile),
        word("b.txt"),
    ];
    let stmts = parse(tokens).unwrap();
    assert_eq!(
        stmts,
        vec![Statement::Echo {
            value: strings(&["x"]),
            invisible: false,
            redirection: Some(Redirection {
                kind: RedirectionKind::Append,
                target: "b.txt".to_string(),
            }),
        }]
    );
}

#[test]
fn malformed_redirection_keeps_prior_one() {
    let tokens = vec![
        tok(Token::Echo),
        word("x"),
        tok(Token::RedirectionOverwriteFile),
        word("a.txt"),
        tok(Token::RedirectionOverwriteFile),
    ];
    let stmts = parse(tokens).unwrap();
    assert_eq!(
        stmts,
        vec![
            Statement::Echo {
                value: strings(&["x"]),
                invisible: false,
                redirection: Some(Redirection {
                    kind: RedirectionKind::Overwrite,
                    target: "a.txt".to_string(),
                }),
            },
            Statement::Unknown(tok(Token::RedirectionOverwriteFile)),
        ]
    );
}

#[test]
fn dangling_marker_leaves_follower_for_next_statement() {
    let tokens = vec![
        tok(Token::Echo),
        tok(Token::RedirectionOverwriteFile),
        tok(Token::AmpersandOnlyIfSuccess),
    ];
    let stmts = parse(tokens).unwrap();
    assert_eq!(
        stmts,
        vec![
            Statement::Echo { value: Vec::new(), invisible: false, redirection: None },
            Statement::Unknown(tok(Token::RedirectionOverwriteFile)),
            Statement::AmpersandOnlyIfSuccess,
        ]
    );
}

#[test]
fn parse_redirections_advances_cursor_last_wins() {
    let tokens = vec![
        tok(Token::RedirectionOverwriteFile),
        word("a.txt"),
        tok(Token::RedirectionStderrAppendFile),
        word("b.txt"),
        tok(Token::NewLine),
    ];
    let mut i: usize = 0;
    let r = parse_redirections(&tokens, &mut i);
    assert_eq!(
        r,
        Some(Redirection { kind: RedirectionKind::StderrAppend, target: "b.txt".to_string() })
    );
    assert_eq!(i, 4);
}

#[test]
fn parse_redirections_stops_before_dangling_marker() {
    let tokens = vec![
        tok(Token::RedirectionAppendFile),
        word("a.txt"),
        tok(Token::RedirectionOverwriteFile),
    ];
    let mut i: usize = 0;
    let r = parse_redirections(&tokens, &mut i);
    assert_eq!(
        r,
        Some(Redirection { kind: RedirectionKind::Append, target: "a.txt".to_string() })
    );
    assert_eq!(i, 2);
}

#[test]
fn set_simple_assignment() {
    let tokens = vec![tok(Token::SetKeyword), word("X=1")];
    let stmts = parse(tokens).unwrap();
    assert_eq!(
        stmts,
        vec![Statement::SetCommand {
            variable: strings(&["X"]),
            value: "1".to_string(),
            invisible: false,
        }]
    );
}

#[test]
fn set_quoted_variable_splits_on_whitespace() {
    let tokens = vec![tok(Token::SetKeyword), word("\"X"), word("Y\"=value")];
    let stmts = parse(tokens).unwrap();
    assert_eq!(
        stmts,
        vec![Statement::SetCommand {
            variable: strings(&["X", "Y"]),
            value: "value".to_string(),
            invisible: false,
        }]
    );
}

#[test]
fn set_without_equals_is_fatal() {
    let tokens = vec![tok(Token::SetKeyword), word("NOEQUALS")];
    assert_eq!(parse(tokens), Err(ParseError::InvalidAssignment));
}

#[test]
fn set_without_equals_aborts_whole_parse() {
    let tokens = vec![
        tok(Token::Echo),
        word("ok"),
        tok(Token::NewLine),
        tok(Token::SetKeyword),
        word("NOEQUALS"),
        tok(Token::NewLine),
    ];
    assert_eq!(parse(tokens), Err(ParseError::InvalidAssignment));
}

#[test]
fn set_trims_around_separator() {
    let tokens = vec![tok(Token::SetKeyword), word("X"), word("="), word("1")];
    let stmts = parse(tokens).unwrap();
    assert_eq!(
        stmts,
        vec![Statement::SetCommand {
            variable: strings(&["X"]),
            value: "1".to_string(),
            invisible: false,
        }]
    );
}

#[test]
fn set_splits_at_first_equals_only() {
    let tokens = vec![tok(Token::SetKeyword), word("X=a=b")];
    let stmts = parse(tokens).unwrap();
    assert_eq!(
        stmts,
        vec![Statement::SetCommand {
            variable: strings(&["X"]),
            value: "a=b".to_string(),
            invisible: false,
        }]
    );
}

#[test]
fn set_strips_value_quotes() {
    let tokens = vec![tok(Token::SetKeyword), word("X=\"v\"")];
    let stmts = parse(tokens).unwrap();
    assert_eq!(
        stmts,
        vec![Statement::SetCommand {
            variable: strings(&["X"]),
            value: "v".to_string(),
            invisible: false,
        }]
    );
}

#[test]
fn set_strips_unbalanced_quote() {
    let tokens = vec![tok(Token::SetKeyword), word("X=\"v")];
    let stmts = parse(tokens).unwrap();
    assert_eq!(
        stmts,
        vec![Statement::SetCommand {
            variable: strings(&["X"]),
            value: "v".to_string(),
            invisible: false,
        }]
    );
}

#[test]
fn set_strips_one_quote_layer_only() {
    let tokens = vec![tok(Token::SetKeyword), word("X=\"\"v\"\"")];
    let stmts = parse(tokens).unwrap();
    assert_eq!(
        stmts,
        vec![Statement::SetCommand {
            variable: strings(&["X"]),
            value: "\"v\"".to_string(),
            invisible: false,
        }]
    );
}

#[test]
fn set_trims_tabs_around_value() {
    let tokens = vec![tok(Token::SetKeyword), word("X="), word("\tv\t")];
    let stmts = parse(tokens).unwrap();
    assert_eq!(
        stmts,
        vec![Statement::SetCommand {
            variable: strings(&["X"]),
            value: "v".to_string(),
            invisible: false,
        }]
    );
}

#[test]
fn set_empty_value() {
    let tokens = vec![tok(Token::SetKeyword), word("X=")];
    let stmts = parse(tokens).unwrap();
    assert_eq!(
        stmts,
        vec![Statement::SetCommand {
            variable: strings(&["X"]),
            value: String::new(),
            invisible: false,
        }]
    );
}

#[test]
fn goto_with_label() {
    let tokens = vec![tok(Token::Goto), word("start")];
    let stmts = parse(tokens).unwrap();
    assert_eq!(
        stmts,
        vec![Statement::Goto { label: "start".to_string(), invisible: false }]
    );
}

#[test]
fn goto_without_label_becomes_unknown() {
    let tokens = vec![tok(Token::Goto)];
    let stmts = parse(tokens).unwrap();
    assert_eq!(stmts, vec![Statement::Unknown(tok(Token::Goto))]);
}

#[test]
fn goto_leaves_non_word_follower_unconsumed() {
    let tokens = vec![tok(Token::Goto), tok(Token::NewLine)];
    let stmts = parse(tokens).unwrap();
    assert_eq!(
        stmts,
        vec![Statement::Unknown(tok(Token::Goto)), Statement::NewLine]
    );
}

#[test]
fn label_with_name() {
    let tokens = vec![tok(Token::Label), word("start")];
    let stmts = parse(tokens).unwrap();
    assert_eq!(stmts, vec![Statement::Label("start".to_string())]);
}

#[test]
fn label_without_name_becomes_unknown() {
    let tokens = vec![tok(Token::Label), tok(Token::AmpersandAlways)];
    let stmts = parse(tokens).unwrap();
    assert_eq!(
        stmts,
        vec![Statement::Unknown(tok(Token::Label)), Statement::AmpersandAlways]
    );
}

#[test]
fn identifier_merging_inserts_single_spaces() {
    let tokens = vec![word("run"), word("the"), word("thing")];
    let stmts = parse(tokens).unwrap();
    assert_eq!(stmts, vec![Statement::Identifier("run the thing".to_string())]);
}

#[test]
fn exit_collects_arguments_without_redirections() {
    let tokens = vec![
        tok(Token::Exit),
        word("1"),
        tok(Token::RedirectionOverwriteFile),
        word("a.txt"),
    ];
    let stmts = parse(tokens).unwrap();
    assert_eq!(
        stmts,
        vec![
            Statement::Exit { invisible: false, value: strings(&["1"]) },
            Statement::RedirectionOverwriteFile("a.txt".to_string()),
        ]
    );
}

#[test]
fn echo_newline_carries_sentinel_and_redirection() {
    let tokens = vec![
        tok(Token::EchoNewLine),
        tok(Token::RedirectionAppendFile),
        word("log.txt"),
    ];
    let stmts = parse(tokens).unwrap();
    assert_eq!(
        stmts,
        vec![Statement::EchoNewLine {
            value: strings(&["_NEW.LINE_"]),
            invisible: false,
            redirection: Some(Redirection {
                kind: RedirectionKind::Append,
                target: "log.txt".to_string(),
            }),
        }]
    );
}

#[test]
fn rem_reconstructs_comment_text() {
    let tokens = vec![
        tok(Token::Rem),
        word("redirect"),
        word("with"),
        tok(Token::RedirectionAppendFile),
        word("x"),
        tok(Token::AmpersandOnlyIfSuccess),
        tok(Token::NewLine),
        word("after"),
    ];
    let stmts = parse(tokens).unwrap();
    assert_eq!(
        stmts,
        vec![
            Statement::Rem("redirect with >> x &&".to_string()),
            Statement::NewLine,
            Statement::Identifier("after".to_string()),
        ]
    );
}

#[test]
fn rem_renders_keywords_in_canonical_spelling() {
    let tokens = vec![
        tok(Token::Rem),
        tok(Token::Echo),
        tok(Token::Exit),
        tok(Token::Goto),
        tok(Token::Label),
        tok(Token::Rem),
        tok(Token::RedirectionOverwriteFile),
        tok(Token::RedirectionStderrOverwriteFile),
        tok(Token::RedirectionStderrAppendFile),
        tok(Token::AmpersandAlways),
    ];
    let stmts = parse(tokens).unwrap();
    assert_eq!(
        stmts,
        vec![Statement::Rem("echo exit goto : rem > 2> 2>> &".to_string())]
    );
}

#[test]
fn rem_with_nothing_following_is_empty() {
    let tokens = vec![tok(Token::Rem), tok(Token::NewLine)];
    let stmts = parse(tokens).unwrap();
    assert_eq!(stmts, vec![Statement::Rem(String::new()), Statement::NewLine]);
}

#[test]
fn standalone_redirections_take_filename() {
    let tokens = vec![
        tok(Token::RedirectionOverwriteFile),
        word("a"),
        tok(Token::RedirectionAppendFile),
        word("b"),
        tok(Token::NewLine),
        tok(Token::RedirectionStderrOverwriteFile),
        word("c"),
        tok(Token::RedirectionStderrAppendFile),
        word("d"),
    ];
    let stmts = parse(tokens).unwrap();
    assert_eq!(
        stmts,
        vec![
            Statement::RedirectionOverwriteFile("a".to_string()),
            Statement::RedirectionAppendFile("b".to_string()),
            Statement::NewLine,
            Statement::RedirectionStderrOverwriteFile("c".to_string()),
            Statement::RedirectionStderrAppendFile("d".to_string()),
        ]
    );
}

#[test]
fn standalone_redirection_without_filename_becomes_unknown() {
    let tokens = vec![tok(Token::RedirectionStderrAppendFile)];
    let stmts = parse(tokens).unwrap();
    assert_eq!(
        stmts,
        vec![Statement::Unknown(tok(Token::RedirectionStderrAppendFile))]
    );
}

#[test]
fn chain_markers_and_newline_emit_their_nodes() {
    let tokens = vec![
        tok(Token::AmpersandOnlyIfSuccess),
        tok(Token::AmpersandAlways),
        tok(Token::NewLine),
    ];
    let stmts = parse(tokens).unwrap();
    assert_eq!(
        stmts,
        vec![
            Statement::AmpersandOnlyIfSuccess,
            Statement::AmpersandAlways,
            Statement::NewLine,
        ]
    );
}

#[test]
fn one_node_per_statement_head() {
    let tokens = vec![
        tok(Token::Echo),
        word("a"),
        tok(Token::RedirectionOverwriteFile),
        word("f"),
        tok(Token::NewLine),
        tok(Token::Goto),
        tok(Token::NewLine),
        word("cmd"),
        word("arg"),
        tok(Token::AmpersandAlways),
        tok(Token::Rem),
        word("note"),
    ];
    // Heads: Echo, NewLine, Goto (malformed), NewLine, merged identifier,
    // ampersand, Rem: seven nodes, every token accounted for.
    let stmts = parse(tokens).unwrap();
    assert_eq!(stmts.len(), 7);
}

#[test]
fn echo_round_trip_reproduces_argument_text() {
    let tokens = vec![tok(Token::Echo), word("alpha"), word("beta")];
    let first = parse(tokens).unwrap();
    let args = match &first[0] {
        Statement::Echo { value, .. } => value.clone(),
        _ => panic!("expected an Echo node"),
    };
    let rendered = args.join(" ");
    let mut retokenized = vec![tok(Token::Echo)];
    for w in rendered.split(' ') {
        retokenized.push(word(w));
    }
    let second = parse(retokenized).unwrap();
    let args_again = match &second[0] {
        Statement::Echo { value, .. } => value.clone(),
        _ => panic!("expected an Echo node"),
    };
    assert_eq!(args_again, args);
    assert_eq!(args_again.join(" "), rendered);
}

#[test]
fn rem_round_trip_reproduces_comment_text() {
    let tokens = vec![
        tok(Token::Rem),
        word("keep"),
        tok(Token::RedirectionAppendFile),
        word("log"),
    ];
    let first = parse(tokens).unwrap();
    let text = match &first[0] {
        Statement::Rem(t) => t.clone(),
        _ => panic!("expected a Rem node"),
    };
    let mut retokenized = vec![tok(Token::Rem)];
    for w in text.split(' ') {
        retokenized.push(word(w));
    }
    let second = parse(retokenized).unwrap();
    assert_eq!(second, vec![Statement::Rem(text)]);
}

#[test]
fn unknown_node_preserves_invisible_flag() {
    let head = TokenInfo { token: Token::Goto, invisible: true };
    let stmts = parse(vec![head.clone()]).unwrap();
    assert_eq!(
        stmts,
        vec![Statement::Unknown(TokenInfo { token: Token::Goto, invisible: true })]
    );
}

#[test]
fn parse_error_message_names_missing_separator() {
    let e = ParseError::InvalidAssignment;
    assert_eq!(e.message(), "invalid assignment: missing separator");
}
