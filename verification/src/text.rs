use vstd::prelude::*;
use vstd::string::*;

verus! {

/// The characters treated as whitespace when a `SET` statement's text is
/// trimmed and its variable part split.
pub open spec fn is_space(c: char) -> bool {
    c == ' ' || c == '\t' || c == '\n' || c == '\r' || c == '\u{000C}'
}

/// Decides `is_space`.
pub fn space_char(c: char) -> (r: bool)
    ensures
        r == is_space(c),
{
    c == ' ' || c == '\t' || c == '\n' || c == '\r' || c == '\u{000C}'
}

/// The words joined with a single space between consecutive words.
pub open spec fn join_words(ws: Seq<Seq<char>>) -> Seq<char>
    decreases ws.len(),
{
    if ws.len() == 0 {
        Seq::empty()
    } else if ws.len() == 1 {
        ws[0]
    } else {
        ws[0] + seq![' '] + join_words(ws.skip(1))
    }
}

/// Appending one more word extends the joined text by a space and the word.
pub proof fn lemma_join_words_push(ws: Seq<Seq<char>>, w: Seq<char>)
    ensures
        join_words(ws.push(w)) == if ws.len() == 0 {
            w
        } else {
            join_words(ws) + seq![' '] + w
        },
    decreases ws.len(),
{
    if ws.len() == 0 {
        assert(ws.push(w) =~= seq![w]);
        assert(join_words(seq![w]) == w);
    } else if ws.len() == 1 {
        assert(ws.push(w).skip(1) =~= seq![w]);
        assert(ws.push(w)[0] == ws[0]);
        assert(join_words(seq![w]) == w);
        assert(join_words(ws.push(w)) == ws[0] + seq![' '] + w);
    } else {
        assert(ws.push(w).skip(1) =~= ws.skip(1).push(w));
        lemma_join_words_push(ws.skip(1), w);
        assert((ws[0] + seq![' ']) + (join_words(ws.skip(1)) + seq![' '] + w) =~= (ws[0] + seq![' ']
            + join_words(ws.skip(1))) + seq![' '] + w);
    }
}

/// Joins the words with single spaces.
pub fn join_spaces(words: &Vec<String>) -> (r: String)
    ensures
        r@ == join_words(words.deep_view()),
{
    let ghost ws = words.deep_view();
    let mut r = String::new();
    let mut k: usize = 0;
    while k < words.len()
        invariant
            ws == words.deep_view(),
            k <= words@.len(),
            r@ == join_words(ws.take(k as int)),
        decreases words@.len() - k,
    {
        if k > 0 {
            r.append(" ");
        }
        r.append(words[k].as_str());
        proof {
            lemma_join_words_push(ws.take(k as int), ws[k as int]);
            assert(ws.take(k as int).push(ws[k as int]) =~= ws.take(k as int + 1));
            if k == 0 {
                assert(Seq::<char>::empty() + ws[0] =~= ws[0]);
            } else {
                assert(join_words(ws.take(k as int)) + " "@ + ws[k as int] =~= join_words(
                    ws.take(k as int),
                ) + seq![' '] + ws[k as int]) by {
                    reveal_strlit(" ");
                }
            }
        }
        k += 1;
    }
    proof {
        assert(ws.take(words@.len() as int) =~= ws);
    }
    r
}

/// The index of the first `=` character, if any.
pub open spec fn find_eq(s: Seq<char>) -> Option<int>
    decreases s.len(),
{
    if s.len() == 0 {
        None
    } else if s[0] == '=' {
        Some(0int)
    } else {
        match find_eq(s.skip(1)) {
            Some(i) => Some(i + 1),
            None => None,
        }
    }
}

/// The first `=` is at `i` when `s[i]` is `=` and nothing before it is.
pub proof fn lemma_find_eq_at(s: Seq<char>, i: int)
    requires
        0 <= i < s.len(),
        s[i] == '=',
        forall|k: int| 0 <= k < i ==> s[k] != '=',
    ensures
        find_eq(s) == Some(i),
    decreases i,
{
    if i > 0 {
        lemma_find_eq_at(s.skip(1), i - 1);
    }
}

/// Without any `=` character the search finds nothing.
pub proof fn lemma_find_eq_none(s: Seq<char>)
    requires
        forall|k: int| 0 <= k < s.len() ==> s[k] != '=',
    ensures
        find_eq(s) is None,
    decreases s.len(),
{
    if s.len() > 0 {
        lemma_find_eq_none(s.skip(1));
    }
}

/// Finds the first `=` character.
pub fn find_equals(s: &str) -> (r: Option<usize>)
    ensures
        match r {
            Some(i) => i < s@.len() && find_eq(s@) == Some(i as int),
            None => find_eq(s@) is None,
        },
{
    let n = s.unicode_len();
    let mut j: usize = 0;
    while j < n
        invariant
            n == s@.len(),
            j <= n,
            forall|k: int| 0 <= k < j ==> s@[k] != '=',
        decreases n - j,
    {
        if s.get_char(j) == '=' {
            proof {
                lemma_find_eq_at(s@, j as int);
            }
            return Some(j);
        }
        j += 1;
    }
    proof {
        lemma_find_eq_none(s@);
    }
    None
}

/// The text with its leading whitespace dropped.
pub open spec fn trim_start(s: Seq<char>) -> Seq<char>
    decreases s.len(),
{
    if s.len() > 0 && is_space(s[0]) {
        trim_start(s.skip(1))
    } else {
        s
    }
}

/// The text with its trailing whitespace dropped.
pub open spec fn trim_end(s: Seq<char>) -> Seq<char>
    decreases s.len(),
{
    if s.len() > 0 && is_space(s[s.len() - 1]) {
        trim_end(s.take(s.len() - 1))
    } else {
        s
    }
}

/// The text with surrounding whitespace dropped.
pub open spec fn trim_spec(s: Seq<char>) -> Seq<char> {
    trim_end(trim_start(s))
}

/// Drops surrounding whitespace.
pub fn trim_str<'a>(s: &'a str) -> (r: &'a str)
    ensures
        r@ == trim_spec(s@),
{
    let n = s.unicode_len();
    let mut a: usize = 0;
    proof {
        assert(s@.skip(0) =~= s@);
    }
    while a < n && space_char(s.get_char(a))
        invariant
            n == s@.len(),
            a <= n,
            trim_start(s@) == trim_start(s@.skip(a as int)),
        decreases n - a,
    {
        proof {
            assert(s@.skip(a as int).skip(1) =~= s@.skip(a as int + 1));
        }
        a += 1;
    }
    proof {
        assert(trim_start(s@) == s@.skip(a as int));
    }
    let mut b: usize = n;
    while b > a && space_char(s.get_char(b - 1))
        invariant
            n == s@.len(),
            a <= b <= n,
            trim_start(s@) == s@.skip(a as int),
            trim_end(s@.skip(a as int)) == trim_end(s@.subrange(a as int, b as int)),
        decreases b,
    {
        proof {
            assert(s@.subrange(a as int, b as int).take(b - a - 1) =~= s@.subrange(
                a as int,
                b as int - 1,
            ));
        }
        b -= 1;
    }
    proof {
        assert(s@.skip(a as int) =~= s@.subrange(a as int, n as int));
        assert(trim_end(s@.subrange(a as int, b as int)) == s@.subrange(a as int, b as int));
    }
    s.substring_char(a, b)
}

/// One layer of surrounding double quotes dropped: a leading quote is removed
/// if present, then a trailing one. A quote on only one side is still removed.
pub open spec fn strip_quotes(s: Seq<char>) -> Seq<char> {
    let t = if s.len() > 0 && s[0] == '"' {
        s.skip(1)
    } else {
        s
    };
    if t.len() > 0 && t[t.len() - 1] == '"' {
        t.take(t.len() - 1)
    } else {
        t
    }
}

/// Drops one layer of surrounding double quotes.
pub fn strip_quotes_str<'a>(s: &'a str) -> (r: &'a str)
    ensures
        r@ == strip_quotes(s@),
{
    let n = s.unicode_len();
    let a: usize = if n > 0 && s.get_char(0) == '"' {
        1
    } else {
        0
    };
    let b: usize = if n > a && s.get_char(n - 1) == '"' {
        n - 1
    } else {
        n
    };
    proof {
        let t = if s@.len() > 0 && s@[0] == '"' {
            s@.skip(1)
        } else {
            s@
        };
        assert(t =~= s@.subrange(a as int, n as int));
        assert(s@.subrange(a as int, b as int) =~= strip_quotes(s@));
    }
    s.substring_char(a, b)
}

/// The maximal whitespace-free runs of `s`, after the run `cur` already read.
pub open spec fn split_ws_from(s: Seq<char>, cur: Seq<char>) -> Seq<Seq<char>>
    decreases s.len(),
{
    if s.len() == 0 {
        if cur.len() > 0 {
            seq![cur]
        } else {
            seq![]
        }
    } else if is_space(s[0]) {
        (if cur.len() > 0 {
            seq![cur]
        } else {
            seq![]
        }) + split_ws_from(s.skip(1), Seq::empty())
    } else {
        split_ws_from(s.skip(1), cur.push(s[0]))
    }
}

/// The maximal whitespace-free runs of `s`, in order.
pub open spec fn split_ws(s: Seq<char>) -> Seq<Seq<char>> {
    split_ws_from(s, Seq::empty())
}

/// Splits on whitespace: the returned words are the maximal whitespace-free
/// runs, so none is empty and no separators are kept.
pub fn split_spaces(s: &str) -> (r: Vec<String>)
    ensures
        r.deep_view() == split_ws(s@),
{
    let n = s.unicode_len();
    let mut out: Vec<String> = Vec::new();
    let mut start: usize = 0;
    let mut j: usize = 0;
    proof {
        assert(s@.skip(0) =~= s@);
        assert(s@.subrange(0, 0) =~= Seq::<char>::empty());
        assert(out.deep_view() + split_ws_from(s@, Seq::empty()) =~= split_ws_from(
            s@,
            Seq::empty(),
        ));
    }
    while j < n
        invariant
            n == s@.len(),
            start <= j <= n,
            split_ws(s@) == out.deep_view() + split_ws_from(
                s@.skip(j as int),
                s@.subrange(start as int, j as int),
            ),
        decreases n - j,
    {
        let ghost cur = s@.subrange(start as int, j as int);
        proof {
            assert(s@.skip(j as int)[0] == s@[j as int]);
            assert(s@.skip(j as int).skip(1) =~= s@.skip(j as int + 1));
        }
        if space_char(s.get_char(j)) {
            if start < j {
                let w = s.substring_char(start, j);
                let word = String::from_str(w);
                let ghost old_out = out.deep_view();
                out.push(word);
                proof {
                    assert(out.deep_view() =~= old_out.push(cur));
                    assert(old_out.push(cur) =~= old_out + seq![cur]);
                    assert(split_ws_from(s@.skip(j as int), cur) == seq![cur] + split_ws_from(
                        s@.skip(j as int + 1),
                        Seq::empty(),
                    ));
                    assert(old_out + (seq![cur] + split_ws_from(s@.skip(j as int + 1), Seq::empty()))
                        =~= (old_out + seq![cur]) + split_ws_from(
                        s@.skip(j as int + 1),
                        Seq::empty(),
                    ));
                }
            } else {
                proof {
                    assert(cur.len() == 0);
                    assert(seq![cur] + split_ws_from(s@.skip(j as int + 1), Seq::empty())
                        == split_ws_from(s@.skip(j as int), cur) || split_ws_from(
                        s@.skip(j as int),
                        cur,
                    ) == split_ws_from(s@.skip(j as int + 1), Seq::empty()));
                }
            }
            start = j + 1;
            proof {
                assert(s@.subrange(start as int, j as int + 1) =~= Seq::<char>::empty());
            }
        } else {
            proof {
                assert(cur.push(s@[j as int]) =~= s@.subrange(start as int, j as int + 1));
            }
        }
        j += 1;
    }
    proof {
        assert(s@.skip(n as int) =~= Seq::<char>::empty());
    }
    if start < n {
        let w = s.substring_char(start, n);
        let word = String::from_str(w);
        let ghost old_out = out.deep_view();
        out.push(word);
        proof {
            assert(out.deep_view() =~= old_out.push(s@.subrange(start as int, n as int)));
            assert(old_out + seq![s@.subrange(start as int, n as int)] =~= out.deep_view());
        }
    } else {
        proof {
            assert(s@.subrange(start as int, n as int).len() == 0);
            assert(out.deep_view() + split_ws_from(
                Seq::empty(),
                s@.subrange(start as int, n as int),
            ) =~= out.deep_view());
        }
    }
    out
}

} // verus!
