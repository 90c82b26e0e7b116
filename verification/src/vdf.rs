//! Tokens of Valve's KeyValues text format (`.vdf`): quoted or bare
//! strings and braces.
use vstd::prelude::*;
use crate::text::{char_is_whitespace, chars_to_string, is_ws, slice_range};

verus! {

/// A token of a `.vdf` file.
#[derive(Debug, Clone)]
pub enum Token {
    Text(String),
    Open,
    Close,
}

/// A token as text.
pub enum TokenV {
    Text(Seq<char>),
    Open,
    Close,
}

impl View for Token {
    type V = TokenV;

    open spec fn view(&self) -> TokenV {
        match self {
            Token::Text(s) => TokenV::Text(s@),
            Token::Open => TokenV::Open,
            Token::Close => TokenV::Close,
        }
    }
}

pub open spec fn tokens_view(v: Seq<Token>) -> Seq<TokenV> {
    v.map_values(|t: Token| t@)
}

/// The content of a quoted string whose body starts at `k`, and the
/// position after its closing quote (or the end of the text).  A backslash
/// before a backslash or a quote stands for that character; any other
/// backslash is kept.
pub open spec fn quoted_from(c: Seq<char>, k: int) -> (Seq<char>, int)
    decreases c.len() - k,
{
    if k >= c.len() || k < 0 {
        (Seq::empty(), k)
    } else if c[k] == '\\' && k + 1 < c.len() && (c[k + 1] == '\\' || c[k + 1] == '"') {
        let (v, j) = quoted_from(c, k + 2);
        (seq![c[k + 1]] + v, j)
    } else if c[k] == '"' {
        (Seq::empty(), k + 1)
    } else {
        let (v, j) = quoted_from(c, k + 1);
        (seq![c[k]] + v, j)
    }
}

/// The end of a bare string starting at `k`: the next whitespace or brace.
pub open spec fn bare_end(c: Seq<char>, k: int) -> int
    decreases c.len() - k,
{
    if 0 <= k < c.len() && !is_ws(c[k]) && c[k] != '{' && c[k] != '}' {
        bare_end(c, k + 1)
    } else {
        k
    }
}

/// The position of the next line feed at or after `k`, or the end.
pub open spec fn line_end(c: Seq<char>, k: int) -> int
    decreases c.len() - k,
{
    if 0 <= k < c.len() && c[k] != '\n' {
        line_end(c, k + 1)
    } else {
        k
    }
}

/// Whether a `//` comment starts at `i` (only when comments are read).
pub open spec fn comment_at(c: Seq<char>, i: int, comments: bool) -> bool {
    comments && 0 <= i && i + 1 < c.len() && c[i] == '/' && c[i + 1] == '/'
}

/// The tokens of `c` from position `i` on.  With `comments`, `//` starts a
/// comment that runs to the end of the line.
pub open spec fn tokens_from(c: Seq<char>, i: int, comments: bool) -> Seq<TokenV>
    decreases c.len() - i,
{
    if i >= c.len() || i < 0 {
        Seq::empty()
    } else if is_ws(c[i]) {
        tokens_from(c, i + 1, comments)
    } else if c[i] == '{' {
        seq![TokenV::Open] + tokens_from(c, i + 1, comments)
    } else if c[i] == '}' {
        seq![TokenV::Close] + tokens_from(c, i + 1, comments)
    } else if comment_at(c, i, comments) {
        let j = line_end(c, i + 2);
        if i < j <= c.len() {
            tokens_from(c, j, comments)
        } else {
            Seq::empty()
        }
    } else if c[i] == '"' {
        let (v, j) = quoted_from(c, i + 1);
        if i < j <= c.len() {
            seq![TokenV::Text(v)] + tokens_from(c, j, comments)
        } else {
            Seq::empty()
        }
    } else {
        let j = bare_end(c, i);
        if i < j <= c.len() {
            seq![TokenV::Text(c.subrange(i, j))] + tokens_from(c, j, comments)
        } else {
            Seq::empty()
        }
    }
}

proof fn lemma_quoted_from_bounds(c: Seq<char>, k: int)
    requires
        0 <= k,
    ensures
        quoted_from(c, k).1 >= k,
        k <= c.len() ==> quoted_from(c, k).1 <= c.len(),
    decreases c.len() - k,
{
    if k >= c.len() {
    } else if c[k] == '\\' && k + 1 < c.len() && (c[k + 1] == '\\' || c[k + 1] == '"') {
        lemma_quoted_from_bounds(c, k + 2);
    } else if c[k] == '"' {
    } else {
        lemma_quoted_from_bounds(c, k + 1);
    }
}

proof fn lemma_bare_end_bounds(c: Seq<char>, k: int)
    requires
        0 <= k <= c.len(),
    ensures
        k <= bare_end(c, k) <= c.len(),
    decreases c.len() - k,
{
    if k < c.len() && !is_ws(c[k]) && c[k] != '{' && c[k] != '}' {
        lemma_bare_end_bounds(c, k + 1);
    }
}

fn read_quoted(c: &[char], start: usize) -> (r: (Vec<char>, usize))
    requires
        start <= c.len(),
    ensures
        r.0@ == quoted_from(c@, start as int).0,
        r.1 as int == quoted_from(c@, start as int).1,
        start <= r.1 <= c.len(),
{
    let mut value: Vec<char> = Vec::new();
    let mut k = start;
    proof {
        lemma_quoted_from_bounds(c@, start as int);
    }
    loop
        invariant
            start <= k <= c.len(),
            value@ + quoted_from(c@, k as int).0 == quoted_from(c@, start as int).0,
            quoted_from(c@, k as int).1 == quoted_from(c@, start as int).1,
        decreases c.len() - k,
    {
        if k >= c.len() {
            assert(value@ + Seq::<char>::empty() =~= value@);
            return (value, k);
        }
        let ch = c[k];
        if ch == '\\' && k + 1 < c.len() && (c[k + 1] == '\\' || c[k + 1] == '"') {
            let ghost rest = quoted_from(c@, k + 2);
            let ghost v0 = value@;
            let x = c[k + 1];
            value.push(x);
            proof {
                assert(v0.push(x) + rest.0 =~= v0 + (seq![x] + rest.0));
            }
            k += 2;
        } else if ch == '"' {
            assert(value@ + Seq::<char>::empty() =~= value@);
            return (value, k + 1);
        } else {
            let ghost rest = quoted_from(c@, k + 1);
            let ghost v0 = value@;
            value.push(ch);
            proof {
                assert(v0.push(ch) + rest.0 =~= v0 + (seq![ch] + rest.0));
            }
            k += 1;
        }
    }
}

fn find_bare_end(c: &[char], start: usize) -> (r: usize)
    requires
        start <= c.len(),
    ensures
        r as int == bare_end(c@, start as int),
        start <= r <= c.len(),
{
    let mut k = start;
    while k < c.len() && !char_is_whitespace(c[k]) && c[k] != '{' && c[k] != '}'
        invariant
            start <= k <= c.len(),
            bare_end(c@, k as int) == bare_end(c@, start as int),
        decreases c.len() - k,
    {
        k += 1;
    }
    k
}

fn find_line_end(c: &[char], start: usize) -> (r: usize)
    requires
        start <= c.len(),
    ensures
        r as int == line_end(c@, start as int),
        start <= r <= c.len(),
{
    let mut k = start;
    while k < c.len() && c[k] != '\n'
        invariant
            start <= k <= c.len(),
            line_end(c@, k as int) == line_end(c@, start as int),
        decreases c.len() - k,
    {
        k += 1;
    }
    k
}

/// Splits `.vdf` text into tokens; `comments` turns on `//` line comments.
pub fn tokenize(c: &[char], comments: bool) -> (r: Vec<Token>)
    ensures
        tokens_view(r@) == tokens_from(c@, 0, comments),
{
    let mut out: Vec<Token> = Vec::new();
    let mut i: usize = 0;
    while i < c.len()
        invariant
            i <= c.len(),
            tokens_view(out@) + tokens_from(c@, i as int, comments) == tokens_from(
                c@,
                0,
                comments,
            ),
        decreases c.len() - i,
    {
        let ghost before = out@;
        let ch = c[i];
        if char_is_whitespace(ch) {
            i += 1;
        } else if ch == '{' {
            out.push(Token::Open);
            proof {
                assert(tokens_view(out@) =~= tokens_view(before).push(TokenV::Open));
                assert(tokens_view(before).push(TokenV::Open) + tokens_from(c@, i + 1, comments)
                    =~= tokens_view(before) + (seq![TokenV::Open] + tokens_from(
                    c@,
                    i + 1,
                    comments,
                )));
            }
            i += 1;
        } else if ch == '}' {
            out.push(Token::Close);
            proof {
                assert(tokens_view(out@) =~= tokens_view(before).push(TokenV::Close));
                assert(tokens_view(before).push(TokenV::Close) + tokens_from(c@, i + 1, comments)
                    =~= tokens_view(before) + (seq![TokenV::Close] + tokens_from(
                    c@,
                    i + 1,
                    comments,
                )));
            }
            i += 1;
        } else if comments && ch == '/' && i + 1 < c.len() && c[i + 1] == '/' {
            let j = find_line_end(c, i + 2);
            i = j;
        } else if ch == '"' {
            let (v, j) = read_quoted(c, i + 1);
            let t = Token::Text(chars_to_string(v.as_slice()));
            let ghost tv = t@;
            out.push(t);
            proof {
                assert(tokens_view(out@) =~= tokens_view(before).push(tv));
                assert(tokens_view(before).push(tv) + tokens_from(c@, j as int, comments)
                    =~= tokens_view(before) + (seq![tv] + tokens_from(c@, j as int, comments)));
            }
            i = j;
        } else {
            let j = find_bare_end(c, i);
            proof {
                assert(!is_ws(c@[i as int]));
                lemma_bare_end_bounds(c@, i + 1);
                assert(bare_end(c@, i as int) == bare_end(c@, i + 1));
            }
            let v = slice_range(c, i, j);
            let t = Token::Text(chars_to_string(v.as_slice()));
            let ghost tv = t@;
            out.push(t);
            proof {
                assert(tokens_view(out@) =~= tokens_view(before).push(tv));
                assert(tokens_view(before).push(tv) + tokens_from(c@, j as int, comments)
                    =~= tokens_view(before) + (seq![tv] + tokens_from(c@, j as int, comments)));
            }
            i = j;
        }
    }
    assert(tokens_view(out@) + Seq::<TokenV>::empty() =~= tokens_view(out@));
    out
}

} // verus!
