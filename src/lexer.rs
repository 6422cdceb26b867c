//! Splitting a line into words: whitespace splitting, double-quoted spans,
//! operators, and home-directory expansion of `~`.
//!
//! Quoting: a raw token that starts with `"` opens a span; the span takes the
//! following raw tokens, joined by one space, up to and including the first
//! token whose last character is a `"` not preceded by `\`; the two quotes are
//! removed. A backslash is never removed: `\"` and `\~` stay as written.
//!
//! Operators: outside quoted spans, `;`, `&&`, `||` and `|` are words of their
//! own even where no whitespace surrounds them, read from left to right, so
//! `a;b` is `a`, `;`, `b` and `a|||b` is `a`, `||`, `|`, `b`. A quoted span is
//! never split.
//!
//! Expansion: a word that starts with `~` has that `~` replaced by the home
//! directory; a `~` anywhere else stays.
use vstd::prelude::*;
use crate::text::{texts, lemma_texts_push, is_blank, blank};
use crate::eval::CommandError;

verus! {

/// The raw tokens of `s` read so far: the token being read and those finished.
pub open spec fn split_state(s: Seq<char>) -> (Seq<char>, Seq<Seq<char>>)
    decreases s.len(),
{
    if s.len() == 0 {
        (seq![], seq![])
    } else {
        let (cur, words) = split_state(s.drop_last());
        if is_blank(s.last()) {
            (seq![], flush(words, cur))
        } else {
            (cur.push(s.last()), words)
        }
    }
}

pub open spec fn flush(words: Seq<Seq<char>>, cur: Seq<char>) -> Seq<Seq<char>> {
    if cur.len() == 0 {
        words
    } else {
        words.push(cur)
    }
}

/// The maximal runs of non-whitespace characters of `s`, in order.
pub open spec fn raw_tokens(s: Seq<char>) -> Seq<Seq<char>> {
    flush(split_state(s).1, split_state(s).0)
}

/// The length of the operator that starts at `i` of `t`, or 0.
pub open spec fn op_len(t: Seq<char>, i: int) -> int {
    if t[i] == ';' {
        1
    } else if t[i] == '&' && i + 1 < t.len() && t[i + 1] == '&' {
        2
    } else if t[i] == '|' && i + 1 < t.len() && t[i + 1] == '|' {
        2
    } else if t[i] == '|' {
        1
    } else {
        0
    }
}

/// The pieces of `t` from index `i` on, with `cur` the word being read and
/// `out` the pieces finished.
pub open spec fn op_pieces_from(t: Seq<char>, i: int, cur: Seq<char>, out: Seq<Seq<char>>) -> Seq<Seq<char>>
    decreases t.len() - i,
{
    if i < 0 || i >= t.len() {
        flush(out, cur)
    } else if op_len(t, i) > 0 {
        op_pieces_from(t, i + op_len(t, i), seq![], flush(out, cur).push(t.subrange(i, i + op_len(t, i))))
    } else {
        op_pieces_from(t, i + 1, cur.push(t[i]), out)
    }
}

/// `t` cut into words and the operators `;`, `&&`, `||` and `|`.
pub open spec fn op_pieces(t: Seq<char>) -> Seq<Seq<char>> {
    op_pieces_from(t, 0, seq![], seq![])
}

/// `c` can start an operator.
pub open spec fn is_op_char(c: char) -> bool {
    c == ';' || c == '&' || c == '|'
}

/// A token ends a quoted span when its last character is a `"` that does not
/// follow a backslash.
pub open spec fn closes_quote(t: Seq<char>) -> bool {
    &&& t.len() >= 1
    &&& t.last() == '"'
    &&& !(t.len() >= 2 && t[t.len() - 2] == '\\')
}

/// Where quote merging stands after some raw tokens.
pub struct QuoteScan {
    /// A second span was opened inside an open one.
    pub broken: bool,
    /// The text of the span still open, if any.
    pub open: Option<Seq<char>>,
    /// The words finished so far.
    pub words: Seq<Seq<char>>,
}

pub open spec fn quote_step(st: QuoteScan, t: Seq<char>) -> QuoteScan {
    if st.broken {
        st
    } else {
        match st.open {
            None => if t.len() > 0 && t[0] == '"' {
                let rest = t.drop_first();
                if closes_quote(rest) {
                    QuoteScan { broken: false, open: None, words: st.words.push(rest.drop_last()) }
                } else {
                    QuoteScan { broken: false, open: Some(rest), words: st.words }
                }
            } else {
                QuoteScan { broken: false, open: None, words: st.words + op_pieces(t) }
            },
            Some(acc) => if t.len() > 0 && t[0] == '"' {
                QuoteScan { broken: true, open: st.open, words: st.words }
            } else {
                let joined = acc + seq![' '] + t;
                if closes_quote(t) {
                    QuoteScan { broken: false, open: None, words: st.words.push(joined.drop_last()) }
                } else {
                    QuoteScan { broken: false, open: Some(joined), words: st.words }
                }
            },
        }
    }
}

pub open spec fn quote_scan(toks: Seq<Seq<char>>) -> QuoteScan
    decreases toks.len(),
{
    if toks.len() == 0 {
        QuoteScan { broken: false, open: None, words: seq![] }
    } else {
        quote_step(quote_scan(toks.drop_last()), toks.last())
    }
}

/// The quotes of the line are balanced: no span opens inside another, and
/// none is left open.
pub open spec fn quotes_balanced(line: Seq<char>) -> bool {
    let st = quote_scan(raw_tokens(line));
    !st.broken && st.open is None
}

/// The words of a line with balanced quotes, before `~` expansion.
pub open spec fn quoted_words(line: Seq<char>) -> Seq<Seq<char>> {
    quote_scan(raw_tokens(line)).words
}

/// A leading `~` replaced by `home`.
pub open spec fn tilde_expanded(s: Seq<char>, home: Seq<char>) -> Seq<char> {
    if s.len() > 0 && s[0] == '~' {
        home + s.drop_first()
    } else {
        s
    }
}

/// The words of `line` after `~` expansion.
pub open spec fn lexed_words(line: Seq<char>, home: Seq<char>) -> Seq<Seq<char>> {
    quoted_words(line).map_values(|w: Seq<char>| tilde_expanded(w, home))
}

/// Replaces a `~` at the start of `raw` by `home`.
pub fn expand(raw: &str, home: &str) -> (r: String)
    ensures
        r@ == tilde_expanded(raw@, home@),
{
    let n = raw.unicode_len();
    if n > 0 && raw.get_char(0) == '~' {
        let mut r = String::from_str(home);
        let rest = raw.substring_char(1, n);
        assert(rest@ =~= raw@.drop_first());
        r.append(rest);
        r
    } else {
        String::from_str(raw)
    }
}

proof fn lemma_op_pieces_step(t: Seq<char>, i: int, cur: Seq<char>, out: Seq<Seq<char>>)
    requires
        0 <= i < t.len(),
    ensures
        op_pieces_from(t, i, cur, out) == (if op_len(t, i) > 0 {
            op_pieces_from(t, i + op_len(t, i), seq![], flush(out, cur).push(t.subrange(i, i + op_len(t, i))))
        } else {
            op_pieces_from(t, i + 1, cur.push(t[i]), out)
        }),
{
}

proof fn lemma_op_free_from(t: Seq<char>, i: int, cur: Seq<char>, out: Seq<Seq<char>>)
    requires
        0 <= i <= t.len(),
        forall|j: int| i <= j < t.len() ==> !is_op_char(#[trigger] t[j]),
    ensures
        op_pieces_from(t, i, cur, out) == flush(out, cur + t.subrange(i, t.len() as int)),
    decreases t.len() - i,
{
    if i < t.len() {
        lemma_op_free_from(t, i + 1, cur.push(t[i]), out);
        assert(cur.push(t[i]) + t.subrange(i + 1, t.len() as int) =~= cur + t.subrange(i, t.len() as int));
    } else {
        assert(cur + t.subrange(i, t.len() as int) =~= cur);
    }
}

/// A non-empty text without `;`, `&` or `|` is one piece.
pub proof fn lemma_op_free(t: Seq<char>)
    requires
        t.len() > 0,
        forall|j: int| 0 <= j < t.len() ==> !is_op_char(#[trigger] t[j]),
    ensures
        op_pieces(t) == seq![t],
{
    lemma_op_free_from(t, 0, seq![], seq![]);
    assert(Seq::<char>::empty() + t.subrange(0, t.len() as int) =~= t);
    assert(Seq::<Seq<char>>::empty().push(t) =~= seq![t]);
}

/// Cuts `t` into words and the operators `;`, `&&`, `||` and `|`.
pub fn split_operators(t: &str) -> (r: Vec<String>)
    ensures
        texts(r@) == op_pieces(t@),
{
    let n = t.unicode_len();
    let mut out: Vec<String> = Vec::new();
    let mut start: usize = 0;
    let mut i: usize = 0;
    assert(t@.subrange(0, 0) =~= Seq::<char>::empty());
    assert(texts(out@) =~= Seq::<Seq<char>>::empty());
    while i < n
        invariant
            n == t@.len(),
            start <= i <= n,
            op_pieces_from(t@, i as int, t@.subrange(start as int, i as int), texts(out@)) == op_pieces(t@),
        decreases n - i,
    {
        let c = t.get_char(i);
        let two_same = i + 1 < n && t.get_char(i + 1) == c;
        let k: usize = if c == ';' {
            1
        } else if c == '&' && two_same {
            2
        } else if c == '|' && two_same {
            2
        } else if c == '|' {
            1
        } else {
            0
        };
        assert(k == op_len(t@, i as int));
        proof {
            lemma_op_pieces_step(t@, i as int, t@.subrange(start as int, i as int), texts(out@));
        }
        if k > 0 {
            let ghost before = texts(out@);
            if start < i {
                let w = String::from_str(t.substring_char(start, i));
                proof {
                    lemma_texts_push(out@, w);
                }
                out.push(w);
            }
            assert(texts(out@) == flush(before, t@.subrange(start as int, i as int)));
            let op = String::from_str(t.substring_char(i, i + k));
            proof {
                lemma_texts_push(out@, op);
            }
            out.push(op);
            i = i + k;
            start = i;
            assert(t@.subrange(start as int, i as int) =~= Seq::<char>::empty());
        } else {
            assert(t@.subrange(start as int, i + 1) =~= t@.subrange(start as int, i as int).push(c));
            i = i + 1;
        }
    }
    if start < n {
        let w = String::from_str(t.substring_char(start, n));
        proof {
            lemma_texts_push(out@, w);
        }
        out.push(w);
    }
    out
}

/// Splits `line` into runs of characters that are not ASCII whitespace.
pub fn split_blank(line: &str) -> (r: Vec<String>)
    ensures
        texts(r@) == raw_tokens(line@),
{
    let n = line.unicode_len();
    let mut words: Vec<String> = Vec::new();
    let mut start: usize = 0;
    let mut i: usize = 0;
    while i < n
        invariant
            n == line@.len(),
            start <= i <= n,
            split_state(line@.take(i as int)) == (line@.subrange(start as int, i as int), texts(words@)),
        decreases n - i,
    {
        let c = line.get_char(i);
        assert(line@.take(i + 1).drop_last() =~= line@.take(i as int));
        assert(line@.take(i + 1).last() == c);
        if blank(c) {
            if start < i {
                let w = String::from_str(line.substring_char(start, i));
                proof {
                    lemma_texts_push(words@, w);
                }
                words.push(w);
            }
            start = i + 1;
            assert(line@.subrange(start as int, i + 1) =~= seq![]);
        } else {
            assert(line@.subrange(start as int, i + 1) =~= line@.subrange(start as int, i as int).push(c));
        }
        i = i + 1;
    }
    assert(line@.take(n as int) =~= line@);
    if start < n {
        let w = String::from_str(line.substring_char(start, n));
        proof {
            lemma_texts_push(words@, w);
        }
        words.push(w);
    }
    words
}

proof fn lemma_broken_stays(toks: Seq<Seq<char>>, i: int)
    requires
        0 <= i <= toks.len(),
        quote_scan(toks.take(i)).broken,
    ensures
        quote_scan(toks).broken,
    decreases toks.len() - i,
{
    if i < toks.len() {
        assert(toks.take(i + 1).drop_last() =~= toks.take(i));
        lemma_broken_stays(toks, i + 1);
    } else {
        assert(toks.take(i) =~= toks);
    }
}

/// Whether `t` is non-empty and starts with `"`.
fn opens_quote(t: &str) -> (r: bool)
    ensures
        r == (t@.len() > 0 && t@[0] == '"'),
{
    t.unicode_len() > 0 && t.get_char(0) == '"'
}

fn ends_quote(t: &str) -> (r: bool)
    ensures
        r == closes_quote(t@),
{
    let n = t.unicode_len();
    n >= 1 && t.get_char(n - 1) == '"' && !(n >= 2 && t.get_char(n - 2) == '\\')
}

/// Merges the raw tokens of `line` along double-quoted spans.
pub fn merge_quotes(line: &str) -> (r: Result<Vec<String>, CommandError>)
    ensures
        r is Ok <==> quotes_balanced(line@),
        r matches Ok(ws) ==> texts(ws@) == quoted_words(line@),
        r matches Err(e) ==> e is SyntaxError,
{
    let toks = split_blank(line);
    let ghost tv = texts(toks@);
    let mut words: Vec<String> = Vec::new();
    let mut open: Option<String> = None;
    let mut k: usize = 0;
    while k < toks.len()
        invariant
            tv == texts(toks@),
            tv == raw_tokens(line@),
            k <= toks.len(),
            ({
                let st = quote_scan(tv.take(k as int));
                &&& !st.broken
                &&& st.words == texts(words@)
                &&& (open matches Some(a) ==> st.open == Some(a@))
                &&& (open is None ==> st.open is None)
            }),
        decreases toks.len() - k,
    {
        let t = toks[k].as_str();
        let ghost tk = tv[k as int];
        assert(t@ == tk);
        assert(tv.take(k + 1).drop_last() =~= tv.take(k as int));
        assert(tv.take(k + 1).last() == tk);
        let q = opens_quote(t);
        match open {
            None => {
                if q {
                    let n = t.unicode_len();
                    let rest = t.substring_char(1, n);
                    assert(rest@ =~= tk.drop_first());
                    if ends_quote(rest) {
                        let m = rest.unicode_len();
                        let w = String::from_str(rest.substring_char(0, m - 1));
                        assert(w@ =~= rest@.drop_last());
                        proof {
                            lemma_texts_push(words@, w);
                        }
                        words.push(w);
                        open = None;
                    } else {
                        open = Some(String::from_str(rest));
                    }
                } else {
                    let mut pieces = split_operators(t);
                    let ghost before = words@;
                    let ghost added = pieces@;
                    words.append(&mut pieces);
                    assert(texts(words@) =~= texts(before) + texts(added));
                    open = None;
                }
            },
            Some(acc) => {
                let ghost st_open_text = acc@;
                if q {
                    proof {
                        lemma_broken_stays(tv, k + 1);
                    }
                    return Err(CommandError::SyntaxError(String::from_str("a quoted span opens inside another")));
                }
                let mut joined = acc;
                proof {
                    reveal_strlit(" ");
                }
                joined.append(" ");
                joined.append(t);
                let ghost a = st_open_text;
                assert(joined@ =~= a + seq![' '] + tk);
                if ends_quote(t) {
                    let m = joined.as_str().unicode_len();
                    let w = String::from_str(joined.as_str().substring_char(0, m - 1));
                    assert(w@ =~= joined@.drop_last());
                    proof {
                        lemma_texts_push(words@, w);
                    }
                    words.push(w);
                    open = None;
                } else {
                    open = Some(joined);
                }
            },
        }
        k = k + 1;
    }
    assert(tv.take(toks.len() as int) =~= tv);
    match open {
        Some(_) => Err(CommandError::SyntaxError(String::from_str("a quoted span is never closed"))),
        None => Ok(words),
    }
}

/// Splits `line` into words: whitespace splitting, quote merging and
/// operators, then a leading `~` of each word replaced by `home`.
pub fn lex(line: &str, home: &str) -> (r: Result<Vec<String>, CommandError>)
    ensures
        r matches Ok(ws) ==> quotes_balanced(line@) && texts(ws@) == lexed_words(line@, home@),
        !quotes_balanced(line@) ==> (r matches Err(e) && e is SyntaxError),
        quotes_balanced(line@) ==> r is Ok,
        r matches Err(e) ==> e is SyntaxError,
{
    let words = merge_quotes(line)?;
    let ghost qw = quoted_words(line@);
    let mut out: Vec<String> = Vec::new();
    let mut i: usize = 0;
    while i < words.len()
        invariant
            texts(words@) == qw,
            qw == quoted_words(line@),
            quotes_balanced(line@),
            i <= words.len(),
            texts(out@) == qw.take(i as int).map_values(|w: Seq<char>| tilde_expanded(w, home@)),
        decreases words.len() - i,
    {
        let w = words[i].as_str();
        assert(w@ == qw[i as int]);
        let e = expand(w, home);
        proof {
            lemma_texts_push(out@, e);
        }
        out.push(e);
        assert(qw.take(i + 1).map_values(|w: Seq<char>| tilde_expanded(w, home@)) =~=
            qw.take(i as int).map_values(|w: Seq<char>| tilde_expanded(w, home@)).push(tilde_expanded(qw[i as int], home@)));
        i = i + 1;
    }
    assert(qw.take(words.len() as int) =~= qw);
    Ok(out)
}

} // verus!
