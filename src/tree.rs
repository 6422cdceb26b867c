//! The command tree and the parser that builds it from words.
//!
//! `;` splits a line into segments evaluated one after another. Inside a
//! segment the first `&&` or `||` splits it into a left pipeline and a right
//! remainder parsed again, so `a && b && c` is `And(a, And(b, c))`. Inside a
//! pipeline `|` separates the stages.
use vstd::prelude::*;
use crate::text::{texts, lemma_texts_push, is_single, is_pair, copy_strings, slice_strings};
use crate::command::{Instruction, classified, classify};
use crate::eval::CommandError;
use crate::lexer::{lex, lexed_words, quotes_balanced};

verus! {

/// A parsed line.
pub enum CommandTree {
    /// Run each in order; the status is that of the last.
    Sequence(Vec<CommandTree>),
    /// Run the right side only where the left one succeeded.
    And(Box<CommandTree>, Box<CommandTree>),
    /// Run the right side only where the left one failed.
    Or(Box<CommandTree>, Box<CommandTree>),
    /// Stages whose output feeds the next stage's input.
    Pipeline(Vec<Instruction>),
    /// One simple command.
    Leaf(Instruction),
}

pub open spec fn is_semi(w: Seq<char>) -> bool {
    w == seq![';']
}

pub open spec fn is_pipe(w: Seq<char>) -> bool {
    w == seq!['|']
}

pub open spec fn is_and(w: Seq<char>) -> bool {
    w == seq!['&', '&']
}

pub open spec fn is_or(w: Seq<char>) -> bool {
    w == seq!['|', '|']
}

pub open spec fn is_cond(w: Seq<char>) -> bool {
    is_and(w) || is_or(w)
}

/// The piece being collected and the pieces finished, splitting `ws` at
/// each word equal to `sep`.
pub open spec fn pieces_state(ws: Seq<Seq<char>>, sep: Seq<char>) -> (Seq<Seq<char>>, Seq<Seq<Seq<char>>>)
    decreases ws.len(),
{
    if ws.len() == 0 {
        (seq![], seq![])
    } else {
        let (cur, done) = pieces_state(ws.drop_last(), sep);
        if ws.last() == sep {
            (seq![], done.push(cur))
        } else {
            (cur.push(ws.last()), done)
        }
    }
}

/// `ws` split at each word equal to `sep`; one more piece than separators.
pub open spec fn pieces(ws: Seq<Seq<char>>, sep: Seq<char>) -> Seq<Seq<Seq<char>>> {
    pieces_state(ws, sep).1.push(pieces_state(ws, sep).0)
}

/// The `;`-separated segments of a line; a final `;` ends the last one.
pub open spec fn line_segments(ws: Seq<Seq<char>>) -> Seq<Seq<Seq<char>>> {
    if ws.len() > 0 && is_semi(ws.last()) {
        pieces(ws, seq![';']).drop_last()
    } else {
        pieces(ws, seq![';'])
    }
}

/// The index of the first `&&` or `||`, or the length where there is none.
pub open spec fn first_cond(ws: Seq<Seq<char>>) -> int
    decreases ws.len(),
{
    if ws.len() == 0 {
        0
    } else if is_cond(ws[0]) {
        0
    } else {
        1 + first_cond(ws.drop_first())
    }
}

/// A pipeline of two stages or more has an empty stage.
pub open spec fn pipeline_rejected(seg: Seq<Seq<char>>) -> bool {
    let ps = pieces(seg, seq!['|']);
    ps.len() > 1 && exists|i: int| 0 <= i < ps.len() && (#[trigger] ps[i]).len() == 0
}

/// A `&&` or `||` of the segment lacks an operand, or a pipeline is rejected.
pub open spec fn segment_rejected(seg: Seq<Seq<char>>) -> bool
    decreases seg.len(),
{
    let k = first_cond(seg);
    if 0 <= k < seg.len() {
        k == 0 || k == seg.len() - 1 || pipeline_rejected(seg.take(k)) || segment_rejected(seg.skip(k + 1))
    } else {
        pipeline_rejected(seg)
    }
}

/// The words of a line do not form a command tree.
pub open spec fn line_rejected(ws: Seq<Seq<char>>) -> bool {
    ||| ws.len() > 0 && (is_semi(ws[0]) || is_cond(ws[0]) || is_cond(ws.last()))
    ||| exists|i: int| 0 <= i < line_segments(ws).len() && segment_rejected(#[trigger] line_segments(ws)[i])
}

/// `t` is the tree of a segment without `;`, `&&` or `||`.
pub open spec fn pipeline_tree(seg: Seq<Seq<char>>, t: CommandTree) -> bool {
    let ps = pieces(seg, seq!['|']);
    if ps.len() == 1 {
        t matches CommandTree::Leaf(ins) && classified(seg, ins)
    } else {
        t matches CommandTree::Pipeline(v) && v@.len() == ps.len() && forall|i: int|
            0 <= i < ps.len() ==> classified(#[trigger] ps[i], v@[i])
    }
}

/// `t` is the tree of a segment without `;`.
pub open spec fn segment_tree(seg: Seq<Seq<char>>, t: CommandTree) -> bool
    decreases seg.len(),
{
    let k = first_cond(seg);
    if 0 <= k < seg.len() {
        if is_and(seg[k]) {
            t matches CommandTree::And(l, r) && pipeline_tree(seg.take(k), *l) && segment_tree(seg.skip(k + 1), *r)
        } else {
            t matches CommandTree::Or(l, r) && pipeline_tree(seg.take(k), *l) && segment_tree(seg.skip(k + 1), *r)
        }
    } else {
        pipeline_tree(seg, t)
    }
}

/// `t` is the tree of the words `ws` of a line.
pub open spec fn line_tree(ws: Seq<Seq<char>>, t: CommandTree) -> bool {
    let segs = line_segments(ws);
    if segs.len() == 1 {
        segment_tree(segs[0], t)
    } else {
        t matches CommandTree::Sequence(v) && v@.len() == segs.len() && forall|i: int|
            0 <= i < segs.len() ==> segment_tree(#[trigger] segs[i], v@[i])
    }
}

pub open spec fn piece_texts(v: Seq<Vec<String>>) -> Seq<Seq<Seq<char>>> {
    v.map_values(|p: Vec<String>| texts(p@))
}

pub proof fn lemma_first_cond(ws: Seq<Seq<char>>, i: int)
    requires
        0 <= i <= ws.len(),
        forall|j: int| 0 <= j < i ==> !is_cond(#[trigger] ws[j]),
        i == ws.len() || is_cond(ws[i]),
    ensures
        first_cond(ws) == i,
    decreases i,
{
    if i > 0 {
        let rest = ws.drop_first();
        assert forall|j: int| 0 <= j < i - 1 implies !is_cond(#[trigger] rest[j]) by {
            assert(rest[j] == ws[j + 1]);
        }
        if i < ws.len() {
            assert(rest[i - 1] == ws[i]);
        }
        lemma_first_cond(rest, i - 1);
        assert(!is_cond(ws[0]));
    }
}

/// Splits `ws` at each word equal to `sep`.
pub fn split_pieces(ws: &Vec<String>, sep: &str) -> (r: Vec<Vec<String>>)
    ensures
        piece_texts(r@) == pieces(texts(ws@), sep@),
{
    let ghost tw = texts(ws@);
    let mut done: Vec<Vec<String>> = Vec::new();
    let mut cur: Vec<String> = Vec::new();
    let mut i: usize = 0;
    while i < ws.len()
        invariant
            tw == texts(ws@),
            i <= ws.len(),
            pieces_state(tw.take(i as int), sep@) == (texts(cur@), piece_texts(done@)),
        decreases ws.len() - i,
    {
        assert(tw.take(i + 1).drop_last() =~= tw.take(i as int));
        assert(tw.take(i + 1).last() == ws@[i as int]@);
        if crate::text::same_text(ws[i].as_str(), sep) {
            let ghost old_done = done@;
            let ghost c = cur@;
            done.push(cur);
            cur = Vec::new();
            assert(piece_texts(done@) =~= piece_texts(old_done).push(texts(c)));
            assert(texts(cur@) =~= seq![]);
        } else {
            let w = ws[i].clone();
            proof {
                lemma_texts_push(cur@, w);
            }
            cur.push(w);
        }
        i = i + 1;
    }
    assert(tw.take(ws.len() as int) =~= tw);
    let ghost old_done = done@;
    let ghost c = cur@;
    done.push(cur);
    assert(piece_texts(done@) =~= piece_texts(old_done).push(texts(c)));
    done
}

/// The tree of a segment without `;`, `&&` or `||`.
fn parse_pipeline(seg: &Vec<String>) -> (r: Result<CommandTree, CommandError>)
    ensures
        r is Ok <==> !pipeline_rejected(texts(seg@)),
        r matches Ok(t) ==> pipeline_tree(texts(seg@), t),
        r matches Err(e) ==> e is SyntaxError,
{
    let ghost sw = texts(seg@);
    proof {
        reveal_strlit("|");
    }
    assert("|"@ =~= seq!['|']);
    let stages = split_pieces(seg, "|");
    let ghost ps = pieces(sw, seq!['|']);
    assert(piece_texts(stages@) == ps);
    assert(ps.len() == stages@.len());
    if stages.len() == 1 {
        assert(ps[0] == texts(stages@[0]@));
        proof {
            lemma_single_piece(sw, seq!['|']);
        }
        return Ok(CommandTree::Leaf(classify(copy_strings(seg))));
    }
    let mut v: Vec<Instruction> = Vec::new();
    let mut i: usize = 0;
    while i < stages.len()
        invariant
            piece_texts(stages@) == ps,
            ps == pieces(sw, seq!['|']),
            sw == texts(seg@),
            ps.len() == stages@.len(),
            ps.len() > 1,
            i <= stages.len(),
            v@.len() == i,
            forall|j: int| 0 <= j < i ==> (#[trigger] ps[j]).len() > 0,
            forall|j: int| 0 <= j < i ==> classified(#[trigger] ps[j], v@[j]),
        decreases stages.len() - i,
    {
        assert(ps[i as int] == texts(stages@[i as int]@));
        if stages[i].len() == 0 {
            assert(texts(stages@[i as int]@).len() == 0);
            assert(ps[i as int].len() == 0);
            assert(pipeline_rejected(sw));
            return Err(CommandError::SyntaxError(String::from_str("a pipeline stage is empty")));
        }
        let ins = classify(copy_strings(&stages[i]));
        v.push(ins);
        i = i + 1;
    }
    assert(!pipeline_rejected(sw)) by {
        assert forall|j: int| 0 <= j < ps.len() implies (#[trigger] ps[j]).len() != 0 by {}
    }
    Ok(CommandTree::Pipeline(v))
}

/// With no separator in `ws`, the only piece is `ws` itself; otherwise there
/// are at least two.
proof fn lemma_single_piece(ws: Seq<Seq<char>>, sep: Seq<char>)
    ensures
        pieces(ws, sep).len() >= 1,
        pieces(ws, sep).len() == 1 ==> pieces(ws, sep)[0] == ws,
    decreases ws.len(),
{
    if ws.len() > 0 {
        lemma_single_piece(ws.drop_last(), sep);
        lemma_pieces_count(ws.drop_last(), sep);
        lemma_pieces_count(ws, sep);
        if ws.last() != sep {
            assert(ws.drop_last().push(ws.last()) =~= ws);
        }
    } else {
        assert(pieces(ws, sep)[0] =~= ws);
    }
}

pub proof fn lemma_pieces_count(ws: Seq<Seq<char>>, sep: Seq<char>)
    ensures
        pieces_state(ws, sep).1.len() == 0 ==> pieces_state(ws, sep).0 == ws,
    decreases ws.len(),
{
    if ws.len() > 0 {
        lemma_pieces_count(ws.drop_last(), sep);
        if ws.last() != sep {
            assert(ws.drop_last().push(ws.last()) =~= ws);
        }
    }
}

fn cond_word(w: &str) -> (r: bool)
    ensures
        r == is_cond(w@),
{
    is_pair(w, '&', '&') || is_pair(w, '|', '|')
}

/// The tree of a segment without `;`.
fn parse_segment(seg: &Vec<String>) -> (r: Result<CommandTree, CommandError>)
    ensures
        r is Ok <==> !segment_rejected(texts(seg@)),
        r matches Ok(t) ==> segment_tree(texts(seg@), t),
        r matches Err(e) ==> e is SyntaxError,
    decreases seg@.len(),
{
    let ghost sw = texts(seg@);
    let n = seg.len();
    let mut k: usize = 0;
    while k < n && !cond_word(seg[k].as_str())
        invariant
            n == seg@.len(),
            sw == texts(seg@),
            k <= n,
            forall|j: int| 0 <= j < k ==> !is_cond(#[trigger] sw[j]),
        decreases n - k,
    {
        k = k + 1;
    }
    proof {
        lemma_first_cond(sw, k as int);
    }
    if k == n {
        return parse_pipeline(seg);
    }
    if k == 0 || k == n - 1 {
        return Err(CommandError::SyntaxError(String::from_str("an operator lacks an operand")));
    }
    let left = slice_strings(seg, 0, k);
    let right = slice_strings(seg, k + 1, n);
    assert(texts(left@) =~= sw.take(k as int));
    assert(texts(right@) =~= sw.skip(k + 1));
    let l = match parse_pipeline(&left) {
        Ok(t) => t,
        Err(e) => {
            return Err(e);
        },
    };
    let r = match parse_segment(&right) {
        Ok(t) => t,
        Err(e) => {
            return Err(e);
        },
    };
    if is_pair(seg[k].as_str(), '&', '&') {
        Ok(CommandTree::And(Box::new(l), Box::new(r)))
    } else {
        Ok(CommandTree::Or(Box::new(l), Box::new(r)))
    }
}

proof fn lemma_trailing_sep(ws: Seq<Seq<char>>, sep: Seq<char>)
    requires
        ws.len() > 0,
        ws.last() == sep,
    ensures
        pieces(ws, sep).len() >= 2,
        pieces(ws, sep).last().len() == 0,
{
}

/// Parses the words of a line into a command tree. A line that starts with
/// `;`, `&&` or `||`, ends with `&&` or `||`, has an operator without an
/// operand, or has an empty pipeline stage is a syntax error. An empty segment
/// is an empty command.
pub fn parse(words: &Vec<String>) -> (r: Result<CommandTree, CommandError>)
    ensures
        r is Ok <==> !line_rejected(texts(words@)),
        r matches Ok(t) ==> line_tree(texts(words@), t),
        r matches Err(e) ==> e is SyntaxError,
{
    let ghost ws = texts(words@);
    let n = words.len();
    if n > 0 && (is_single(words[0].as_str(), ';') || cond_word(words[0].as_str()) || cond_word(
        words[n - 1].as_str(),
    )) {
        return Err(CommandError::SyntaxError(String::from_str("a line cannot start with `;`, `&&` or `||`, nor end with `&&` or `||`")));
    }
    proof {
        reveal_strlit(";");
    }
    assert(";"@ =~= seq![';']);
    let segs = split_pieces(words, ";");
    let ghost ps = pieces(ws, seq![';']);
    let trailing = n > 0 && is_single(words[n - 1].as_str(), ';');
    proof {
        lemma_single_piece(ws, seq![';']);
        if trailing {
            lemma_trailing_sep(ws, seq![';']);
        }
    }
    let count = if trailing { segs.len() - 1 } else { segs.len() };
    let ghost ls = line_segments(ws);
    assert(ls.len() == count);
    assert forall|i: int| 0 <= i < count implies #[trigger] ls[i] == texts(segs@[i]@) by {
        assert(ls[i] == ps[i]);
    }
    if count == 1 {
        let r = parse_segment(&segs[0]);
        assert(ls[0] == texts(segs@[0]@));
        if r.is_ok() {
            assert forall|i: int| 0 <= i < ls.len() implies !segment_rejected(#[trigger] ls[i]) by {}
        }
        return r;
    }
    let mut v: Vec<CommandTree> = Vec::new();
    let mut i: usize = 0;
    while i < count
        invariant
            ls == line_segments(ws),
            ws == texts(words@),
            ls.len() == count,
            count <= segs@.len(),
            forall|j: int| 0 <= j < count ==> #[trigger] ls[j] == texts(segs@[j]@),
            i <= count,
            v@.len() == i,
            forall|j: int| 0 <= j < i ==> !segment_rejected(#[trigger] ls[j]),
            forall|j: int| 0 <= j < i ==> segment_tree(#[trigger] ls[j], v@[j]),
        decreases count - i,
    {
        assert(ls[i as int] == texts(segs@[i as int]@));
        match parse_segment(&segs[i]) {
            Ok(t) => {
                v.push(t);
            },
            Err(e) => {
                assert(segment_rejected(ls[i as int]));
                return Err(e);
            },
        }
        i = i + 1;
    }
    Ok(CommandTree::Sequence(v))
}

/// Lexes and parses a line; `home` replaces each unescaped `~`.
pub fn parse_line(line: &str, home: &str) -> (r: Result<CommandTree, CommandError>)
    ensures
        r matches Ok(t) ==> quotes_balanced(line@) && !line_rejected(lexed_words(line@, home@)) && line_tree(
            lexed_words(line@, home@),
            t,
        ),
        quotes_balanced(line@) && !line_rejected(lexed_words(line@, home@)) ==> r is Ok,
        r is Err ==> !quotes_balanced(line@) || line_rejected(lexed_words(line@, home@)),
        r matches Err(e) ==> e is SyntaxError,
{
    match lex(line, home) {
        Ok(words) => parse(&words),
        Err(e) => Err(e),
    }
}

/// Without a word equal to `sep`, the only piece is the whole.
pub proof fn lemma_no_sep(ws: Seq<Seq<char>>, sep: Seq<char>)
    requires
        forall|i: int| 0 <= i < ws.len() ==> #[trigger] ws[i] != sep,
    ensures
        pieces(ws, sep) == seq![ws],
{
    lemma_no_sep_state(ws, sep);
    assert(pieces(ws, sep) =~= seq![ws]);
}

proof fn lemma_no_sep_state(ws: Seq<Seq<char>>, sep: Seq<char>)
    requires
        forall|i: int| 0 <= i < ws.len() ==> #[trigger] ws[i] != sep,
    ensures
        pieces_state(ws, sep) == (ws, Seq::<Seq<Seq<char>>>::empty()),
    decreases ws.len(),
{
    if ws.len() > 0 {
        let d = ws.drop_last();
        assert forall|i: int| 0 <= i < d.len() implies #[trigger] d[i] != sep by {
            assert(d[i] == ws[i]);
        }
        lemma_no_sep_state(d, sep);
        assert(ws.last() == ws[ws.len() - 1]);
        assert(d.push(ws.last()) =~= ws);
    } else {
        assert(ws =~= seq![]);
    }
}

} // verus!
