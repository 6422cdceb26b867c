//! Properties of lexing, parsing and evaluation that relate several steps.
use vstd::prelude::*;
use crate::text::{is_blank, texts};
use crate::lexer::{
    split_state, raw_tokens, quote_scan, quotes_balanced, lexed_words, quoted_words, is_op_char,
    lemma_op_free, tilde_expanded,
};
use crate::command::{Instruction, Vshcommand, classified};
use crate::tree::{
    CommandTree, line_rejected, line_tree, segment_tree, pipeline_tree, line_segments, is_cond,
    is_semi, is_pipe, lemma_first_cond, lemma_no_sep,
};
use crate::alias::AliasTable;
use crate::eval::{Evaluator, Frame, When, Action, Outcome, CommandError, stepped, alias_line, settled, code_status, lemma_first_builtin};

verus! {

/// Each word followed by one space.
pub open spec fn joined(ws: Seq<Seq<char>>) -> Seq<char>
    decreases ws.len(),
{
    if ws.len() == 0 {
        seq![]
    } else {
        joined(ws.drop_last()) + ws.last() + seq![' ']
    }
}

/// The words separated by single spaces.
pub open spec fn spaced(ws: Seq<Seq<char>>) -> Seq<char> {
    if ws.len() == 0 {
        seq![]
    } else {
        joined(ws.drop_last()) + ws.last()
    }
}

/// A word that lexing gives back as it is: not empty, without whitespace,
/// `"` or operator characters, and not starting with `~`.
pub open spec fn plain_word(w: Seq<char>) -> bool {
    &&& w.len() > 0
    &&& w[0] != '~'
    &&& forall|i: int| 0 <= i < w.len() ==> !is_blank(#[trigger] w[i]) && w[i] != '"' && !is_op_char(w[i])
}

proof fn lemma_split_word(s: Seq<char>, acc: Seq<Seq<char>>, w: Seq<char>, k: int)
    requires
        split_state(s) == (Seq::<char>::empty(), acc),
        0 <= k <= w.len(),
        forall|i: int| 0 <= i < w.len() ==> !is_blank(#[trigger] w[i]),
    ensures
        split_state(s + w.take(k)) == (w.take(k), acc),
    decreases k,
{
    if k == 0 {
        assert(s + w.take(0) =~= s);
        assert(w.take(0) =~= Seq::<char>::empty());
    } else {
        lemma_split_word(s, acc, w, k - 1);
        assert((s + w.take(k)).drop_last() =~= s + w.take(k - 1));
        assert((s + w.take(k)).last() == w[k - 1]);
        assert(w.take(k - 1).push(w[k - 1]) =~= w.take(k));
    }
}

proof fn lemma_split_joined(ws: Seq<Seq<char>>)
    requires
        forall|i: int| 0 <= i < ws.len() ==> plain_word(#[trigger] ws[i]),
    ensures
        split_state(joined(ws)) == (Seq::<char>::empty(), ws),
    decreases ws.len(),
{
    if ws.len() > 0 {
        let d = ws.drop_last();
        let w = ws.last();
        assert forall|i: int| 0 <= i < d.len() implies plain_word(#[trigger] d[i]) by {
            assert(d[i] == ws[i]);
        }
        lemma_split_joined(d);
        assert(plain_word(ws[ws.len() - 1]));
        lemma_split_word(joined(d), d, w, w.len() as int);
        assert(w.take(w.len() as int) =~= w);
        let x = joined(d) + w;
        assert((x + seq![' ']).drop_last() =~= x);
        assert(d.push(w) =~= ws);
    } else {
        assert(joined(ws) =~= Seq::<char>::empty());
    }
}

proof fn lemma_scan_plain(ws: Seq<Seq<char>>)
    requires
        forall|i: int| 0 <= i < ws.len() ==> plain_word(#[trigger] ws[i]),
    ensures
        quote_scan(ws).words == ws,
        !quote_scan(ws).broken,
        quote_scan(ws).open is None,
    decreases ws.len(),
{
    if ws.len() > 0 {
        let d = ws.drop_last();
        assert forall|i: int| 0 <= i < d.len() implies plain_word(#[trigger] d[i]) by {
            assert(d[i] == ws[i]);
        }
        lemma_scan_plain(d);
        assert(plain_word(ws[ws.len() - 1]));
        lemma_op_free(ws.last());
        assert(d + seq![ws.last()] =~= ws);
    }
}

/// Lexing is idempotent on its own output: words that lexing gives back as
/// they are, joined by single spaces, lex to those same words.
pub proof fn lex_spaced_words_is_fixed(ws: Seq<Seq<char>>, home: Seq<char>)
    requires
        forall|i: int| 0 <= i < ws.len() ==> plain_word(#[trigger] ws[i]),
    ensures
        quotes_balanced(spaced(ws)),
        quoted_words(spaced(ws)) == ws,
        lexed_words(spaced(ws), home) == ws,
{
    let t = spaced(ws);
    if ws.len() == 0 {
        assert(raw_tokens(t) =~= Seq::<Seq<char>>::empty());
    } else {
        let d = ws.drop_last();
        let w = ws.last();
        assert forall|i: int| 0 <= i < d.len() implies plain_word(#[trigger] d[i]) by {
            assert(d[i] == ws[i]);
        }
        lemma_split_joined(d);
        assert(plain_word(ws[ws.len() - 1]));
        lemma_split_word(joined(d), d, w, w.len() as int);
        assert(w.take(w.len() as int) =~= w);
        assert(raw_tokens(t) =~= ws);
    }
    lemma_scan_plain(ws);
    assert forall|i: int| 0 <= i < ws.len() implies tilde_expanded(#[trigger] ws[i], home) == ws[i] by {
        assert(plain_word(ws[i]));
    }
    assert(lexed_words(t, home) =~= ws);
}

/// An evaluator with nothing pending and no frames finishes at once with
/// its status; in particular a line that does not parse runs nothing.
pub proof fn nothing_left_finishes(pre: Evaluator, outcome: Outcome, aliases: AliasTable, home: Seq<char>, post: Evaluator, a: Action)
    requires
        pre.pending is Nothing,
        pre.frames@.len() == 0,
        stepped(pre, outcome, aliases, home, post, a),
    ensures
        a == Action::Finish(pre.status),
        post.frames@.len() == 0,
        post.pending is Nothing,
{
}

/// A line whose first word is `&&` or `||`, or whose last word is, is
/// rejected.
pub proof fn dangling_operator_is_rejected(ws: Seq<Seq<char>>)
    requires
        ws.len() > 0,
        is_cond(ws[0]) || is_cond(ws.last()),
    ensures
        line_rejected(ws),
{
}

/// In `And(Leaf(p), rest)` with `p` a program that is not an alias, a
/// failing `p` ends the evaluation with its own status: after `p` is spawned
/// and waited for, nothing else is spawned, and the evaluation finishes with
/// `p`'s status.
pub proof fn and_stops_at_failure(
    e0: Evaluator, e1: Evaluator, e2: Evaluator, e3: Evaluator, e4: Evaluator, e5: Evaluator,
    a1: Action, a2: Action, a3: Action, a4: Action, a5: Action,
    o0: Outcome, o1: Outcome, o4: Outcome,
    aliases: AliasTable, home: Seq<char>, p: Vshcommand, rest: CommandTree, code: i32,
)
    requires
        e0.pending is Nothing,
        e0.frames@ == seq![Frame { when: When::Always, tree: CommandTree::And(Box::new(CommandTree::Leaf(Instruction::Spawn(p))), Box::new(rest)) }],
        aliases.lookup(p.keyword@) is None,
        code > 0,
        stepped(e0, o0, aliases, home, e1, a1),
        stepped(e1, o1, aliases, home, e2, a2),
        stepped(e2, Outcome::Done, aliases, home, e3, a3),
        stepped(e3, Outcome::Exited(code), aliases, home, e4, a4),
        stepped(e4, o4, aliases, home, e5, a5),
    ensures
        a1 is Continue,
        a2 matches Action::Spawn { command, .. } && command@ == p@,
        a3 is WaitLast,
        a4 is Continue,
        a5 == Action::Finish(Err(CommandError::NonZero(code))),
{
    assert(e1.frames@.drop_last() == seq![Frame { when: When::OnSuccess, tree: rest }]);
    assert(e2.frames@ =~= seq![Frame { when: When::OnSuccess, tree: rest }]);
    assert(e4.frames@ =~= Seq::<Frame>::empty());
}

/// In `Or(Leaf(p), Leaf(q))` with `p` and `q` programs that are not aliases,
/// a failing `p` runs `q` exactly once, and the status is `q`'s.
pub proof fn or_runs_fallback_once(
    e0: Evaluator, e1: Evaluator, e2: Evaluator, e3: Evaluator, e4: Evaluator, e5: Evaluator, e6: Evaluator,
    a1: Action, a2: Action, a3: Action, a4: Action, a5: Action, a6: Action,
    o0: Outcome, o1: Outcome, o6: Outcome,
    aliases: AliasTable, home: Seq<char>, p: Vshcommand, q: Vshcommand, code: i32, last: i32,
)
    requires
        e0.pending is Nothing,
        e0.frames@ == seq![Frame { when: When::Always, tree: CommandTree::Or(Box::new(CommandTree::Leaf(Instruction::Spawn(p))), Box::new(CommandTree::Leaf(Instruction::Spawn(q)))) }],
        aliases.lookup(p.keyword@) is None,
        aliases.lookup(q.keyword@) is None,
        code > 0,
        stepped(e0, o0, aliases, home, e1, a1),
        stepped(e1, o1, aliases, home, e2, a2),
        stepped(e2, Outcome::Done, aliases, home, e3, a3),
        stepped(e3, Outcome::Exited(code), aliases, home, e4, a4),
        stepped(e4, Outcome::Done, aliases, home, e5, a5),
        stepped(e5, Outcome::Exited(last), aliases, home, e6, a6),
    ensures
        a1 is Continue,
        a2 matches Action::Spawn { command, .. } && command@ == p@,
        a3 is WaitLast,
        a4 matches Action::Spawn { command, .. } && command@ == q@,
        a5 is WaitLast,
        a6 == Action::Finish(code_status(last)),
{
    let right = Frame { when: When::OnFailure, tree: CommandTree::Leaf(Instruction::Spawn(q)) };
    assert(e1.frames@.drop_last() == seq![right]);
    assert(e2.frames@ =~= seq![right]);
    assert(e4.frames@ =~= Seq::<Frame>::empty());
    assert(e5.frames@ =~= Seq::<Frame>::empty());
}

/// `exit` unwinds everything: in `And(Leaf(Exit(c)), rest)` the evaluation
/// finishes on its second step with the exit request and nothing left, and
/// any later step finishes the same way.
pub proof fn exit_unwinds(
    e0: Evaluator, e1: Evaluator, e2: Evaluator, e3: Evaluator,
    a1: Action, a2: Action, a3: Action,
    o0: Outcome, o1: Outcome, o2: Outcome,
    aliases: AliasTable, home: Seq<char>, c: Option<i32>, rest: CommandTree,
)
    requires
        e0.pending is Nothing,
        e0.frames@ == seq![Frame { when: When::Always, tree: CommandTree::And(Box::new(CommandTree::Leaf(Instruction::Exit(c))), Box::new(rest)) }],
        stepped(e0, o0, aliases, home, e1, a1),
        stepped(e1, o1, aliases, home, e2, a2),
        stepped(e2, o2, aliases, home, e3, a3),
    ensures
        a1 is Continue,
        a2 == Action::Finish(Err(CommandError::RequestExit(c))),
        e2.frames@.len() == 0,
        a3 == Action::Finish(Err(CommandError::RequestExit(c))),
{
}

/// A word that `parse` treats as an operator.
pub open spec fn is_operator(w: Seq<char>) -> bool {
    is_semi(w) || is_cond(w) || is_pipe(w)
}

proof fn lemma_single_word_leaf(w: Seq<char>, t: CommandTree)
    requires
        !is_operator(w),
        segment_tree(seq![w], t),
    ensures
        t matches CommandTree::Leaf(x) && classified(seq![w], x),
{
    let ws = seq![w];
    lemma_first_cond(ws, 1);
    lemma_no_sep(ws, seq!['|']);
}

/// `a && b && c`, where `a`, `b` and `c` are single words that are not
/// operators, parses to `And(a, And(b, c))`: the chain leans to the right.
pub proof fn and_chain_nests_right(a: Seq<char>, b: Seq<char>, c: Seq<char>, t: CommandTree)
    requires
        !is_operator(a),
        !is_operator(b),
        !is_operator(c),
        line_tree(seq![a, seq!['&', '&'], b, seq!['&', '&'], c], t),
    ensures
        t matches CommandTree::And(l, r) && (*l matches CommandTree::Leaf(x) && classified(seq![a], x)) && (
        *r matches CommandTree::And(l2, r2) && (*l2 matches CommandTree::Leaf(y) && classified(seq![b], y)) && (
        *r2 matches CommandTree::Leaf(z) && classified(seq![c], z))),
{
    let amp = seq!['&', '&'];
    let ws = seq![a, amp, b, amp, c];
    assert forall|i: int| 0 <= i < ws.len() implies #[trigger] ws[i] != seq![';'] by {}
    lemma_no_sep(ws, seq![';']);
    assert(line_segments(ws) == seq![ws]);
    assert(!is_cond(ws[0]));
    lemma_first_cond(ws, 1);
    let left = ws.take(1);
    let right = ws.skip(2);
    assert(left =~= seq![a]);
    assert(right =~= seq![b, amp, c]);
    lemma_no_sep(left, seq!['|']);
    lemma_first_cond(right, 1);
    assert(right.take(1) =~= seq![b]);
    assert(right.skip(2) =~= seq![c]);
    lemma_no_sep(seq![b], seq!['|']);
    match t {
        CommandTree::And(l, r) => {
            assert(segment_tree(right, *r));
            match *r {
                CommandTree::And(l2, r2) => {
                    lemma_single_word_leaf(c, *r2);
                },
                _ => {},
            }
        },
        _ => {},
    }
}

/// An alias is textual substitution: in one step a leaf whose program is
/// the alias `p` for `x` becomes the tree of the words of `x` followed by the
/// arguments, the same relation `Evaluator::start` gives for that line typed
/// by hand, operators of `x` included.
pub proof fn alias_reparses_as_typed(
    pre: Evaluator, outcome: Outcome, aliases: AliasTable, home: Seq<char>, post: Evaluator, a: Action,
    c: Vshcommand, x: Seq<char>, typed: Seq<char>,
)
    requires
        pre.pending is Nothing,
        pre.frames@.len() > 0,
        pre.frames@.last() == (Frame { when: When::Always, tree: CommandTree::Leaf(Instruction::Spawn(c)) }),
        aliases.lookup(c.keyword@) == Some(x),
        typed == alias_line(x, texts(c.args@)),
        quotes_balanced(typed),
        !line_rejected(lexed_words(typed, home)),
        stepped(pre, outcome, aliases, home, post, a),
    ensures
        a is Continue,
        post.pending is Nothing,
        post.status == pre.status,
        post.frames@.drop_last() == pre.frames@.drop_last(),
        post.frames@.last().when is Always,
        line_tree(lexed_words(typed, home), post.frames@.last().tree),
{
}

/// A two-stage pipeline chains its stages: the first writes to a pipe, the
/// second reads from it and writes to the shell's output, and the status is
/// the second stage's.
pub proof fn pipeline_status_is_last_stage(
    e0: Evaluator, e1: Evaluator, e2: Evaluator, e3: Evaluator, e4: Evaluator,
    a1: Action, a2: Action, a3: Action, a4: Action,
    o0: Outcome, aliases: AliasTable, home: Seq<char>, p: Vshcommand, q: Vshcommand, code: i32,
)
    requires
        e0.pending is Nothing,
        e0.frames@.len() == 1,
        e0.frames@[0].when is Always,
        e0.frames@[0].tree matches CommandTree::Pipeline(v) && v@ == seq![Instruction::Spawn(p), Instruction::Spawn(q)],
        stepped(e0, o0, aliases, home, e1, a1),
        stepped(e1, Outcome::Done, aliases, home, e2, a2),
        stepped(e2, Outcome::Done, aliases, home, e3, a3),
        stepped(e3, Outcome::Exited(code), aliases, home, e4, a4),
    ensures
        a1 matches Action::Spawn { command, piped_input, piped_output } && command@ == p@ && !piped_input && piped_output,
        a2 matches Action::Spawn { command, piped_input, piped_output } && command@ == q@ && piped_input && !piped_output,
        a3 is WaitLast,
        a4 == Action::Finish(code_status(code)),
{
    let v = e0.frames@[0].tree->Pipeline_0@;
    lemma_first_builtin(v, 2);
    assert(e0.frames@.drop_last() =~= Seq::<Frame>::empty());
}

/// A failed change of directory is an ordinary failure: the status is
/// `NonZero(1)`, not an exit request, and the frames after it still run.
pub proof fn failed_cd_is_not_fatal(
    e0: Evaluator, e1: Evaluator, e2: Evaluator, a1: Action, a2: Action,
    o0: Outcome, aliases: AliasTable, home: Seq<char>, d: String, rest: Seq<Frame>,
)
    requires
        e0.pending is Nothing,
        e0.frames@ == rest.push(Frame { when: When::Always, tree: CommandTree::Leaf(Instruction::ChangeDirectory(Some(d))) }),
        stepped(e0, o0, aliases, home, e1, a1),
        stepped(e1, Outcome::Failed, aliases, home, e2, a2),
    ensures
        a1 matches Action::ChangeDirectory(target) && target@ == d@,
        rest.len() == 0 ==> a2 == Action::Finish(Err(CommandError::NonZero(1))),
        settled(Err(CommandError::NonZero(1)), rest, aliases, home, e2, a2),
{
    assert(e0.frames@.drop_last() =~= rest);
}

/// The first `&&` of a line without `;` splits it: the left side, which
/// holds no `&&` or `||`, is a pipeline, and the right side is parsed again,
/// so that a chain leans to the right.
pub proof fn first_and_splits(lhs: Seq<Seq<char>>, rest: Seq<Seq<char>>, t: CommandTree)
    requires
        lhs.len() > 0,
        rest.len() > 0,
        forall|i: int| 0 <= i < lhs.len() ==> !is_cond(#[trigger] lhs[i]) && !is_semi(lhs[i]),
        forall|i: int| 0 <= i < rest.len() ==> !is_semi(#[trigger] rest[i]),
        line_tree(lhs + seq![seq!['&', '&']] + rest, t),
    ensures
        t matches CommandTree::And(l, r) && pipeline_tree(lhs, *l) && segment_tree(rest, *r),
{
    let amp = seq!['&', '&'];
    let ws = lhs + seq![amp] + rest;
    let k = lhs.len() as int;
    assert forall|i: int| 0 <= i < ws.len() implies #[trigger] ws[i] != seq![';'] by {
        if i < k {
            assert(ws[i] == lhs[i]);
        } else if i > k {
            assert(ws[i] == rest[i - k - 1]);
        }
    }
    lemma_no_sep(ws, seq![';']);
    assert(line_segments(ws) == seq![ws]);
    assert forall|j: int| 0 <= j < k implies !is_cond(#[trigger] ws[j]) by {
        assert(ws[j] == lhs[j]);
    }
    assert(ws[k] == amp);
    lemma_first_cond(ws, k);
    assert(ws.take(k) =~= lhs);
    assert(ws.skip(k + 1) =~= rest);
}

} // verus!
