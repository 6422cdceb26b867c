//! Evaluation of a command tree, as a state machine.
//!
//! The evaluator decides; whoever drives it does the work. Each call of
//! [`Evaluator::step`] takes the outcome of the action it returned last and
//! returns the next action: spawn a pipeline stage, wait for the last stage,
//! release the stages of a pipeline that could not be completed, change the
//! directory, replace the process, continue, or finish with a status.
//!
//! A leaf whose program is an alias is replaced by the tree of the alias's
//! text followed by the arguments, lexed and parsed again. An alias whose
//! text starts with its own name never finishes: each step expands it again.
use vstd::prelude::*;
use crate::text::texts;
use crate::command::{Instruction, Vshcommand};
use crate::tree::{CommandTree, line_rejected, line_tree, parse_line};
use crate::lexer::{lexed_words, quotes_balanced};
use crate::alias::AliasTable;

verus! {

/// Why a command did not succeed.
pub enum CommandError {
    /// The input is malformed: unbalanced quotes, a dangling operator, a bad
    /// builtin argument.
    SyntaxError(String),
    /// The program could not be started (or could not be waited for).
    SpawnFailed(String),
    /// The program exited with this positive status.
    NonZero(i32),
    /// The program was terminated by a signal.
    Signaled,
    /// `exit` was run: the shell is to terminate, with this status if given.
    RequestExit(Option<i32>),
}

/// When a pending tree is run, given the status so far.
pub enum When {
    Always,
    OnSuccess,
    OnFailure,
}

/// A tree waiting to be run.
pub struct Frame {
    pub when: When,
    pub tree: CommandTree,
}

/// What the evaluator waits for.
pub enum Pending {
    /// Nothing: the outcome handed in is not read.
    Nothing,
    /// The spawn of `stages[index]`.
    Stage { stages: Vec<Vshcommand>, index: usize },
    /// The exit of the last stage, whose program is named. `Done` there
    /// counts as success, `Failed` as a failure to wait for it.
    Last(String),
    /// The release of the stages spawned before the named program failed to spawn.
    Release(String),
    /// The change of directory.
    Directory,
    /// The replacement of the process by the named program.
    Replace(String),
}

/// What the driver of the evaluator is to do next.
pub enum Action {
    /// Spawn `command`, reading from the previous stage's pipe where
    /// `piped_input`, writing to a pipe for the next stage where `piped_output`.
    Spawn { command: Vshcommand, piped_input: bool, piped_output: bool },
    /// Wait for the last stage spawned.
    WaitLast,
    /// Close the pipes of the stages spawned so far and let them go.
    Release,
    /// Change the working directory.
    ChangeDirectory(String),
    /// Replace the shell's process by the program.
    Replace(Vshcommand),
    /// Nothing to do: call `step` again.
    Continue,
    /// Evaluation is over, with this status.
    Finish(Result<(), CommandError>),
}

/// What came of the last action.
pub enum Outcome {
    /// It was done: spawned, released, changed directory.
    Done,
    /// It could not be done.
    Failed,
    /// The process waited for exited with this status.
    Exited(i32),
    /// The process waited for was killed by a signal.
    Killed,
}

/// The state of one evaluation.
pub struct Evaluator {
    /// The status of the last tree evaluated.
    pub status: Result<(), CommandError>,
    /// The trees still to run; the last one runs next.
    pub frames: Vec<Frame>,
    pub pending: Pending,
}

/// The status for an exit status: zero or less is success.
pub open spec fn code_status(code: i32) -> Result<(), CommandError> {
    if code > 0 {
        Err(CommandError::NonZero(code))
    } else {
        Ok(())
    }
}

/// Maps the exit status of a process to a status.
pub fn status_of_code(code: i32) -> (r: Result<(), CommandError>)
    ensures
        r == code_status(code),
{
    if code > 0 {
        Err(CommandError::NonZero(code))
    } else {
        Ok(())
    }
}

/// Whether a frame runs after the status `s`.
pub open spec fn applies(when: When, s: Result<(), CommandError>) -> bool {
    match when {
        When::Always => true,
        When::OnSuccess => s is Ok,
        When::OnFailure => s is Err,
    }
}

/// The frames that run the trees of `v` in order: the first is pushed last.
pub open spec fn seq_frames(v: Seq<CommandTree>) -> Seq<Frame>
    decreases v.len(),
{
    if v.len() == 0 {
        seq![]
    } else {
        seq_frames(v.drop_first()).push(Frame { when: When::Always, tree: v[0] })
    }
}

/// The text an alias leaf becomes: the replacement, then each argument after
/// a space.
pub open spec fn alias_line(expansion: Seq<char>, args: Seq<Seq<char>>) -> Seq<char>
    decreases args.len(),
{
    if args.len() == 0 {
        expansion
    } else {
        alias_line(expansion, args.drop_last()) + seq![' '] + args.last()
    }
}

/// The index of the first stage that is not an external program, or the
/// number of stages.
pub open spec fn first_builtin(v: Seq<Instruction>) -> int
    decreases v.len(),
{
    if v.len() == 0 {
        0
    } else if !(v[0] is Spawn) {
        0
    } else {
        1 + first_builtin(v.drop_first())
    }
}

/// The state after the frames `rest` and status `s`, with nothing pending.
pub open spec fn holds(post: Evaluator, s: Result<(), CommandError>, rest: Seq<Frame>) -> bool {
    post.status == s && post.frames@ == rest && post.pending is Nothing
}

/// An alias leaf, with replacement `expansion` and arguments `args`, started.
pub open spec fn alias_started(
    expansion: Seq<char>,
    args: Seq<Seq<char>>,
    s: Result<(), CommandError>,
    rest: Seq<Frame>,
    home: Seq<char>,
    post: Evaluator,
    a: Action,
) -> bool {
    let line = alias_line(expansion, args);
    let ws = lexed_words(line, home);
    &&& post.pending is Nothing
    &&& a is Continue
    &&& ({
        ||| {
            &&& post.status == s
            &&& post.frames@.len() == rest.len() + 1
            &&& post.frames@.drop_last() == rest
            &&& post.frames@.last().when is Always
            &&& quotes_balanced(line)
            &&& !line_rejected(ws)
            &&& line_tree(ws, post.frames@.last().tree)
        }
        ||| {
            &&& post.status matches Err(e) && e is SyntaxError
            &&& post.frames@ == rest
            &&& (!quotes_balanced(line) || line_rejected(ws))
        }
    })
}

/// A leaf instruction started, after status `s`, with `rest` still to run.
pub open spec fn leaf_started(
    ins: Instruction,
    s: Result<(), CommandError>,
    rest: Seq<Frame>,
    aliases: AliasTable,
    home: Seq<char>,
    post: Evaluator,
    a: Action,
) -> bool {
    match ins {
        Instruction::Empty => holds(post, Ok(()), rest) && a is Continue,
        Instruction::Exit(c) => holds(post, Err(CommandError::RequestExit(c)), seq![]) && a == Action::Finish(
            Err(CommandError::RequestExit(c)),
        ),
        Instruction::Malformed(m) => holds(post, Err(CommandError::SyntaxError(m)), rest) && a is Continue,
        Instruction::ChangeDirectory(p) => {
            &&& post.status == s
            &&& post.frames@ == rest
            &&& post.pending is Directory
            &&& a matches Action::ChangeDirectory(d) && d@ == (match p {
                Some(x) => x@,
                None => home,
            })
        },
        Instruction::ReplaceProcess(c) => {
            &&& post.status == s
            &&& post.frames@ == rest
            &&& post.pending == Pending::Replace(c.keyword)
            &&& a matches Action::Replace(c2) && c2@ == c@
        },
        Instruction::Spawn(c) => match aliases.lookup(c.keyword@) {
            Some(e) => alias_started(e, texts(c.args@), s, rest, home, post, a),
            None => {
                &&& post.status == s
                &&& post.frames@ == rest
                &&& post.pending matches Pending::Stage { stages, index } && index == 0 && stages@.len() == 1
                    && stages@[0]@ == c@
                &&& a matches Action::Spawn { command, piped_input, piped_output } && command@ == c@
                    && !piped_input && !piped_output
            },
        },
    }
}

/// A pipeline of the stages `v` started.
pub open spec fn pipeline_started(
    v: Seq<Instruction>,
    s: Result<(), CommandError>,
    rest: Seq<Frame>,
    post: Evaluator,
    a: Action,
) -> bool {
    let j = first_builtin(v);
    if v.len() == 0 {
        holds(post, Ok(()), rest) && a is Continue
    } else if j < v.len() {
        match v[j] {
            Instruction::Exit(c) => holds(post, Err(CommandError::RequestExit(c)), seq![]) && a
                == Action::Finish(Err(CommandError::RequestExit(c))),
            Instruction::Malformed(m) => holds(post, Err(CommandError::SyntaxError(m)), rest) && a is Continue,
            _ => post.status matches Err(e) && e is SyntaxError && post.frames@ == rest
                && post.pending is Nothing && a is Continue,
        }
    } else {
        &&& post.status == s
        &&& post.frames@ == rest
        &&& post.pending matches Pending::Stage { stages, index } && index == 0 && stages@.len() == v.len()
            && forall|i: int| 0 <= i < v.len() ==> ((#[trigger] v[i]) matches Instruction::Spawn(c) && stages@[i]@ == c@)
        &&& a matches Action::Spawn { command, piped_input, piped_output } && v[0] matches Instruction::Spawn(c)
            && command@ == c@ && !piped_input && piped_output == (v.len() > 1)
    }
}

/// The tree `t` started, after status `s`, with `rest` still to run.
pub open spec fn tree_started(
    t: CommandTree,
    s: Result<(), CommandError>,
    rest: Seq<Frame>,
    aliases: AliasTable,
    home: Seq<char>,
    post: Evaluator,
    a: Action,
) -> bool {
    match t {
        CommandTree::Sequence(v) => holds(post, s, rest + seq_frames(v@)) && a is Continue,
        CommandTree::And(l, r) => holds(
            post,
            s,
            rest.push(Frame { when: When::OnSuccess, tree: *r }).push(Frame { when: When::Always, tree: *l }),
        ) && a is Continue,
        CommandTree::Or(l, r) => holds(
            post,
            s,
            rest.push(Frame { when: When::OnFailure, tree: *r }).push(Frame { when: When::Always, tree: *l }),
        ) && a is Continue,
        CommandTree::Leaf(ins) => leaf_started(ins, s, rest, aliases, home, post, a),
        CommandTree::Pipeline(v) => pipeline_started(v@, s, rest, post, a),
    }
}

/// With nothing pending and status `s`, the next frame of `frames` handled.
pub open spec fn settled(
    s: Result<(), CommandError>,
    frames: Seq<Frame>,
    aliases: AliasTable,
    home: Seq<char>,
    post: Evaluator,
    a: Action,
) -> bool {
    if frames.len() == 0 {
        holds(post, s, frames) && a == Action::Finish(s)
    } else if !applies(frames.last().when, s) {
        holds(post, s, frames.drop_last()) && a is Continue
    } else {
        tree_started(frames.last().tree, s, frames.drop_last(), aliases, home, post, a)
    }
}

/// One step of the evaluator: `pre` takes `outcome` and becomes `post`,
/// returning `a`.
pub open spec fn stepped(
    pre: Evaluator,
    outcome: Outcome,
    aliases: AliasTable,
    home: Seq<char>,
    post: Evaluator,
    a: Action,
) -> bool {
    match pre.pending {
        Pending::Nothing => settled(pre.status, pre.frames@, aliases, home, post, a),
        Pending::Stage { stages, index } => if index >= stages@.len() {
            settled(pre.status, pre.frames@, aliases, home, post, a)
        } else if outcome is Done {
            &&& post.status == pre.status
            &&& post.frames@ == pre.frames@
            &&& if index + 1 < stages@.len() {
                &&& post.pending == Pending::Stage { stages, index: (index + 1) as usize }
                &&& a matches Action::Spawn { command, piped_input, piped_output } && command@
                    == stages@[index + 1]@ && piped_input && piped_output == (index + 2 < stages@.len())
            } else {
                post.pending == Pending::Last(stages@[index as int].keyword) && a is WaitLast
            }
        } else if index > 0 {
            &&& post.status == pre.status
            &&& post.frames@ == pre.frames@
            &&& post.pending == Pending::Release(stages@[index as int].keyword)
            &&& a is Release
        } else {
            settled(Err(CommandError::SpawnFailed(stages@[0].keyword)), pre.frames@, aliases, home, post, a)
        },
        Pending::Last(p) => settled(
            match outcome {
                Outcome::Exited(c) => code_status(c),
                Outcome::Killed => Err(CommandError::Signaled),
                Outcome::Done => Ok(()),
                Outcome::Failed => Err(CommandError::SpawnFailed(p)),
            },
            pre.frames@,
            aliases,
            home,
            post,
            a,
        ),
        Pending::Release(p) => settled(Err(CommandError::SpawnFailed(p)), pre.frames@, aliases, home, post, a),
        Pending::Directory => settled(
            if outcome is Done {
                Ok(())
            } else {
                Err(CommandError::NonZero(1))
            },
            pre.frames@,
            aliases,
            home,
            post,
            a,
        ),
        Pending::Replace(p) => settled(Err(CommandError::SpawnFailed(p)), pre.frames@, aliases, home, post, a),
    }
}

impl CommandError {
    /// A copy of this error.
    pub fn duplicate(&self) -> (r: Self)
        ensures
            r == *self,
    {
        match self {
            CommandError::SyntaxError(m) => CommandError::SyntaxError(m.clone()),
            CommandError::SpawnFailed(p) => CommandError::SpawnFailed(p.clone()),
            CommandError::NonZero(c) => CommandError::NonZero(*c),
            CommandError::Signaled => CommandError::Signaled,
            CommandError::RequestExit(c) => CommandError::RequestExit(*c),
        }
    }
}

/// A copy of a status.
pub fn copy_status(s: &Result<(), CommandError>) -> (r: Result<(), CommandError>)
    ensures
        r == *s,
{
    match s {
        Ok(u) => Ok(*u),
        Err(e) => Err(e.duplicate()),
    }
}

fn applies_to(when: &When, s: &Result<(), CommandError>) -> (r: bool)
    ensures
        r == applies(*when, *s),
{
    match when {
        When::Always => true,
        When::OnSuccess => s.is_ok(),
        When::OnFailure => s.is_err(),
    }
}

/// The text an alias leaf becomes.
pub fn join_alias(expansion: &String, args: &Vec<String>) -> (r: String)
    ensures
        r@ == alias_line(expansion@, texts(args@)),
{
    let mut line = expansion.clone();
    let mut i: usize = 0;
    proof {
        reveal_strlit(" ");
    }
    while i < args.len()
        invariant
            i <= args.len(),
            line@ == alias_line(expansion@, texts(args@).take(i as int)),
        decreases args.len() - i,
    {
        proof {
            reveal_strlit(" ");
        }
        let ghost ta = texts(args@);
        assert(ta.take(i + 1).drop_last() =~= ta.take(i as int));
        assert(ta.take(i + 1).last() == args@[i as int]@);
        line.append(" ");
        line.append(args[i].as_str());
        i = i + 1;
    }
    assert(texts(args@).take(args.len() as int) =~= texts(args@));
    line
}

/// `i` is the first stage that is not an external program.
pub proof fn lemma_first_builtin(v: Seq<Instruction>, i: int)
    requires
        0 <= i <= v.len(),
        forall|j: int| 0 <= j < i ==> (#[trigger] v[j]) is Spawn,
        i == v.len() || !(v[i] is Spawn),
    ensures
        first_builtin(v) == i,
    decreases i,
{
    if i > 0 {
        let rest = v.drop_first();
        assert forall|j: int| 0 <= j < i - 1 implies (#[trigger] rest[j]) is Spawn by {
            assert(rest[j] == v[j + 1]);
        }
        if i < v.len() {
            assert(rest[i - 1] == v[i]);
        }
        lemma_first_builtin(rest, i - 1);
        assert(v[0] is Spawn);
    }
}

impl Evaluator {
    /// An evaluation of `tree`, not yet started.
    pub fn new(tree: CommandTree) -> (r: Self)
        ensures
            r.status == Ok::<(), CommandError>(()),
            r.frames@ == seq![Frame { when: When::Always, tree }],
            r.pending is Nothing,
    {
        let mut frames: Vec<Frame> = Vec::new();
        frames.push(Frame { when: When::Always, tree });
        Evaluator { status: Ok(()), frames, pending: Pending::Nothing }
    }

    /// An evaluation of `line`: of its tree where it parses, otherwise one
    /// that finishes at once with the syntax error.
    pub fn start(line: &str, home: &str) -> (r: Self)
        ensures
            r.pending is Nothing,
            r.frames@.len() == 1 ==> r.status is Ok && r.frames@[0].when is Always && quotes_balanced(line@)
                && !line_rejected(lexed_words(line@, home@)) && line_tree(lexed_words(line@, home@), r.frames@[0].tree),
            r.frames@.len() == 0 ==> (r.status matches Err(e) && e is SyntaxError),
            r.frames@.len() <= 1,
            quotes_balanced(line@) && !line_rejected(lexed_words(line@, home@)) ==> r.frames@.len() == 1,
            r.frames@.len() == 0 ==> !quotes_balanced(line@) || line_rejected(lexed_words(line@, home@)),
    {
        match parse_line(line, home) {
            Ok(t) => Evaluator::new(t),
            Err(e) => Evaluator { status: Err(e), frames: Vec::new(), pending: Pending::Nothing },
        }
    }

    /// Takes the outcome of the last action and returns the next one.
    pub fn step(&mut self, outcome: Outcome, aliases: &AliasTable, home: &str) -> (r: Action)
        ensures
            stepped(*old(self), outcome, *aliases, home@, *final(self), r),
    {
        let mut p = Pending::Nothing;
        std::mem::swap(&mut self.pending, &mut p);
        match p {
            Pending::Nothing => self.settle(aliases, home),
            Pending::Stage { stages, index } => {
                if index >= stages.len() {
                    return self.settle(aliases, home);
                }
                match outcome {
                    Outcome::Done => {
                        if index + 1 < stages.len() {
                            let command = stages[index + 1].duplicate();
                            let piped_output = index + 2 < stages.len();
                            self.pending = Pending::Stage { stages, index: index + 1 };
                            Action::Spawn { command, piped_input: true, piped_output }
                        } else {
                            self.pending = Pending::Last(stages[index].keyword.clone());
                            Action::WaitLast
                        }
                    },
                    _ => {
                        if index > 0 {
                            self.pending = Pending::Release(stages[index].keyword.clone());
                            Action::Release
                        } else {
                            self.status = Err(CommandError::SpawnFailed(stages[0].keyword.clone()));
                            self.settle(aliases, home)
                        }
                    },
                }
            },
            Pending::Last(program) => {
                self.status = match outcome {
                    Outcome::Exited(c) => status_of_code(c),
                    Outcome::Killed => Err(CommandError::Signaled),
                    Outcome::Done => Ok(()),
                    Outcome::Failed => Err(CommandError::SpawnFailed(program)),
                };
                self.settle(aliases, home)
            },
            Pending::Release(program) => {
                self.status = Err(CommandError::SpawnFailed(program));
                self.settle(aliases, home)
            },
            Pending::Directory => {
                self.status = match outcome {
                    Outcome::Done => Ok(()),
                    _ => Err(CommandError::NonZero(1)),
                };
                self.settle(aliases, home)
            },
            Pending::Replace(program) => {
                self.status = Err(CommandError::SpawnFailed(program));
                self.settle(aliases, home)
            },
        }
    }

    /// With nothing pending, handles the next frame.
    fn settle(&mut self, aliases: &AliasTable, home: &str) -> (r: Action)
        requires
            old(self).pending is Nothing,
        ensures
            settled(old(self).status, old(self).frames@, *aliases, home@, *final(self), r),
    {
        match self.frames.pop() {
            None => Action::Finish(copy_status(&self.status)),
            Some(frame) => {
                if !applies_to(&frame.when, &self.status) {
                    return Action::Continue;
                }
                self.start_tree(frame.tree, aliases, home)
            },
        }
    }

    fn start_tree(&mut self, t: CommandTree, aliases: &AliasTable, home: &str) -> (r: Action)
        requires
            old(self).pending is Nothing,
        ensures
            tree_started(t, old(self).status, old(self).frames@, *aliases, home@, *final(self), r),
    {
        match t {
            CommandTree::Sequence(v) => {
                let mut v = v;
                let ghost orig = v@;
                let ghost base = self.frames@;
                assert(orig.skip(orig.len() as int) =~= seq![]);
                assert(base + seq_frames(seq![]) =~= base);
                while v.len() > 0
                    invariant
                        v@.len() <= orig.len(),
                        v@ == orig.take(v@.len() as int),
                        self.frames@ == base + seq_frames(orig.skip(v@.len() as int)),
                        self.status == old(self).status,
                        self.pending is Nothing,
                    decreases v@.len(),
                {
                    let k = v.len();
                    let t = v.pop().unwrap();
                    assert(t == orig[k - 1]);
                    assert(v@ =~= orig.take(k - 1));
                    let ghost sk = orig.skip(k - 1);
                    assert(sk.drop_first() =~= orig.skip(k as int));
                    assert(sk[0] == orig[k - 1]);
                    self.frames.push(Frame { when: When::Always, tree: t });
                    assert(self.frames@ =~= base + seq_frames(orig.skip(k - 1)));
                }
                assert(orig.skip(0) =~= orig);
                Action::Continue
            },
            CommandTree::And(l, r) => {
                self.frames.push(Frame { when: When::OnSuccess, tree: *r });
                self.frames.push(Frame { when: When::Always, tree: *l });
                Action::Continue
            },
            CommandTree::Or(l, r) => {
                self.frames.push(Frame { when: When::OnFailure, tree: *r });
                self.frames.push(Frame { when: When::Always, tree: *l });
                Action::Continue
            },
            CommandTree::Leaf(ins) => self.start_leaf(ins, aliases, home),
            CommandTree::Pipeline(v) => self.start_pipeline(v),
        }
    }

    fn start_leaf(&mut self, ins: Instruction, aliases: &AliasTable, home: &str) -> (r: Action)
        requires
            old(self).pending is Nothing,
        ensures
            leaf_started(ins, old(self).status, old(self).frames@, *aliases, home@, *final(self), r),
    {
        match ins {
            Instruction::Empty => {
                self.status = Ok(());
                Action::Continue
            },
            Instruction::Exit(c) => {
                self.status = Err(CommandError::RequestExit(c));
                self.frames = Vec::new();
                Action::Finish(Err(CommandError::RequestExit(c)))
            },
            Instruction::Malformed(m) => {
                self.status = Err(CommandError::SyntaxError(m));
                Action::Continue
            },
            Instruction::ChangeDirectory(p) => {
                self.pending = Pending::Directory;
                match p {
                    Some(d) => Action::ChangeDirectory(d),
                    None => Action::ChangeDirectory(String::from_str(home)),
                }
            },
            Instruction::ReplaceProcess(c) => {
                self.pending = Pending::Replace(c.keyword.clone());
                Action::Replace(c)
            },
            Instruction::Spawn(c) => {
                match aliases.get(c.keyword.as_str()) {
                    Some(e) => {
                        let line = join_alias(e, &c.args);
                        match parse_line(line.as_str(), home) {
                            Ok(t) => {
                                let ghost before = self.frames@;
                                self.frames.push(Frame { when: When::Always, tree: t });
                                assert(self.frames@.drop_last() =~= before);
                            },
                            Err(e) => {
                                self.status = Err(e);
                            },
                        }
                        Action::Continue
                    },
                    None => {
                        let command = c.duplicate();
                        let mut stages: Vec<Vshcommand> = Vec::new();
                        stages.push(c);
                        self.pending = Pending::Stage { stages, index: 0 };
                        Action::Spawn { command, piped_input: false, piped_output: false }
                    },
                }
            },
        }
    }

    fn start_pipeline(&mut self, v: Vec<Instruction>) -> (r: Action)
        requires
            old(self).pending is Nothing,
        ensures
            pipeline_started(v@, old(self).status, old(self).frames@, *final(self), r),
    {
        let n = v.len();
        if n == 0 {
            self.status = Ok(());
            return Action::Continue;
        }
        match program_stages(v) {
            Ok(stages) => {
                let command = stages[0].duplicate();
                self.pending = Pending::Stage { stages, index: 0 };
                Action::Spawn { command, piped_input: false, piped_output: n > 1 }
            },
            Err(Instruction::Exit(c)) => {
                self.status = Err(CommandError::RequestExit(c));
                self.frames = Vec::new();
                Action::Finish(Err(CommandError::RequestExit(c)))
            },
            Err(Instruction::Malformed(m)) => {
                self.status = Err(CommandError::SyntaxError(m));
                Action::Continue
            },
            Err(_) => {
                self.status = Err(CommandError::SyntaxError(String::from_str("a builtin cannot be a pipeline stage")));
                Action::Continue
            },
        }
    }
}

/// The programs of a pipeline's stages, or the first stage that is not an
/// external program.
fn program_stages(v: Vec<Instruction>) -> (r: Result<Vec<Vshcommand>, Instruction>)
    ensures
        r matches Ok(stages) ==> first_builtin(v@) == v@.len() && stages@.len() == v@.len() && forall|i: int|
            0 <= i < v@.len() ==> ((#[trigger] v@[i]) matches Instruction::Spawn(c) && stages@[i]@ == c@),
        r matches Err(ins) ==> 0 <= first_builtin(v@) < v@.len() && ins == v@[first_builtin(v@)],
{
    let n = v.len();
    let ghost orig = v@;
    let mut rest = v;
    let mut stages: Vec<Vshcommand> = Vec::new();
    let mut i: usize = 0;
    while i < n
        invariant
            n == orig.len(),
            orig == v@,
            i <= n,
            rest@ == orig.skip(i as int),
            stages@.len() == i,
            forall|j: int| 0 <= j < i ==> (#[trigger] orig[j]) is Spawn,
            forall|j: int| 0 <= j < i ==> (#[trigger] stages@[j]) == orig[j]->Spawn_0,
        decreases n - i,
    {
        let ins = rest.remove(0);
        assert(ins == orig[i as int]);
        assert(rest@ =~= orig.skip(i + 1));
        match ins {
            Instruction::Spawn(c) => {
                stages.push(c);
            },
            other => {
                proof {
                    lemma_first_builtin(orig, i as int);
                }
                return Err(other);
            },
        }
        i = i + 1;
    }
    proof {
        lemma_first_builtin(orig, n as int);
    }
    Ok(stages)
}

impl Vshcommand {
    /// Starts the evaluation of a line: see [`Evaluator::start`].
    pub fn run(line: String, home: &str) -> (r: Evaluator)
        ensures
            r.pending is Nothing,
            r.frames@.len() <= 1,
            r.frames@.len() == 1 ==> r.status is Ok && r.frames@[0].when is Always && line_tree(
                lexed_words(line@, home@),
                r.frames@[0].tree,
            ),
            r.frames@.len() == 0 ==> (r.status matches Err(e) && e is SyntaxError),
            quotes_balanced(line@) && !line_rejected(lexed_words(line@, home@)) ==> r.frames@.len() == 1,
            r.frames@.len() == 0 ==> !quotes_balanced(line@) || line_rejected(lexed_words(line@, home@)),
    {
        Evaluator::start(line.as_str(), home)
    }
}

} // verus!
