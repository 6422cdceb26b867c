use vsh::alias::AliasTable;
use vsh::command::{classify, parse_status, Instruction, InternalCommand, Vshcommand};
use vsh::eval::{status_of_code, Action, CommandError, Evaluator, Outcome};
use vsh::lexer::{lex, merge_quotes, split_blank};
use vsh::tree::{parse, parse_line, CommandTree};

fn words(v: &[&str]) -> Vec<String> {
    v.iter().map(|s| s.to_string()).collect()
}

fn is_spawn(a: &Action, program: &str, args: &[&str]) -> bool {
    match a {
        Action::Spawn { command, .. } => command.keyword == program && command.args == words(args),
        _ => false,
    }
}

fn program_of(ins: &Instruction) -> String {
    match ins {
        Instruction::Spawn(c) => c.keyword.clone(),
        _ => panic!("not a program"),
    }
}

#[test]
fn split_on_ascii_whitespace() {
    assert_eq!(split_blank("  echo\ta  b\n"), words(&["echo", "a", "b"]));
    assert_eq!(split_blank(""), Vec::<String>::new());
    assert_eq!(split_blank(" \t "), Vec::<String>::new());
}

#[test]
fn quoted_spans_become_one_word() {
    assert_eq!(lex("echo \"hello   world\" x", "/h").ok().unwrap(), words(&["echo", "hello world", "x"]));
    assert_eq!(lex("echo \"one\"", "/h").ok().unwrap(), words(&["echo", "one"]));
    assert_eq!(lex("echo \"a \\\" b\"", "/h").ok().unwrap(), words(&["echo", "a \\\" b"]));
}

#[test]
fn unbalanced_quotes_are_syntax_errors() {
    assert!(matches!(lex("echo \"open", "/h"), Err(CommandError::SyntaxError(_))));
    assert!(matches!(lex("echo \"a \"b\"", "/h"), Err(CommandError::SyntaxError(_))));
    assert!(matches!(merge_quotes("\"x"), Err(CommandError::SyntaxError(_))));
}

#[test]
fn tilde_is_expanded_unless_escaped() {
    assert_eq!(lex("cd ~/src", "/home/ada").ok().unwrap(), words(&["cd", "/home/ada/src"]));
    assert_eq!(lex("echo a~b \\~c ~", "/h").ok().unwrap(), words(&["echo", "a~b", "\\~c", "/h"]));
    assert_eq!(lex("echo ~/x a", "/h").ok().unwrap(), words(&["echo", "/h/x", "a"]));
    assert_eq!(lex("echo \"~/x\"", "/h").ok().unwrap(), words(&["echo", "/h/x"]));
    assert_eq!(lex("echo ~", "/$1").ok().unwrap(), words(&["echo", "/$1"]));
}

#[test]
fn lexing_a_resolved_word_gives_it_back() {
    let first = lex("\"a  b\"", "/h").ok().unwrap();
    assert_eq!(first, words(&["a b"]));
    for w in ["ls", "-la", "/tmp/x", "a=b", "x~y"] {
        assert_eq!(lex(w, "/h").ok().unwrap(), words(&[w]));
    }
}

#[test]
fn operators_split_words_outside_quotes() {
    assert_eq!(lex("echo hi;", "/h").ok().unwrap(), words(&["echo", "hi", ";"]));
    assert_eq!(lex("a;;b", "/h").ok().unwrap(), words(&["a", ";", ";", "b"]));
    assert_eq!(lex("a&&b||c|d", "/h").ok().unwrap(), words(&["a", "&&", "b", "||", "c", "|", "d"]));
    assert_eq!(lex("a|||b", "/h").ok().unwrap(), words(&["a", "||", "|", "b"]));
    assert_eq!(lex("a&b", "/h").ok().unwrap(), words(&["a&b"]));
    assert_eq!(lex("echo \"a;b && c\"", "/h").ok().unwrap(), words(&["echo", "a;b && c"]));
    assert_eq!(vsh::lexer::split_operators(";x&&"), words(&[";", "x", "&&"]));
}

#[test]
fn vshcommand_splits_first_word() {
    let c = Vshcommand::new("  ls -la /tmp ".to_string()).ok().unwrap();
    assert_eq!(c.keyword, "ls");
    assert_eq!(c.args, words(&["-la", "/tmp"]));
    let q = Vshcommand::new("echo \"hello world\"".to_string()).ok().unwrap();
    assert_eq!(q.keyword, "echo");
    assert_eq!(q.args, words(&["hello world"]));
    assert!(matches!(Vshcommand::new("echo \"open".to_string()), Err(CommandError::SyntaxError(_))));
    let e = Vshcommand::new("".to_string()).ok().unwrap();
    assert_eq!(e.keyword, "");
    assert!(e.args.is_empty());
    let i = InternalCommand::new("cd  ..".to_string());
    assert_eq!(i.keyword, "cd");
    assert_eq!(i.args, words(&[".."]));
}

#[test]
fn statuses_parse_within_i32() {
    assert_eq!(parse_status("7"), Some(7));
    assert_eq!(parse_status("-2147483648"), Some(i32::MIN));
    assert_eq!(parse_status("+2147483647"), Some(i32::MAX));
    assert_eq!(parse_status("2147483648"), None);
    assert_eq!(parse_status("99999999999999999999"), None);
    assert_eq!(parse_status("abc"), None);
    assert_eq!(parse_status("-"), None);
    assert_eq!(parse_status(""), None);
}

#[test]
fn classification_of_builtins() {
    assert!(matches!(classify(words(&[])), Instruction::Empty));
    assert!(matches!(classify(words(&["exit"])), Instruction::Exit(None)));
    assert!(matches!(classify(words(&["exit", "7"])), Instruction::Exit(Some(7))));
    match classify(words(&["exit", "abc"])) {
        Instruction::Malformed(m) => assert_eq!(m, "exit: the status must be an integer"),
        _ => panic!("exit abc"),
    }
    assert!(matches!(classify(words(&["exit", "1", "2"])), Instruction::Malformed(_)));
    assert!(matches!(classify(words(&["cd"])), Instruction::ChangeDirectory(None)));
    match classify(words(&["cd", "/tmp"])) {
        Instruction::ChangeDirectory(Some(d)) => assert_eq!(d, "/tmp"),
        _ => panic!("cd"),
    }
    match classify(words(&["/usr/"])) {
        Instruction::ChangeDirectory(Some(d)) => assert_eq!(d, "/usr/"),
        _ => panic!("directory shorthand"),
    }
    match classify(words(&["exec", "ls", "-l"])) {
        Instruction::ReplaceProcess(c) => {
            assert_eq!(c.keyword, "ls");
            assert_eq!(c.args, words(&["-l"]));
        }
        _ => panic!("exec"),
    }
    assert!(matches!(classify(words(&["exec"])), Instruction::Malformed(_)));
    match classify(words(&["ls", "-l"])) {
        Instruction::Spawn(c) => {
            assert_eq!(c.keyword, "ls");
            assert_eq!(c.args, words(&["-l"]));
        }
        _ => panic!("program"),
    }
}

#[test]
fn and_chain_leans_right() {
    let t = parse(&words(&["a", "&&", "b", "&&", "c"])).ok().unwrap();
    match t {
        CommandTree::And(l, r) => {
            match *l {
                CommandTree::Leaf(ins) => assert_eq!(program_of(&ins), "a"),
                _ => panic!("left is a leaf"),
            }
            match *r {
                CommandTree::And(l2, r2) => {
                    match *l2 {
                        CommandTree::Leaf(ins) => assert_eq!(program_of(&ins), "b"),
                        _ => panic!("b"),
                    }
                    match *r2 {
                        CommandTree::Leaf(ins) => assert_eq!(program_of(&ins), "c"),
                        _ => panic!("c"),
                    }
                }
                _ => panic!("right is And"),
            }
        }
        _ => panic!("And at the top"),
    }
}

#[test]
fn sequences_and_pipelines() {
    match parse(&words(&["a", ";", ";", "b", "|", "c", ";"])).ok().unwrap() {
        CommandTree::Sequence(v) => {
            assert_eq!(v.len(), 3);
            assert!(matches!(v[1], CommandTree::Leaf(Instruction::Empty)));
            match &v[2] {
                CommandTree::Pipeline(stages) => {
                    assert_eq!(stages.len(), 2);
                    assert_eq!(program_of(&stages[1]), "c");
                }
                _ => panic!("pipeline"),
            }
        }
        _ => panic!("sequence"),
    }
    assert!(matches!(parse(&words(&[])).ok().unwrap(), CommandTree::Leaf(Instruction::Empty)));
    assert!(matches!(parse(&words(&["a", "|", "|", "b"])), Err(CommandError::SyntaxError(_))));
    assert!(matches!(parse(&words(&["a", "&&", ";", "b"])), Err(CommandError::SyntaxError(_))));
}

#[test]
fn dangling_operators_are_syntax_errors() {
    for line in ["&& echo hi", "echo hi &&", "|| x", "; x", "x ||"] {
        assert!(matches!(parse_line(line, "/h"), Err(CommandError::SyntaxError(_))));
        let mut e = Vshcommand::run(line.to_string(), "/h");
        let a = e.step(Outcome::Done, &AliasTable::new(), "/h");
        assert!(matches!(a, Action::Finish(Err(CommandError::SyntaxError(_)))));
    }
}

fn drive(line: &str, aliases: &AliasTable, outcomes: &[Outcome]) -> Vec<Action> {
    let mut e = Evaluator::start(line, "/home/ada");
    let mut out = Vec::new();
    let mut next = Outcome::Done;
    let mut i = 0;
    loop {
        let a = e.step(next, aliases, "/home/ada");
        let done = matches!(a, Action::Finish(_));
        let waits = matches!(
            a,
            Action::Spawn { .. } | Action::WaitLast | Action::Release | Action::ChangeDirectory(_) | Action::Replace(_)
        );
        out.push(a);
        if done {
            return out;
        }
        next = if waits {
            i += 1;
            outcomes[i - 1].clone_outcome()
        } else {
            Outcome::Done
        };
    }
}

trait CloneOutcome {
    fn clone_outcome(&self) -> Outcome;
}

impl CloneOutcome for Outcome {
    fn clone_outcome(&self) -> Outcome {
        match self {
            Outcome::Done => Outcome::Done,
            Outcome::Failed => Outcome::Failed,
            Outcome::Exited(c) => Outcome::Exited(*c),
            Outcome::Killed => Outcome::Killed,
        }
    }
}

fn spawned(actions: &[Action]) -> Vec<String> {
    actions
        .iter()
        .filter_map(|a| match a {
            Action::Spawn { command, .. } => Some(command.keyword.clone()),
            _ => None,
        })
        .collect()
}

#[test]
fn failing_left_side_skips_the_and_chain() {
    let acts = drive("a && b && c", &AliasTable::new(), &[Outcome::Done, Outcome::Exited(3)]);
    assert_eq!(spawned(&acts), vec!["a".to_string()]);
    assert!(matches!(acts.last().unwrap(), Action::Finish(Err(CommandError::NonZero(3)))));
}

#[test]
fn or_falls_back_exactly_once() {
    let acts = drive(
        "false || echo hi",
        &AliasTable::new(),
        &[Outcome::Done, Outcome::Exited(1), Outcome::Done, Outcome::Exited(0)],
    );
    assert_eq!(spawned(&acts), vec!["false".to_string(), "echo".to_string()]);
    assert!(is_spawn(&acts[3], "echo", &["hi"]));
    assert!(matches!(acts.last().unwrap(), Action::Finish(Ok(()))));
}

#[test]
fn pipeline_stages_are_chained() {
    let acts = drive(
        "echo a | wc -c",
        &AliasTable::new(),
        &[Outcome::Done, Outcome::Done, Outcome::Done, Outcome::Exited(0)],
    );
    match &acts[0] {
        Action::Spawn { command, piped_input, piped_output } => {
            assert_eq!(command.keyword, "echo");
            assert!(!piped_input);
            assert!(piped_output);
        }
        _ => panic!("first stage"),
    }
    match &acts[1] {
        Action::Spawn { command, piped_input, piped_output } => {
            assert_eq!(command.keyword, "wc");
            assert_eq!(command.args, words(&["-c"]));
            assert!(piped_input);
            assert!(!piped_output);
        }
        _ => panic!("second stage"),
    }
    assert!(matches!(acts[2], Action::WaitLast));
    assert!(matches!(acts.last().unwrap(), Action::Finish(Ok(()))));
}

#[test]
fn failed_stage_releases_the_earlier_ones() {
    let acts = drive("a | nosuch | c", &AliasTable::new(), &[Outcome::Done, Outcome::Failed, Outcome::Done]);
    assert_eq!(spawned(&acts), vec!["a".to_string(), "nosuch".to_string()]);
    assert!(matches!(acts[2], Action::Release));
    match acts.last().unwrap() {
        Action::Finish(Err(CommandError::SpawnFailed(p))) => assert_eq!(p, "nosuch"),
        _ => panic!("spawn failure"),
    }
    let acts = drive("nosuch", &AliasTable::new(), &[Outcome::Failed]);
    assert!(matches!(acts.last().unwrap(), Action::Finish(Err(CommandError::SpawnFailed(_)))));
}

#[test]
fn failed_cd_is_not_fatal() {
    let acts = drive("cd /nonexistent ; pwd", &AliasTable::new(), &[Outcome::Failed, Outcome::Done, Outcome::Exited(0)]);
    match &acts[1] {
        Action::ChangeDirectory(d) => assert_eq!(d, "/nonexistent"),
        _ => panic!("cd"),
    }
    assert_eq!(spawned(&acts), vec!["pwd".to_string()]);
    assert!(matches!(acts.last().unwrap(), Action::Finish(Ok(()))));
    let acts = drive("cd /nonexistent", &AliasTable::new(), &[Outcome::Failed]);
    assert!(matches!(acts.last().unwrap(), Action::Finish(Err(CommandError::NonZero(1)))));
    let acts = drive("cd", &AliasTable::new(), &[Outcome::Done]);
    assert!(matches!(&acts[0], Action::ChangeDirectory(d) if d == "/home/ada"));
}

#[test]
fn exit_unwinds_the_line() {
    let acts = drive("exit 7 && echo never", &AliasTable::new(), &[]);
    assert!(spawned(&acts).is_empty());
    assert!(matches!(acts.last().unwrap(), Action::Finish(Err(CommandError::RequestExit(Some(7))))));
    let acts = drive("echo a ; exit ; echo b", &AliasTable::new(), &[Outcome::Done, Outcome::Exited(0)]);
    assert_eq!(spawned(&acts), vec!["echo".to_string()]);
    assert!(matches!(acts.last().unwrap(), Action::Finish(Err(CommandError::RequestExit(None)))));
    let acts = drive("exit abc ; echo b", &AliasTable::new(), &[Outcome::Done, Outcome::Exited(0)]);
    assert_eq!(spawned(&acts), vec!["echo".to_string()]);
}

#[test]
fn alias_behaves_as_typed() {
    let mut aliases = AliasTable::new();
    aliases.insert("ll".to_string(), "ls -la".to_string());
    let outcomes = [Outcome::Done, Outcome::Exited(0)];
    let by_alias = drive("ll /tmp", &aliases, &outcomes);
    let typed = drive("ls -la /tmp", &aliases, &outcomes);
    let a = by_alias.iter().find(|a| matches!(a, Action::Spawn { .. })).unwrap();
    let b = typed.iter().find(|a| matches!(a, Action::Spawn { .. })).unwrap();
    assert!(is_spawn(a, "ls", &["-la", "/tmp"]));
    assert!(is_spawn(b, "ls", &["-la", "/tmp"]));
    assert!(matches!(by_alias.last().unwrap(), Action::Finish(Ok(()))));
    assert_eq!(spawned(&by_alias), vec!["ls".to_string()]);

    aliases.insert("both".to_string(), "false || echo".to_string());
    let acts = drive("both x", &aliases, &[Outcome::Done, Outcome::Exited(1), Outcome::Done, Outcome::Exited(0)]);
    assert_eq!(spawned(&acts), vec!["false".to_string(), "echo".to_string()]);
}

#[test]
fn exec_that_returns_is_a_spawn_failure() {
    let acts = drive("exec nosuch", &AliasTable::new(), &[Outcome::Failed]);
    assert!(matches!(&acts[0], Action::Replace(c) if c.keyword == "nosuch"));
    assert!(matches!(acts.last().unwrap(), Action::Finish(Err(CommandError::SpawnFailed(_)))));
}

#[test]
fn killed_and_exit_statuses() {
    assert!(matches!(status_of_code(0), Ok(())));
    assert!(matches!(status_of_code(2), Err(CommandError::NonZero(2))));
    let acts = drive("sleep 9", &AliasTable::new(), &[Outcome::Done, Outcome::Killed]);
    assert!(matches!(acts.last().unwrap(), Action::Finish(Err(CommandError::Signaled))));
}

#[test]
fn empty_line_succeeds() {
    let acts = drive("", &AliasTable::new(), &[]);
    assert!(matches!(acts.last().unwrap(), Action::Finish(Ok(()))));
}

#[test]
fn expand_replaces_a_leading_tilde() {
    assert_eq!(vsh::lexer::expand("~/docs", "/home/u"), "/home/u/docs");
    assert_eq!(vsh::lexer::expand("~", "/home/u"), "/home/u");
    assert_eq!(vsh::lexer::expand("\\~/docs", "/home/u"), "\\~/docs");
    assert_eq!(vsh::lexer::expand("a~b", "/home/u"), "a~b");
    assert_eq!(vsh::lexer::expand("plain", "/h"), "plain");
}

#[test]
fn glued_operators_split_commands() {
    let acts = drive("echo hi;", &AliasTable::new(), &[Outcome::Done, Outcome::Exited(0)]);
    assert_eq!(spawned(&acts), vec!["echo".to_string()]);
    assert!(acts.iter().any(|a| is_spawn(a, "echo", &["hi"])));
    let acts = drive("a&&b", &AliasTable::new(), &[Outcome::Done, Outcome::Exited(0), Outcome::Done, Outcome::Exited(0)]);
    assert_eq!(spawned(&acts), vec!["a".to_string(), "b".to_string()]);
    let acts = drive("a;;b", &AliasTable::new(), &[Outcome::Done, Outcome::Exited(0), Outcome::Done, Outcome::Exited(0)]);
    assert_eq!(spawned(&acts), vec!["a".to_string(), "b".to_string()]);
    let acts = drive("; echo hi", &AliasTable::new(), &[]);
    assert!(spawned(&acts).is_empty());
    assert!(matches!(acts.last().unwrap(), Action::Finish(Err(CommandError::SyntaxError(_)))));
}
