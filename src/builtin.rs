//! Builtins that describe themselves.
use vstd::prelude::*;
use crate::text::texts;
use crate::command::{Instruction, classified, word_cd};

verus! {

/// The help text of a builtin.
pub open spec fn help_text(name: Seq<char>, about: Seq<char>, examples: Seq<Seq<char>>) -> Seq<char> {
    name + "\nAbout: \n"@ + about + "\nExamples: \n1. "@ + examples[0] + "\n2. "@ + examples[1] + "\n3. "@
        + examples[2]
}

/// A command the shell runs itself.
pub trait Builtin {
    spec fn spec_name() -> Seq<char>;

    spec fn spec_about() -> Seq<char>;

    spec fn spec_examples() -> Seq<Seq<char>>;

    fn name() -> (r: &'static str)
        ensures
            r@ == Self::spec_name(),
    ;

    fn about() -> (r: &'static str)
        ensures
            r@ == Self::spec_about(),
    ;

    fn examples() -> (r: [&'static str; 3])
        ensures
            r@.map_values(|e: &'static str| e@) == Self::spec_examples(),
    ;

    /// What the builtin does with these arguments.
    fn run(args: Vec<String>) -> (r: Instruction)
        ensures
            classified(seq![Self::spec_name()] + texts(args@), r),
    ;

    fn help(&self) -> (r: String)
        ensures
            r@ == help_text(Self::spec_name(), Self::spec_about(), Self::spec_examples()),
    {
        let mut s = String::from_str(Self::name());
        let ex = Self::examples();
        assert(ex@[0]@ == Self::spec_examples()[0]);
        assert(ex@[1]@ == Self::spec_examples()[1]);
        assert(ex@[2]@ == Self::spec_examples()[2]);
        s.append("\nAbout: \n");
        s.append(Self::about());
        s.append("\nExamples: \n1. ");
        s.append(ex[0]);
        s.append("\n2. ");
        s.append(ex[1]);
        s.append("\n3. ");
        s.append(ex[2]);
        s
    }
}

/// `cd`: changes the working directory.
pub struct Cd;

impl Builtin for Cd {
    open spec fn spec_name() -> Seq<char> {
        word_cd()
    }

    open spec fn spec_about() -> Seq<char> {
        "A command line program for changing working directory"@
    }

    open spec fn spec_examples() -> Seq<Seq<char>> {
        seq!["cd"@, "cd ~/Downloads"@, "cd .."@]
    }

    fn name() -> (r: &'static str) {
        proof {
            reveal_strlit("cd");
        }
        assert("cd"@ =~= word_cd());
        "cd"
    }

    fn about() -> (r: &'static str) {
        "A command line program for changing working directory"
    }

    fn examples() -> (r: [&'static str; 3]) {
        let r = ["cd", "cd ~/Downloads", "cd .."];
        assert(r@.map_values(|e: &'static str| e@) =~= Self::spec_examples());
        r
    }

    fn run(args: Vec<String>) -> (r: Instruction) {
        let ghost a = texts(args@);
        assert((seq![word_cd()] + a).skip(1) =~= a);
        if args.len() == 0 {
            Instruction::ChangeDirectory(None)
        } else {
            Instruction::ChangeDirectory(Some(args[0].clone()))
        }
    }
}

} // verus!
