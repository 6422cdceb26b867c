//! Simple commands and their classification into instructions.
use vstd::prelude::*;
use crate::text::{texts, same_text, copy_strings, slice_strings};
use crate::lexer::{quotes_balanced, quoted_words, merge_quotes};
use crate::eval::CommandError;

verus! {

/// A program name with its arguments.
pub struct Vshcommand {
    pub keyword: String,
    pub args: Vec<String>,
}

/// A command line split into its first word and the rest, for a line with
/// balanced quotes that holds at least one word.
pub struct InternalCommand {
    pub keyword: String,
    pub args: Vec<String>,
}

impl InternalCommand {
    pub fn new(input: String) -> (r: Self)
        requires
            quotes_balanced(input@),
            quoted_words(input@).len() > 0,
        ensures
            r.keyword@ == quoted_words(input@)[0],
            texts(r.args@) == quoted_words(input@).drop_first(),
    {
        match Vshcommand::new(input) {
            Ok(c) => InternalCommand { keyword: c.keyword, args: c.args },
            Err(_) => InternalCommand { keyword: String::new(), args: Vec::new() },
        }
    }
}

/// What one simple command asks of the shell.
pub enum Instruction {
    /// `exit`, with an optional status.
    Exit(Option<i32>),
    /// `cd`, with an optional target; also a lone word ending in `/`.
    ChangeDirectory(Option<String>),
    /// An external program.
    Spawn(Vshcommand),
    /// `exec`: the shell's own process is replaced by the program.
    ReplaceProcess(Vshcommand),
    /// Nothing to do.
    Empty,
    /// A builtin with an argument it cannot take.
    Malformed(String),
}

impl Vshcommand {
    /// The program name and the arguments as character sequences.
    pub open spec fn view(&self) -> (Seq<char>, Seq<Seq<char>>) {
        (self.keyword@, texts(self.args@))
    }

    /// Splits `input` into words as the lexer does, without `~` expansion:
    /// whitespace, double-quoted spans (one word each, quotes removed) and
    /// operators. The first word names the program (empty when there is
    /// none), the rest are its arguments. Unbalanced quotes are a syntax error.
    pub fn new(input: String) -> (r: Result<Self, CommandError>)
        ensures
            r is Ok <==> quotes_balanced(input@),
            r matches Ok(c) ==> (quoted_words(input@).len() == 0 ==> c.keyword@ == Seq::<char>::empty()
                && c.args@.len() == 0),
            r matches Ok(c) ==> (quoted_words(input@).len() > 0 ==> c@ == (
                quoted_words(input@)[0],
                quoted_words(input@).drop_first(),
            )),
            r matches Err(e) ==> e is SyntaxError,
    {
        match merge_quotes(input.as_str()) {
            Ok(words) => Ok(Self::from_words(words)),
            Err(e) => Err(e),
        }
    }

    /// The command whose program is the first word and whose arguments are the
    /// others; an empty program where there are no words.
    pub fn from_words(words: Vec<String>) -> (r: Self)
        ensures
            words@.len() == 0 ==> r.keyword@ == Seq::<char>::empty() && r.args@.len() == 0,
            words@.len() > 0 ==> r@ == (words@[0]@, texts(words@).drop_first()),
    {
        if words.len() == 0 {
            return Vshcommand { keyword: String::new(), args: Vec::new() };
        }
        let keyword = words[0].clone();
        let args = slice_strings(&words, 1, words.len());
        assert(texts(args@) =~= texts(words@).drop_first());
        Vshcommand { keyword, args }
    }

    /// A copy of this command.
    pub fn duplicate(&self) -> (r: Self)
        ensures
            r.keyword == self.keyword,
            r.args@ == self.args@,
    {
        Vshcommand { keyword: self.keyword.clone(), args: copy_strings(&self.args) }
    }
}

pub open spec fn is_digit(c: char) -> bool {
    '0' <= c && c <= '9'
}

pub open spec fn all_digits(s: Seq<char>) -> bool {
    s.len() > 0 && forall|i: int| 0 <= i < s.len() ==> is_digit(#[trigger] s[i])
}

/// The value of a string of decimal digits.
pub open spec fn digits_value(s: Seq<char>) -> int
    decreases s.len(),
{
    if s.len() == 0 {
        0
    } else {
        digits_value(s.drop_last()) * 10 + (s.last() as int - '0' as int)
    }
}

/// The integer written in `s`: decimal digits with an optional `+` or `-`.
pub open spec fn integer_value(s: Seq<char>) -> Option<int> {
    if all_digits(s) {
        Some(digits_value(s))
    } else if s.len() > 1 && s[0] == '+' && all_digits(s.drop_first()) {
        Some(digits_value(s.drop_first()))
    } else if s.len() > 1 && s[0] == '-' && all_digits(s.drop_first()) {
        Some(-digits_value(s.drop_first()))
    } else {
        None
    }
}

/// The `i32` written in `s`, if there is one and it fits.
pub open spec fn status_value(s: Seq<char>) -> Option<i32> {
    match integer_value(s) {
        Some(v) => if i32::MIN <= v <= i32::MAX {
            Some(v as i32)
        } else {
            None
        },
        None => None,
    }
}

proof fn lemma_digits_grow(s: Seq<char>, k: int)
    requires
        0 <= k <= s.len(),
        forall|i: int| 0 <= i < s.len() ==> is_digit(#[trigger] s[i]),
    ensures
        0 <= digits_value(s.take(k)) <= digits_value(s),
    decreases s.len() - k,
{
    if k < s.len() {
        lemma_digits_grow(s, k + 1);
        assert(s.take(k + 1).drop_last() =~= s.take(k));
        assert(s.take(k + 1).last() == s[k]);
    } else {
        assert(s.take(k) =~= s);
        lemma_digits_nonneg(s);
    }
}

proof fn lemma_digits_nonneg(s: Seq<char>)
    requires
        forall|i: int| 0 <= i < s.len() ==> is_digit(#[trigger] s[i]),
    ensures
        digits_value(s) >= 0,
    decreases s.len(),
{
    if s.len() > 0 {
        assert(s.last() == s[s.len() - 1]);
        lemma_digits_nonneg(s.drop_last());
    }
}

/// The value of the digits of `s` from `from` on, if they are all digits,
/// there is at least one, and the value is at most 2^31.
fn read_digits(s: &str, from: usize) -> (r: Option<u64>)
    requires
        from <= s@.len(),
    ensures
        r matches Some(v) ==> all_digits(s@.skip(from as int)) && v == digits_value(s@.skip(from as int)) && v <= 0x8000_0000,
        r is None ==> !all_digits(s@.skip(from as int)) || digits_value(s@.skip(from as int)) > 0x8000_0000,
{
    let n = s.unicode_len();
    if from >= n {
        return None;
    }
    let ghost t = s@.skip(from as int);
    let mut v: u64 = 0;
    let mut i: usize = from;
    while i < n
        invariant
            n == s@.len(),
            from <= i <= n,
            t == s@.skip(from as int),
            forall|j: int| 0 <= j < i - from ==> is_digit(#[trigger] t[j]),
            v == digits_value(t.take(i - from)),
            v <= 0x8000_0000,
        decreases n - i,
    {
        let c = s.get_char(i);
        assert(t[i - from] == c);
        if !('0' <= c && c <= '9') {
            return None;
        }
        assert(t.take(i - from + 1).drop_last() =~= t.take(i - from));
        assert(t.take(i - from + 1).last() == c);
        let d = (c as u32 - '0' as u32) as u64;
        let w = v * 10 + d;
        i = i + 1;
        if w > 0x8000_0000 {
            proof {
                lemma_digits_grow(t.take(i - from), i - from);
                assert forall|j: int| 0 <= j < t.len() implies is_digit(#[trigger] t[j]) || !all_digits(t) by {}
                if all_digits(t) {
                    lemma_digits_grow(t, i - from);
                }
            }
            return None;
        }
        v = w;
    }
    assert(t.take(n - from) =~= t);
    Some(v)
}

/// The `i32` written in `s`: decimal digits after an optional `+` or `-`.
pub fn parse_status(s: &str) -> (r: Option<i32>)
    ensures
        r == status_value(s@),
{
    let n = s.unicode_len();
    if n == 0 {
        return None;
    }
    let c = s.get_char(0);
    if c == '+' || c == '-' {
        if n == 1 {
            return None;
        }
        assert(!all_digits(s@));
        assert(s@.skip(1) =~= s@.drop_first());
        match read_digits(s, 1) {
            Some(v) => if c == '-' {
                Some((0 - v as i64) as i32)
            } else if v <= 0x7fff_ffff {
                Some(v as i32)
            } else {
                None
            },
            None => None,
        }
    } else {
        assert(s@.skip(0) =~= s@);
        match read_digits(s, 0) {
            Some(v) => if v <= 0x7fff_ffff {
                Some(v as i32)
            } else {
                None
            },
            None => None,
        }
    }
}

pub open spec fn word_exit() -> Seq<char> {
    seq!['e', 'x', 'i', 't']
}

pub open spec fn word_cd() -> Seq<char> {
    seq!['c', 'd']
}

pub open spec fn word_exec() -> Seq<char> {
    seq!['e', 'x', 'e', 'c']
}

pub open spec fn exit_status_message() -> Seq<char> {
    "exit: the status must be an integer"@
}

pub open spec fn exit_arguments_message() -> Seq<char> {
    "exit: too many arguments"@
}

pub open spec fn exec_program_message() -> Seq<char> {
    "exec: a program is needed"@
}

/// `ins` is what the words `ws` ask for.
pub open spec fn classified(ws: Seq<Seq<char>>, ins: Instruction) -> bool {
    if ws.len() == 0 {
        ins is Empty
    } else if ws[0] == word_exit() {
        if ws.len() == 1 {
            ins == Instruction::Exit(None)
        } else if ws.len() == 2 && status_value(ws[1]) is Some {
            ins == Instruction::Exit(status_value(ws[1]))
        } else if ws.len() == 2 {
            ins matches Instruction::Malformed(m) && m@ == exit_status_message()
        } else {
            ins matches Instruction::Malformed(m) && m@ == exit_arguments_message()
        }
    } else if ws[0] == word_cd() {
        if ws.len() == 1 {
            ins == Instruction::ChangeDirectory(None)
        } else {
            ins matches Instruction::ChangeDirectory(Some(d)) && d@ == ws[1]
        }
    } else if ws[0] == word_exec() {
        if ws.len() == 1 {
            ins matches Instruction::Malformed(m) && m@ == exec_program_message()
        } else {
            ins matches Instruction::ReplaceProcess(c) && c@ == (ws[1], ws.skip(2))
        }
    } else if ws[0].len() > 0 && ws[0].last() == '/' {
        ins matches Instruction::ChangeDirectory(Some(d)) && d@ == ws[0]
    } else {
        ins matches Instruction::Spawn(c) && c@ == (ws[0], ws.drop_first())
    }
}

/// Classifies a simple command by its first word: `exit`, `cd` and `exec`
/// are builtins, a first word ending in `/` changes to that directory, and
/// anything else is an external program.
pub fn classify(words: Vec<String>) -> (r: Instruction)
    ensures
        classified(texts(words@), r),
{
    let ghost ws = texts(words@);
    let n = words.len();
    if n == 0 {
        return Instruction::Empty;
    }
    let first = words[0].as_str();
    assert(first@ == ws[0]);
    proof {
        reveal_strlit("exit");
        reveal_strlit("cd");
        reveal_strlit("exec");
    }
    assert("exit"@ =~= word_exit());
    assert("cd"@ =~= word_cd());
    assert("exec"@ =~= word_exec());
    if same_text(first, "exit") {
        if n == 1 {
            return Instruction::Exit(None);
        }
        if n == 2 {
            let code = parse_status(words[1].as_str());
            if code.is_some() {
                return Instruction::Exit(code);
            }
            return Instruction::Malformed(String::from_str("exit: the status must be an integer"));
        }
        return Instruction::Malformed(String::from_str("exit: too many arguments"));
    }
    if same_text(first, "cd") {
        if n == 1 {
            return Instruction::ChangeDirectory(None);
        }
        return Instruction::ChangeDirectory(Some(words[1].clone()));
    }
    if same_text(first, "exec") {
        if n == 1 {
            return Instruction::Malformed(String::from_str("exec: a program is needed"));
        }
        let c = Vshcommand { keyword: words[1].clone(), args: slice_strings(&words, 2, n) };
        assert(texts(c.args@) =~= ws.skip(2));
        return Instruction::ReplaceProcess(c);
    }
    let m = first.unicode_len();
    if m > 0 && first.get_char(m - 1) == '/' {
        return Instruction::ChangeDirectory(Some(words[0].clone()));
    }
    Instruction::Spawn(Vshcommand::from_words(words))
}

} // verus!
