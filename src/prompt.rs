//! What the prompt shows: variables gathered from the session, the working
//! directory and the status of the last command.
use vstd::prelude::*;
use crate::text::{int_to_text, int_text};
use crate::alias::{lookup_in, find_last, lemma_lookup_concat};
use crate::eval::CommandError;

verus! {

/// The views of name/value pairs.
pub open spec fn pair_texts(v: Seq<(String, String)>) -> Seq<(Seq<char>, Seq<char>)> {
    v.map_values(|p: (String, String)| (p.0@, p.1@))
}

/// Something that contributes variables to a context.
pub trait SubContext {
    /// The variables contributed, in order.
    spec fn contributed(&self) -> Seq<(Seq<char>, Seq<char>)>;

    fn retrieve_var(&self) -> (r: Vec<(String, String)>)
        ensures
            pair_texts(r@) == self.contributed(),
    ;
}

/// The value of `name` among name/value pairs; a later pair wins.
pub open spec fn lookup_pairs(v: Seq<(Seq<char>, Seq<char>)>, name: Seq<char>) -> Option<Seq<char>>
    decreases v.len(),
{
    if v.len() == 0 {
        None
    } else if v.last().0 == name {
        Some(v.last().1)
    } else {
        lookup_pairs(v.drop_last(), name)
    }
}

proof fn lemma_lookup_texts(v: Seq<(String, String)>, name: Seq<char>)
    ensures
        lookup_in(v, name) == lookup_pairs(pair_texts(v), name),
    decreases v.len(),
{
    if v.len() > 0 {
        assert(pair_texts(v).drop_last() =~= pair_texts(v.drop_last()));
        lemma_lookup_texts(v.drop_last(), name);
    }
}

/// Reading and filling a set of variables.
pub trait ThemeContext {
    /// The value of the variable `name`, if it is set.
    spec fn var_of(&self, name: Seq<char>) -> Option<Seq<char>>;

    fn get_var(&self, var_name: &str) -> (r: Option<&String>)
        ensures
            r matches Some(v) ==> self.var_of(var_name@) == Some(v@),
            r is None ==> self.var_of(var_name@) is None,
    ;

    /// Sets the variables `contributor` contributes, over those set before.
    fn from_sub_context<T: SubContext>(&mut self, contributor: &T)
        ensures
            forall|name: Seq<char>| #[trigger] final(self).var_of(name) == (match lookup_pairs(
                contributor.contributed(),
                name,
            ) {
                Some(v) => Some(v),
                None => old(self).var_of(name),
            }),
    ;

    /// Sets the variables of `other` over those set before.
    fn extend(&mut self, other: &Self)
        ensures
            forall|name: Seq<char>| #[trigger] final(self).var_of(name) == (match other.var_of(name) {
                Some(v) => Some(v),
                None => old(self).var_of(name),
            }),
    ;
}

/// Variables by name; a later value for a name overrides an earlier one.
pub struct Context {
    pub data: Vec<(String, String)>,
}

impl Context {
    /// The value of the variable `name`, if it is set.
    pub open spec fn lookup(&self, name: Seq<char>) -> Option<Seq<char>> {
        lookup_in(self.data@, name)
    }

    /// A context without variables.
    pub fn new() -> (r: Self)
        ensures
            forall|name: Seq<char>| #[trigger] r.lookup(name) is None,
    {
        Context { data: Vec::new() }
    }

    /// Sets the variable `var_name` to `value`.
    pub fn set_var(&mut self, var_name: &str, value: &str)
        ensures
            final(self).lookup(var_name@) == Some(value@),
            forall|other: Seq<char>| other != var_name@ ==> #[trigger] final(self).lookup(other) == old(self).lookup(other),
    {
        let ghost before = self.data@;
        self.data.push((String::from_str(var_name), String::from_str(value)));
        assert(self.data@.drop_last() =~= before);
    }

    /// The value of the variable `var_name`, if it is set.
    pub fn value_of(&self, var_name: &str) -> (r: Option<&String>)
        ensures
            r matches Some(v) ==> self.lookup(var_name@) == Some(v@),
            r is None ==> self.lookup(var_name@) is None,
    {
        match find_last(&self.data, var_name) {
            Some(i) => Some(&self.data[i].1),
            None => None,
        }
    }

    /// Sets each of `vars` in order.
    pub fn add_vars(&mut self, vars: Vec<(String, String)>)
        ensures
            final(self).data@ == old(self).data@ + vars@,
            forall|name: Seq<char>| #[trigger] final(self).lookup(name) == (match lookup_in(vars@, name) {
                Some(v) => Some(v),
                None => old(self).lookup(name),
            }),
    {
        let ghost before = self.data@;
        let ghost added = vars@;
        let mut vars = vars;
        self.data.append(&mut vars);
        assert(self.data@ == before + added);
        assert forall|name: Seq<char>| #[trigger] self.lookup(name) == (match lookup_in(added, name) {
            Some(v) => Some(v),
            None => lookup_in(before, name),
        }) by {
            lemma_lookup_concat(before, added, name);
        }
    }

    /// Sets the variables of `other` over those of this context.
    pub fn extend_with(&mut self, other: &Context)
        ensures
            forall|name: Seq<char>| #[trigger] final(self).lookup(name) == (match other.lookup(name) {
                Some(v) => Some(v),
                None => old(self).lookup(name),
            }),
    {
        let mut copy: Vec<(String, String)> = Vec::new();
        let mut i: usize = 0;
        while i < other.data.len()
            invariant
                i <= other.data@.len(),
                copy@ == other.data@.take(i as int),
            decreases other.data@.len() - i,
        {
            let e = &other.data[i];
            copy.push((e.0.clone(), e.1.clone()));
            assert(other.data@.take(i + 1) =~= other.data@.take(i as int).push(other.data@[i as int]));
            i = i + 1;
        }
        assert(other.data@.take(other.data@.len() as int) =~= other.data@);
        self.add_vars(copy);
    }
}

impl ThemeContext for Context {
    open spec fn var_of(&self, name: Seq<char>) -> Option<Seq<char>> {
        self.lookup(name)
    }

    fn get_var(&self, var_name: &str) -> (r: Option<&String>) {
        self.value_of(var_name)
    }

    fn from_sub_context<T: SubContext>(&mut self, contributor: &T) {
        let vars = contributor.retrieve_var();
        let ghost v = vars@;
        self.add_vars(vars);
        assert forall|name: Seq<char>| lookup_in(v, name) == lookup_pairs(contributor.contributed(), name) by {
            lemma_lookup_texts(v, name);
        }
    }

    fn extend(&mut self, other: &Self) {
        self.extend_with(other);
    }
}

/// The status of the last command, as the prompt shows it.
pub struct PromptInfo {
    /// The last command was killed by a signal.
    pub terminated: bool,
    /// The positive exit status of the last command, if it had one.
    pub exit_code: Option<i32>,
}

impl PromptInfo {
    pub fn new(terminated: bool, exit_code: Option<i32>) -> (r: Self)
        ensures
            r.terminated == terminated,
            r.exit_code == exit_code,
    {
        PromptInfo { terminated, exit_code }
    }

    /// Forgets the last status: not terminated, no exit status.
    pub fn default(&mut self)
        ensures
            !final(self).terminated,
            final(self).exit_code is None,
    {
        self.terminated = false;
        self.exit_code = None;
    }

    /// Takes the status of a finished line. An exit request leaves the
    /// information as it is.
    pub fn record(&mut self, status: &Result<(), CommandError>)
        ensures
            *status matches Err(CommandError::NonZero(c)) ==> !final(self).terminated && final(self).exit_code
                == Some(c),
            *status matches Err(CommandError::Signaled) ==> final(self).terminated && final(self).exit_code is None,
            *status matches Err(CommandError::RequestExit(_)) ==> *final(self) == *old(self),
            (*status is Ok || *status matches Err(CommandError::SyntaxError(_)) || *status matches Err(
                CommandError::SpawnFailed(_),
            )) ==> !final(self).terminated && final(self).exit_code is None,
    {
        match status {
            Err(CommandError::NonZero(c)) => {
                self.terminated = false;
                self.exit_code = Some(*c);
            },
            Err(CommandError::Signaled) => {
                self.terminated = true;
                self.exit_code = None;
            },
            Err(CommandError::RequestExit(_)) => {},
            _ => self.default(),
        }
    }
}

impl SubContext for PromptInfo {
    open spec fn contributed(&self) -> Seq<(Seq<char>, Seq<char>)> {
        seq![
            ("terminated"@, if self.terminated { "true"@ } else { "false"@ }),
            ("exit_code"@, match self.exit_code {
                Some(c) => int_text(c as int),
                None => Seq::<char>::empty(),
            }),
        ]
    }

    fn retrieve_var(&self) -> (r: Vec<(String, String)>) {
        let mut vars: Vec<(String, String)> = Vec::new();
        let t = if self.terminated { String::from_str("true") } else { String::from_str("false") };
        vars.push((String::from_str("terminated"), t));
        let code = match self.exit_code {
            Some(c) => int_to_text(c as i64),
            None => String::new(),
        };
        vars.push((String::from_str("exit_code"), code));
        assert(pair_texts(vars@) =~= self.contributed());
        vars
    }
}

/// The working directory, as the prompt shows it.
pub struct DirectoryContext {
    pub current_dir: String,
}

impl DirectoryContext {
    pub fn new(current_dir: String) -> (r: Self)
        ensures
            r.current_dir == current_dir,
    {
        DirectoryContext { current_dir }
    }
}

impl SubContext for DirectoryContext {
    open spec fn contributed(&self) -> Seq<(Seq<char>, Seq<char>)> {
        seq![("current_dir"@, self.current_dir@)]
    }

    fn retrieve_var(&self) -> (r: Vec<(String, String)>) {
        let mut vars: Vec<(String, String)> = Vec::new();
        vars.push((String::from_str("current_dir"), self.current_dir.clone()));
        assert(pair_texts(vars@) =~= self.contributed());
        vars
    }
}

/// Who and where the session runs.
pub struct SessionContext {
    pub desktop_env: String,
    pub real_name: String,
    pub username: String,
    pub device_name: String,
    pub hostname: String,
    pub platform: String,
    pub distribution: String,
}

impl SessionContext {
    pub fn new(
        desktop_env: String,
        real_name: String,
        username: String,
        device_name: String,
        hostname: String,
        platform: String,
        distribution: String,
    ) -> (r: Self)
        ensures
            r == (SessionContext { desktop_env, real_name, username, device_name, hostname, platform, distribution }),
    {
        SessionContext { desktop_env, real_name, username, device_name, hostname, platform, distribution }
    }
}

impl SubContext for SessionContext {
    open spec fn contributed(&self) -> Seq<(Seq<char>, Seq<char>)> {
        seq![
            ("desktop_env"@, self.desktop_env@),
            ("real_name"@, self.real_name@),
            ("username"@, self.username@),
            ("device_name"@, self.device_name@),
            ("hostname"@, self.hostname@),
            ("platform"@, self.platform@),
            ("distribution"@, self.distribution@),
        ]
    }

    fn retrieve_var(&self) -> (r: Vec<(String, String)>) {
        let mut vars: Vec<(String, String)> = Vec::new();
        vars.push((String::from_str("desktop_env"), self.desktop_env.clone()));
        vars.push((String::from_str("real_name"), self.real_name.clone()));
        vars.push((String::from_str("username"), self.username.clone()));
        vars.push((String::from_str("device_name"), self.device_name.clone()));
        vars.push((String::from_str("hostname"), self.hostname.clone()));
        vars.push((String::from_str("platform"), self.platform.clone()));
        vars.push((String::from_str("distribution"), self.distribution.clone()));
        assert(pair_texts(vars@) =~= self.contributed());
        vars
    }
}

/// The branch checked out and how many files differ from the index.
pub struct BranchInfo {
    name: String,
    files_changed: usize,
}

impl BranchInfo {
    pub closed spec fn spec_name(&self) -> Seq<char> {
        self.name@
    }

    pub closed spec fn spec_files_changed(&self) -> usize {
        self.files_changed
    }

    pub fn new(name: String, files_changed: usize) -> (r: Self)
        ensures
            r.spec_name() == name@,
            r.spec_files_changed() == files_changed,
    {
        BranchInfo { name, files_changed }
    }

    /// The branch's name.
    pub fn get_name(&self) -> (r: &str)
        ensures
            r@ == self.spec_name(),
    {
        self.name.as_str()
    }

    /// The number of files changed.
    pub fn get_files_changed(&self) -> (r: usize)
        ensures
            r == self.spec_files_changed(),
    {
        self.files_changed
    }
}

/// A date and time as the prompt shows it; each variable's name starts with
/// `prefix` (`utc` or `loc`).
pub struct DateTimeContext {
    pub prefix: String,
    pub second: u32,
    pub minute: u32,
    /// The hour on a 12-hour clock, 1 to 12.
    pub hour12: u32,
    /// The time is after noon.
    pub pm: bool,
    pub hour: u32,
    pub day: u32,
    pub month: u32,
    pub year: i32,
    /// The day of the year, from 1.
    pub ordinal: u32,
    /// The weekday's short English name.
    pub weekday: String,
}

/// `prefix` followed by `_` and `suffix`.
pub open spec fn var_name(prefix: Seq<char>, suffix: Seq<char>) -> Seq<char> {
    prefix + seq!['_'] + suffix
}

fn make_name(prefix: &str, suffix: &str) -> (r: String)
    ensures
        r@ == var_name(prefix@, suffix@),
{
    let mut s = String::from_str(prefix);
    crate::text::push_char(&mut s, '_');
    s.append(suffix);
    s
}

impl SubContext for DateTimeContext {
    open spec fn contributed(&self) -> Seq<(Seq<char>, Seq<char>)> {
        let p = self.prefix@;
        seq![
            (var_name(p, "ss"@), int_text(self.second as int)),
            (var_name(p, "mm"@), int_text(self.minute as int)),
            (var_name(p, "hh12"@), int_text(self.hour12 as int)),
            (var_name(p, "AMPM"@), if self.pm { "PM"@ } else { "AM"@ }),
            (var_name(p, "hh24"@), int_text(self.hour as int)),
            (var_name(p, "DD"@), int_text(self.day as int)),
            (var_name(p, "MM"@), int_text(self.month as int)),
            (var_name(p, "YYYY"@), int_text(self.year as int)),
            (var_name(p, "ord"@), int_text(self.ordinal as int)),
            (var_name(p, "wday"@), self.weekday@),
        ]
    }

    fn retrieve_var(&self) -> (r: Vec<(String, String)>) {
        let p = self.prefix.as_str();
        let mut vars: Vec<(String, String)> = Vec::new();
        vars.push((make_name(p, "ss"), int_to_text(self.second as i64)));
        vars.push((make_name(p, "mm"), int_to_text(self.minute as i64)));
        vars.push((make_name(p, "hh12"), int_to_text(self.hour12 as i64)));
        let half = if self.pm { String::from_str("PM") } else { String::from_str("AM") };
        vars.push((make_name(p, "AMPM"), half));
        vars.push((make_name(p, "hh24"), int_to_text(self.hour as i64)));
        vars.push((make_name(p, "DD"), int_to_text(self.day as i64)));
        vars.push((make_name(p, "MM"), int_to_text(self.month as i64)));
        vars.push((make_name(p, "YYYY"), int_to_text(self.year as i64)));
        vars.push((make_name(p, "ord"), int_to_text(self.ordinal as i64)));
        vars.push((make_name(p, "wday"), self.weekday.clone()));
        assert(pair_texts(vars@) =~= self.contributed());
        vars
    }
}

} // verus!
