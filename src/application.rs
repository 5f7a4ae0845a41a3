//! Applications that open a repository's directory, and the command line that
//! each one runs.

use vstd::prelude::*;
use vstd::string::*;

use crate::text::str_eq;

verus! {

/// The argument that stands for the path to open.
pub open spec fn path_placeholder() -> Seq<char> {
    "%p"@
}

/// A program and its arguments; `%p` among them stands for the path to open.
#[derive(Debug)]
pub struct Application {
    cmd: String,
    args: Vec<String>,
}

/// The model of an [`Application`], and of a [`Command`].
pub struct CommandView {
    pub program: Seq<char>,
    pub args: Seq<Seq<char>>,
}

pub open spec fn strings_view(v: Seq<String>) -> Seq<Seq<char>> {
    v.map_values(|s: String| s@)
}

impl View for Application {
    type V = CommandView;

    closed spec fn view(&self) -> CommandView {
        CommandView { program: self.cmd@, args: strings_view(self.args@) }
    }
}

/// A command line to run: the program and its arguments.
#[derive(Debug)]
pub struct Command {
    pub program: String,
    pub args: Vec<String>,
}

impl View for Command {
    type V = CommandView;

    open spec fn view(&self) -> CommandView {
        CommandView { program: self.program@, args: strings_view(self.args@) }
    }
}

/// `arg`, or `path` where `arg` is the placeholder.
pub open spec fn substitute(arg: Seq<char>, path: Seq<char>) -> Seq<char> {
    if arg == path_placeholder() {
        path
    } else {
        arg
    }
}

/// The command line that `app` runs to open `path`.
pub open spec fn command_for(app: CommandView, path: Seq<char>) -> CommandView {
    CommandView { program: app.program, args: app.args.map_values(|a: Seq<char>| substitute(a, path)) }
}

impl Application {
    /// An application of program `cmd` and arguments `args`.
    pub fn new(cmd: String, args: Vec<String>) -> (r: Application)
        ensures
            r@ == (CommandView { program: cmd@, args: strings_view(args@) }),
    {
        Application { cmd, args }
    }

    /// The program `cmd` run with the path alone.
    pub fn intermediate(cmd: &str) -> (r: Application)
        ensures
            r@ == (CommandView { program: cmd@, args: seq![path_placeholder()] }),
    {
        let args = vec!["%p".to_owned()];
        assert(strings_view(args@) =~= seq![path_placeholder()]);
        Application { cmd: cmd.to_owned(), args }
    }

    /// The application that opens a path by the system's means: `explorer.exe`
    /// on Windows, `open` elsewhere.
    pub fn platform_default(windows: bool) -> (r: Application)
        ensures
            r@ == (CommandView {
                program: if windows { "explorer.exe"@ } else { "open"@ },
                args: seq![path_placeholder()],
            }),
    {
        if windows {
            Application::intermediate("explorer.exe")
        } else {
            Application::intermediate("open")
        }
    }

    /// The command line that opens `path`: each `%p` argument replaced by it.
    pub fn open(&self, path: &str) -> (r: Command)
        ensures
            r@ == command_for(self@, path@),
    {
        let n = self.args.len();
        let mut args: Vec<String> = Vec::new();
        let mut i: usize = 0;
        while i < n
            invariant
                n == self.args@.len(),
                i <= n,
                args@.len() == i,
                forall|k: int| 0 <= k < i ==> (#[trigger] args@[k])@ == substitute(self.args@[k]@, path@),
            decreases n - i,
        {
            let arg = if str_eq(self.args[i].as_str(), "%p") {
                path.to_owned()
            } else {
                self.args[i].clone()
            };
            args.push(arg);
            i = i + 1;
        }
        let r = Command { program: self.cmd.clone(), args };
        assert(r@.args =~= command_for(self@, path@).args);
        r
    }
}

impl Default for Application {
    /// The application that opens a path outside Windows: `open`.
    fn default() -> (r: Application)
        ensures
            r@ == (CommandView { program: "open"@, args: seq![path_placeholder()] }),
    {
        Application::platform_default(false)
    }
}

/// The entry named `name` among `entries`, the first if several share it.
pub open spec fn lookup<V>(entries: Seq<(Seq<char>, V)>, name: Seq<char>) -> Option<V>
    decreases entries.len(),
{
    if entries.len() == 0 {
        None
    } else if entries[0].0 == name {
        Some(entries[0].1)
    } else {
        lookup(entries.drop_first(), name)
    }
}

/// Applications by name.
#[derive(Debug, Default)]
pub struct Applications {
    entries: Vec<(String, Application)>,
}

impl View for Applications {
    type V = Seq<(Seq<char>, CommandView)>;

    closed spec fn view(&self) -> Seq<(Seq<char>, CommandView)> {
        self.entries@.map_values(|e: (String, Application)| (e.0@, e.1@))
    }
}

impl Applications {
    /// No application.
    pub fn new() -> (r: Applications)
        ensures
            r@ == Seq::<(Seq<char>, CommandView)>::empty(),
    {
        let r = Applications { entries: Vec::new() };
        assert(r@ =~= Seq::<(Seq<char>, CommandView)>::empty());
        r
    }

    /// Names `app` as `name`, in place of any application of that name.
    pub fn insert(&mut self, name: String, app: Application)
        ensures
            lookup(final(self)@, name@) == Some(app@),
            forall|other: Seq<char>| other != name@ ==> #[trigger] lookup(final(self)@, other) == lookup(old(self)@, other),
    {
        let n = self.entries.len();
        let mut i: usize = 0;
        while i < n
            invariant
                n == self.entries@.len(),
                n == self@.len(),
                self@ == old(self)@,
                i <= n,
                forall|j: int| 0 <= j < i ==> self@[j].0 != name@,
            decreases n - i,
        {
            if str_eq(self.entries[i].0.as_str(), name.as_str()) {
                let ghost before = self@;
                let ghost entry = (name@, app@);
                self.entries.set(i, (name, app));
                proof {
                    assert(self@ =~= before.update(i as int, entry));
                    lemma_lookup_set(before, i as int, entry, name@);
                    assert forall|other: Seq<char>| other != name@ implies #[trigger] lookup(self@, other) == lookup(before, other) by {
                        lemma_lookup_set(before, i as int, entry, other);
                    }
                }
                return;
            }
            i = i + 1;
        }
        let ghost before = self@;
        let ghost entry = (name@, app@);
        self.entries.push((name, app));
        proof {
            assert(self@ =~= before.push(entry));
            lemma_lookup_push(before, entry, name@);
            assert forall|other: Seq<char>| other != name@ implies #[trigger] lookup(self@, other) == lookup(before, other) by {
                lemma_lookup_push(before, entry, other);
            }
        }
    }

    /// The application named `name`.
    pub fn get(&self, name: &str) -> (r: Option<&Application>)
        ensures
            match r {
                Some(a) => lookup(self@, name@) == Some(a@),
                None => lookup(self@, name@) is None,
            },
    {
        let n = self.entries.len();
        let mut i: usize = 0;
        assert(self@.skip(0) =~= self@);
        while i < n
            invariant
                n == self.entries@.len(),
                n == self@.len(),
                i <= n,
                lookup(self@, name@) == lookup(self@.skip(i as int), name@),
            decreases n - i,
        {
            assert(self@.skip(i as int).drop_first() =~= self@.skip(i + 1));
            assert(self@.skip(i as int)[0] == (self.entries@[i as int].0@, self.entries@[i as int].1@));
            if str_eq(self.entries[i].0.as_str(), name) {
                return Some(&self.entries[i].1);
            }
            i = i + 1;
        }
        None
    }

    /// The command line that the application named `name` runs to open `path`.
    pub fn open(&self, name: &str, path: &str) -> (r: Option<Command>)
        ensures
            match lookup(self@, name@) {
                Some(a) => r matches Some(c) && c@ == command_for(a, path@),
                None => r is None,
            },
    {
        match self.get(name) {
            Some(a) => Some(a.open(path)),
            None => None,
        }
    }

    /// As [`Applications::open`], but a name that no entry has is run as a program
    /// with the path alone.
    pub fn open_or_intermediate(&self, name: &str, path: &str) -> (r: Command)
        ensures
            r@ == command_for(
                match lookup(self@, name@) {
                    Some(a) => a,
                    None => CommandView { program: name@, args: seq![path_placeholder()] },
                },
                path@,
            ),
    {
        match self.open(name, path) {
            Some(c) => c,
            None => Application::intermediate(name).open(path),
        }
    }

    /// As [`Applications::open_or_intermediate`] for a name, and the system's
    /// application without one.
    pub fn open_or_intermediate_or_default(&self, name: Option<&str>, path: &str, windows: bool) -> (r: Command)
        ensures
            r@ == command_for(
                match name {
                    Some(n) => match lookup(self@, n@) {
                        Some(a) => a,
                        None => CommandView { program: n@, args: seq![path_placeholder()] },
                    },
                    None => CommandView {
                        program: if windows { "explorer.exe"@ } else { "open"@ },
                        args: seq![path_placeholder()],
                    },
                },
                path@,
            ),
    {
        match name {
            Some(n) => self.open_or_intermediate(n, path),
            None => Application::platform_default(windows).open(path),
        }
    }
}

proof fn lemma_lookup_set<V>(before: Seq<(Seq<char>, V)>, i: int, e: (Seq<char>, V), other: Seq<char>)
    requires
        0 <= i < before.len(),
        e.0 == before[i].0,
        forall|j: int| 0 <= j < i ==> before[j].0 != e.0,
    ensures
        lookup(before.update(i, e), e.0) == Some(e.1),
        other != e.0 ==> lookup(before.update(i, e), other) == lookup(before, other),
    decreases i,
{
    let after = before.update(i, e);
    if i == 0 {
        assert(after.drop_first() =~= before.drop_first());
    } else {
        assert(after.drop_first() =~= before.drop_first().update(i - 1, e));
        assert(before[0].0 != e.0);
        lemma_lookup_set(before.drop_first(), i - 1, e, other);
    }
}

proof fn lemma_lookup_push<V>(before: Seq<(Seq<char>, V)>, e: (Seq<char>, V), other: Seq<char>)
    requires
        forall|j: int| 0 <= j < before.len() ==> before[j].0 != e.0,
    ensures
        lookup(before.push(e), e.0) == Some(e.1),
        other != e.0 ==> lookup(before.push(e), other) == lookup(before, other),
    decreases before.len(),
{
    let after = before.push(e);
    if before.len() == 0 {
        assert(after.drop_first() =~= Seq::<(Seq<char>, V)>::empty());
        assert(after[0] == e);
        if other != e.0 {
            assert(lookup(after, other) == lookup(after.drop_first(), other));
        }
    } else {
        assert(after.drop_first() =~= before.drop_first().push(e));
        assert(after[0] == before[0]);
        assert(before[0].0 != e.0);
        lemma_lookup_push(before.drop_first(), e, other);
        assert(lookup(after, e.0) == lookup(after.drop_first(), e.0));
        if other != e.0 && before[0].0 != other {
            assert(lookup(after, other) == lookup(after.drop_first(), other));
            assert(lookup(before, other) == lookup(before.drop_first(), other));
        }
    }
}

} // verus!
