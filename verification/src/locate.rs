//! The search for a program: first in a fixed list of places, then with the
//! system's utility that searches the `PATH`. The search asks its caller to
//! look at the file system and to run the utility, one step at a time.

use vstd::prelude::*;
use vstd::string::{StrSliceExecFns, StringExecFns};

verus! {

/// A place where the program is looked for. The places are tried in the order
/// in which they stand here.
#[derive(Clone, Copy, Debug, PartialEq, Eq, Structural)]
pub enum Place {
    /// The directory of the running executable.
    ExeDir,
    /// The directory `lib` in the directory of the running executable.
    ExeDirLib,
    /// The working directory.
    WorkDir,
    /// The directory `lib` in the working directory.
    WorkDirLib,
    /// `/usr/local/bin`.
    UsrLocalBin,
    /// `/usr/bin`.
    UsrBin,
}

impl Place {
    /// The first place to try.
    pub open spec fn first() -> Place {
        Place::ExeDir
    }

    /// The place to try after this one, if there is one.
    pub open spec fn next(self) -> Option<Place> {
        match self {
            Place::ExeDir => Some(Place::ExeDirLib),
            Place::ExeDirLib => Some(Place::WorkDir),
            Place::WorkDir => Some(Place::WorkDirLib),
            Place::WorkDirLib => Some(Place::UsrLocalBin),
            Place::UsrLocalBin => Some(Place::UsrBin),
            Place::UsrBin => None,
        }
    }

    /// How many places are tried before this one.
    pub open spec fn rank(self) -> nat {
        match self {
            Place::ExeDir => 0,
            Place::ExeDirLib => 1,
            Place::WorkDir => 2,
            Place::WorkDirLib => 3,
            Place::UsrLocalBin => 4,
            Place::UsrBin => 5,
        }
    }

    /// The place to try after this one, if there is one.
    pub fn following(self) -> (next: Option<Place>)
        ensures
            next == self.next(),
    {
        match self {
            Place::ExeDir => Some(Place::ExeDirLib),
            Place::ExeDirLib => Some(Place::WorkDir),
            Place::WorkDir => Some(Place::WorkDirLib),
            Place::WorkDirLib => Some(Place::UsrLocalBin),
            Place::UsrLocalBin => Some(Place::UsrBin),
            Place::UsrBin => None,
        }
    }

    /// The subdirectory of its base directory that the place is, if it is one.
    pub open spec fn subdirectory(self) -> Option<Seq<char>> {
        match self {
            Place::ExeDirLib | Place::WorkDirLib => Some("lib"@),
            _ => None,
        }
    }
}

/// Whether `c` is white space: a character with the Unicode property
/// `White_Space`.
pub open spec fn is_white_space(c: char) -> bool {
    ||| '\u{9}' <= c <= '\u{d}'
    ||| c == ' '
    ||| c == '\u{85}'
    ||| c == '\u{a0}'
    ||| c == '\u{1680}'
    ||| '\u{2000}' <= c <= '\u{200a}'
    ||| c == '\u{2028}'
    ||| c == '\u{2029}'
    ||| c == '\u{202f}'
    ||| c == '\u{205f}'
    ||| c == '\u{3000}'
}

/// Whether `c` is white space.
pub fn white_space(c: char) -> (white: bool)
    ensures
        white == is_white_space(c),
{
    ('\u{9}' <= c && c <= '\u{d}') || c == ' ' || c == '\u{85}' || c == '\u{a0}' || c
        == '\u{1680}' || ('\u{2000}' <= c && c <= '\u{200a}') || c == '\u{2028}' || c
        == '\u{2029}' || c == '\u{202f}' || c == '\u{205f}' || c == '\u{3000}'
}

/// How long `text` is without the white space at its end.
pub open spec fn trimmed_len(text: Seq<char>) -> int
    decreases text.len(),
{
    if text.len() > 0 && is_white_space(text.last()) {
        trimmed_len(text.drop_last())
    } else {
        text.len() as int
    }
}

/// `text` without the white space at its end.
pub open spec fn trimmed(text: Seq<char>) -> Seq<char> {
    text.take(trimmed_len(text))
}

/// Takes the white space off the end of a text.
pub fn trim_end(text: &str) -> (short: &str)
    ensures
        short@ == trimmed(text@),
{
    let mut end: usize = text.unicode_len();
    assert(text@.take(end as int) =~= text@);
    while end > 0 && white_space(text.get_char(end - 1))
        invariant
            end <= text@.len(),
            trimmed_len(text@) == trimmed_len(text@.take(end as int)),
        decreases end,
    {
        assert(text@.take(end as int).drop_last() =~= text@.take(end as int - 1));
        end -= 1;
    }
    proof {
        if end > 0 {
            assert(text@.take(end as int).last() == text@[end as int - 1]);
        }
        assert(text@.subrange(0, end as int) =~= text@.take(end as int));
    }
    text.substring_char(0, end)
}

/// How far a search has come.
#[derive(Clone, Debug, PartialEq, Eq)]
pub enum State {
    /// It is to be learnt whether the program lies at this place.
    Check(Place),
    /// The utility that searches the `PATH` is to be run.
    Search,
    /// It is to be learnt whether the path that the utility printed exists.
    Confirm(String),
    /// The program lies at this path.
    Found(String),
    /// The program was found nowhere.
    NotFound,
}

/// How far a search has come, with each path as its text.
pub enum Phase {
    Check(Place),
    Search,
    Confirm(Seq<char>),
    Found(Seq<char>),
    NotFound,
}

impl View for State {
    type V = Phase;

    open spec fn view(&self) -> Phase {
        match self {
            State::Check(place) => Phase::Check(*place),
            State::Search => Phase::Search,
            State::Confirm(path) => Phase::Confirm(path@),
            State::Found(path) => Phase::Found(path@),
            State::NotFound => Phase::NotFound,
        }
    }
}

/// What the caller learnt for the search.
#[derive(Clone, Debug, PartialEq, Eq)]
pub enum Event {
    /// The file asked about exists, at this path.
    Present(String),
    /// The file asked about does not exist.
    Absent,
    /// The utility ran and printed this, or could not be run.
    Searched(Option<String>),
}

/// What the caller learnt for the search, with each text as plain data.
pub enum Signal {
    Present(Seq<char>),
    Absent,
    Searched(Option<Seq<char>>),
}

impl View for Event {
    type V = Signal;

    open spec fn view(&self) -> Signal {
        match self {
            Event::Present(path) => Signal::Present(path@),
            Event::Absent => Signal::Absent,
            Event::Searched(Some(output)) => Signal::Searched(Some(output@)),
            Event::Searched(None) => Signal::Searched(None),
        }
    }
}

/// What the search asks its caller to do next.
#[derive(Clone, Debug, PartialEq, Eq)]
pub enum Action {
    /// To say whether the file `file` exists in the directory `dir` or, where
    /// `subdir` is given, in that subdirectory of it.
    Check { dir: String, subdir: Option<String>, file: String },
    /// To run `program` with the argument `name` and say what it printed.
    Search { program: String, name: String },
    /// To say whether a file exists at `path`.
    Confirm { path: String },
    /// Nothing more: the search is over, with the path of the program or
    /// without one.
    Done(Option<String>),
}

/// What the search asks its caller to do next, with each text as plain data.
pub enum Request {
    Check { dir: Seq<char>, subdir: Option<Seq<char>>, file: Seq<char> },
    Search { program: Seq<char>, name: Seq<char> },
    Confirm { path: Seq<char> },
    Done(Option<Seq<char>>),
}

impl View for Action {
    type V = Request;

    open spec fn view(&self) -> Request {
        match self {
            Action::Check { dir, subdir, file } => Request::Check {
                dir: dir@,
                subdir: match subdir {
                    Some(subdir) => Some(subdir@),
                    None => None,
                },
                file: file@,
            },
            Action::Search { program, name } => Request::Search { program: program@, name: name@ },
            Action::Confirm { path } => Request::Confirm { path: path@ },
            Action::Done(Some(path)) => Request::Done(Some(path@)),
            Action::Done(None) => Request::Done(None),
        }
    }
}

/// The phase that follows `phase` when the caller reports `signal`.
///
/// A place where the file is present ends the search; one where it is absent
/// leads to the next place and, after the last place, to the search of the
/// `PATH`. What the utility printed is taken without the white space at its
/// end, and counts only if a file exists there. A report that answers no
/// question of the phase changes nothing.
pub open spec fn step(phase: Phase, signal: Signal) -> Phase {
    match (phase, signal) {
        (Phase::Check(_), Signal::Present(path)) => Phase::Found(path),
        (Phase::Check(place), Signal::Absent) => match place.next() {
            Some(next) => Phase::Check(next),
            None => Phase::Search,
        },
        (Phase::Search, Signal::Searched(Some(output))) => Phase::Confirm(trimmed(output)),
        (Phase::Search, Signal::Searched(None)) => Phase::NotFound,
        (Phase::Confirm(path), Signal::Present(_)) => Phase::Found(path),
        (Phase::Confirm(_), Signal::Absent) => Phase::NotFound,
        _ => phase,
    }
}

/// The name of the file that holds the program `name`.
pub open spec fn file_name(name: Seq<char>, windows: bool) -> Seq<char> {
    if windows {
        name + ".exe"@
    } else {
        name
    }
}

/// The utility that searches the `PATH`.
pub open spec fn search_program(windows: bool) -> Seq<char> {
    if windows {
        "where.exe"@
    } else {
        "which"@
    }
}

/// The directory that a place lies in.
pub open spec fn base_dir(place: Place, exe_dir: Seq<char>, work_dir: Seq<char>) -> Seq<char> {
    match place {
        Place::ExeDir | Place::ExeDirLib => exe_dir,
        Place::WorkDir | Place::WorkDirLib => work_dir,
        Place::UsrLocalBin => "/usr/local/bin"@,
        Place::UsrBin => "/usr/bin"@,
    }
}

/// What a search in phase `phase` asks its caller to do.
pub open spec fn request(
    phase: Phase,
    name: Seq<char>,
    exe_dir: Seq<char>,
    work_dir: Seq<char>,
    windows: bool,
) -> Request {
    match phase {
        Phase::Check(place) => Request::Check {
            dir: base_dir(place, exe_dir, work_dir),
            subdir: place.subdirectory(),
            file: file_name(name, windows),
        },
        Phase::Search => Request::Search { program: search_program(windows), name },
        Phase::Confirm(path) => Request::Confirm { path },
        Phase::Found(path) => Request::Done(Some(path)),
        Phase::NotFound => Request::Done(None),
    }
}

/// A search for a program.
#[derive(Clone, Debug, PartialEq, Eq)]
pub struct Locator {
    /// The program looked for.
    pub name: String,
    /// The directory of the running executable.
    pub exe_dir: String,
    /// The working directory.
    pub work_dir: String,
    /// Whether file names are those of Windows.
    pub windows: bool,
    /// How far the search has come.
    pub state: State,
}

impl Locator {
    /// A search for the program `name` that has not yet looked anywhere.
    pub fn new(name: &str, exe_dir: &str, work_dir: &str, windows: bool) -> (locator: Locator)
        ensures
            locator.name@ == name@,
            locator.exe_dir@ == exe_dir@,
            locator.work_dir@ == work_dir@,
            locator.windows == windows,
            locator.state@ == Phase::Check(Place::first()),
    {
        Locator {
            name: name.to_owned(),
            exe_dir: exe_dir.to_owned(),
            work_dir: work_dir.to_owned(),
            windows,
            state: State::Check(Place::ExeDir),
        }
    }

    /// What the caller is to do next.
    pub fn action(&self) -> (action: Action)
        ensures
            action@ == request(self.state@, self.name@, self.exe_dir@, self.work_dir@, self.windows),
    {
        match &self.state {
            State::Check(place) => {
                let dir: String = match place {
                    Place::ExeDir | Place::ExeDirLib => self.exe_dir.clone(),
                    Place::WorkDir | Place::WorkDirLib => self.work_dir.clone(),
                    Place::UsrLocalBin => "/usr/local/bin".to_owned(),
                    Place::UsrBin => "/usr/bin".to_owned(),
                };
                let subdir: Option<String> = match place {
                    Place::ExeDirLib | Place::WorkDirLib => Some("lib".to_owned()),
                    _ => None,
                };
                let mut file: String = self.name.clone();
                if self.windows {
                    file.append(".exe");
                }
                Action::Check { dir, subdir, file }
            },
            State::Search => {
                let program: String = if self.windows {
                    "where.exe".to_owned()
                } else {
                    "which".to_owned()
                };
                Action::Search { program, name: self.name.clone() }
            },
            State::Confirm(path) => Action::Confirm { path: path.clone() },
            State::Found(path) => Action::Done(Some(path.clone())),
            State::NotFound => Action::Done(None),
        }
    }

    /// Takes in what the caller learnt.
    pub fn report(&mut self, event: Event)
        ensures
            final(self).state@ == step(old(self).state@, event@),
            final(self).name == old(self).name,
            final(self).exe_dir == old(self).exe_dir,
            final(self).work_dir == old(self).work_dir,
            final(self).windows == old(self).windows,
    {
        let next: Option<State> = match (&self.state, event) {
            (State::Check(_), Event::Present(path)) => Some(State::Found(path)),
            (State::Check(place), Event::Absent) => match place.following() {
                Some(next) => Some(State::Check(next)),
                None => Some(State::Search),
            },
            (State::Search, Event::Searched(Some(output))) => Some(
                State::Confirm(trim_end(output.as_str()).to_owned()),
            ),
            (State::Search, Event::Searched(None)) => Some(State::NotFound),
            (State::Confirm(path), Event::Present(_)) => Some(State::Found(path.clone())),
            (State::Confirm(_), Event::Absent) => Some(State::NotFound),
            _ => None,
        };
        if let Some(state) = next {
            self.state = state;
        }
    }

    /// The path of the program, once the search has found it.
    pub fn located(&self) -> (path: Option<String>)
        ensures
            match path {
                Some(path) => self.state@ == Phase::Found(path@),
                None => !(self.state@ is Found),
            },
    {
        match &self.state {
            State::Found(path) => Some(path.clone()),
            _ => None,
        }
    }

    /// Whether the search is over.
    pub fn is_over(&self) -> (over: bool)
        ensures
            over == (self.state@ is Found || self.state@ is NotFound),
    {
        match &self.state {
            State::Found(_) => true,
            State::NotFound => true,
            _ => false,
        }
    }
}

/// The phase that a search reaches from `phase` when the caller reports
/// `signals`, one after the other.
pub open spec fn run(phase: Phase, signals: Seq<Signal>) -> Phase
    decreases signals.len(),
{
    if signals.len() == 0 {
        phase
    } else {
        step(run(phase, signals.drop_last()), signals.last())
    }
}

/// The report that a file is absent, `count` times.
pub open spec fn absences(count: nat) -> Seq<Signal> {
    Seq::new(count, |i: int| Signal::Absent)
}

/// The place that is tried after `rank` others.
pub open spec fn place_at(rank: nat) -> Place {
    if rank == 0 {
        Place::ExeDir
    } else if rank == 1 {
        Place::ExeDirLib
    } else if rank == 2 {
        Place::WorkDir
    } else if rank == 3 {
        Place::WorkDirLib
    } else if rank == 4 {
        Place::UsrLocalBin
    } else {
        Place::UsrBin
    }
}

/// While the program is absent from the places tried so far, the search asks
/// for the next place, in the order of the places.
pub proof fn lemma_places_in_order(tried: nat)
    requires
        tried <= 5,
    ensures
        run(Phase::Check(Place::first()), absences(tried)) == Phase::Check(place_at(tried)),
    decreases tried,
{
    if tried > 0 {
        lemma_places_in_order((tried - 1) as nat);
        assert(absences(tried).drop_last() =~= absences((tried - 1) as nat));
    }
}

/// A program that lies at one of the places is found there, and the utility
/// that searches the `PATH` is not asked for: when the program is reported
/// absent from each earlier place and present at `place`, the search ends with
/// the path reported, and up to then every phase asks about a place.
pub proof fn lemma_found_without_search(place: Place, path: Seq<char>)
    ensures
        run(
            Phase::Check(Place::first()),
            absences(place.rank()).push(Signal::Present(path)),
        ) == Phase::Found(path),
        forall|tried: nat|
            tried <= place.rank() ==> #[trigger] run(
                Phase::Check(Place::first()),
                absences(tried),
            ) is Check,
{
    lemma_places_in_order(place.rank());
    assert(absences(place.rank()).push(Signal::Present(path)).drop_last() =~= absences(
        place.rank(),
    ));
    assert forall|tried: nat| tried <= place.rank() implies #[trigger] run(
        Phase::Check(Place::first()),
        absences(tried),
    ) is Check by {
        lemma_places_in_order(tried);
    }
}

/// The utility that searches the `PATH` is the last resort: a search comes to
/// ask for it only when the program is reported absent from the last place.
pub proof fn lemma_search_is_last_resort(phase: Phase, signal: Signal)
    requires
        step(phase, signal) is Search,
        !(phase is Search),
    ensures
        phase == Phase::Check(Place::UsrBin),
        signal == Signal::Absent,
{
}

/// A search that is over stays as it is, whatever is reported.
pub proof fn lemma_over_is_final(phase: Phase, signal: Signal)
    requires
        phase is Found || phase is NotFound,
    ensures
        step(phase, signal) == phase,
{
}

/// What the utility printed counts only if a file exists there: the search
/// ends with that path, without the white space at its end, when the file is
/// reported present, and without a path when it is reported absent or the
/// utility could not be run.
pub proof fn lemma_search_outcome(output: Option<Seq<char>>, present: bool, seen: Seq<char>)
    ensures
        run(
            Phase::Search,
            seq![
                Signal::Searched(output),
                if present {
                    Signal::Present(seen)
                } else {
                    Signal::Absent
                },
            ],
        ) == (match output {
            Some(text) if present => Phase::Found(trimmed(text)),
            _ => Phase::NotFound,
        }),
{
    let signals = seq![
        Signal::Searched(output),
        if present {
            Signal::Present(seen)
        } else {
            Signal::Absent
        },
    ];
    assert(signals.drop_last() =~= seq![Signal::Searched(output)]);
    assert(signals.drop_last().drop_last() =~= Seq::<Signal>::empty());
    reveal_with_fuel(run, 3);
}

} // verus!
