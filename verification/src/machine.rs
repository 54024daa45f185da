//! The migration run as a state machine.
//!
//! The run's decisions live here, verified: which file comes next, when a
//! file is skipped, when the run aborts. The outside work (listing the
//! directory, reading a file, executing SQL on the connection) is done by
//! the unverified binary, which asks the machine for the next [`Action`],
//! performs it, and feeds the outcome back as an [`Event`].
//!
//! Per migration file the life cycle is: pending, skipped when its name is
//! already in the applied set, otherwise read, executed inside a fresh
//! transaction, recorded in the ledger within that same transaction, and
//! committed. A failed execution or record is rolled back and aborts the
//! whole run; no later file is attempted.

use vstd::prelude::*;

verus! {

use crate::order::lex_le;
use crate::order::sort_files;
use crate::order::sort_lex;
use vstd::string::StrSliceExecFns;

// --- migration identifiers ---------------------------------------------

/// Index of the last occurrence of `c` in `s`, if any.
pub open spec fn rfind_char(s: Seq<char>, c: char) -> Option<int>
    decreases s.len(),
{
    if s.len() == 0 {
        None
    } else if s.last() == c {
        Some(s.len() - 1)
    } else {
        rfind_char(s.drop_last(), c)
    }
}

proof fn lemma_rfind_char_is(s: Seq<char>, c: char, i: int)
    requires
        0 <= i < s.len(),
        s[i] == c,
        forall|j: int| i < j < s.len() ==> s[j] != c,
    ensures
        rfind_char(s, c) == Some(i),
    decreases s.len(),
{
    if s.last() == c {
        assert(i == s.len() - 1);
    } else {
        assert(i < s.len() - 1);
        assert forall|j: int| i < j < s.drop_last().len() implies s.drop_last()[j] != c by {
            assert(s.drop_last()[j] == s[j]);
        }
        assert(s.drop_last()[i] == s[i]);
        lemma_rfind_char_is(s.drop_last(), c, i);
    }
}

proof fn lemma_rfind_char_none(s: Seq<char>, c: char)
    requires
        forall|j: int| 0 <= j < s.len() ==> s[j] != c,
    ensures
        rfind_char(s, c) is None,
    decreases s.len(),
{
    if s.len() > 0 {
        assert forall|j: int| 0 <= j < s.drop_last().len() implies s.drop_last()[j] != c by {
            assert(s.drop_last()[j] == s[j]);
        }
        lemma_rfind_char_none(s.drop_last(), c);
    }
}

/// The identifier of a migration file: the part of its path behind the
/// last `/`. A path whose tail is empty, `.` or `..` has no identifier;
/// such a file is skipped with a warning, never applied.
pub open spec fn base_name_spec(p: Seq<char>) -> Option<Seq<char>> {
    let tail = match rfind_char(p, '/') {
        None => p,
        Some(i) => p.subrange(i + 1, p.len() as int),
    };
    if tail.len() == 0 || tail == "."@ || tail == ".."@ {
        None
    } else {
        Some(tail)
    }
}

/// Derives the identifier of a migration file from its path.
pub fn base_name(path: &str) -> (r: Option<String>)
    ensures
        match r {
            Some(n) => base_name_spec(path@) == Some(n@),
            None => base_name_spec(path@) is None,
        },
{
    let n = path.unicode_len();
    let mut i: usize = n;
    // Walk backwards to the last '/'.
    while i > 0 && path.get_char(i - 1) != '/'
        invariant
            i <= n,
            n == path@.len(),
            forall|j: int| i <= j < n ==> path@[j] != '/',
        decreases i,
    {
        i = i - 1;
    }
    let tail = if i > 0 {
        proof {
            lemma_rfind_char_is(path@, '/', i - 1);
        }
        path.substring_char(i, n)
    } else {
        proof {
            lemma_rfind_char_none(path@, '/');
        }
        path
    };
    let tail: String = tail.to_owned();
    if tail.unicode_len() == 0 || tail == ".".to_owned() || tail == "..".to_owned() {
        None
    } else {
        Some(tail)
    }
}

// --- errors, events, actions -------------------------------------------

/// A fatal outcome of a run. `name` holds the offending migration's
/// identifier when the failure struck a specific file.
#[derive(Debug)]
pub enum RunError {
    IOError { name: Option<String>, detail: String },
    DatabaseError { name: Option<String>, detail: String },
}

pub enum RunErrorV {
    IOError { name: Option<Seq<char>>, detail: Seq<char> },
    DatabaseError { name: Option<Seq<char>>, detail: Seq<char> },
}

impl View for RunError {
    type V = RunErrorV;

    open spec fn view(&self) -> RunErrorV {
        match self {
            RunError::IOError { name, detail } => RunErrorV::IOError {
                name: name.deep_view(),
                detail: detail@,
            },
            RunError::DatabaseError { name, detail } => RunErrorV::DatabaseError {
                name: name.deep_view(),
                detail: detail@,
            },
        }
    }
}

/// What the unverified binary reports back after performing an [`Action`].
/// An `Err` payload is the outside error's description.
pub enum Event {
    /// The directory listing: every entry's full path, in any order.
    Listed(Result<Vec<String>, String>),
    /// The control table was created (or already existed).
    TableEnsured(Result<(), String>),
    /// The identifiers already present in the ledger, in any order.
    AppliedLoaded(Result<Vec<String>, String>),
    /// The pending file's entire content.
    FileRead(Result<String, String>),
    /// A fresh transaction was opened.
    TxBegun(Result<(), String>),
    /// The file's content ran as one batch inside the transaction.
    BatchExecuted(Result<(), String>),
    /// The ledger row was inserted inside the transaction.
    Recorded(Result<(), String>),
    /// The transaction committed.
    Committed(Result<(), String>),
    /// The rollback finished; its own result is ignored, the original
    /// execution error stays authoritative.
    RolledBack(Result<(), String>),
}

pub enum EventV {
    Listed(Result<Seq<Seq<char>>, Seq<char>>),
    TableEnsured(Result<(), Seq<char>>),
    AppliedLoaded(Result<Seq<Seq<char>>, Seq<char>>),
    FileRead(Result<Seq<char>, Seq<char>>),
    TxBegun(Result<(), Seq<char>>),
    BatchExecuted(Result<(), Seq<char>>),
    Recorded(Result<(), Seq<char>>),
    Committed(Result<(), Seq<char>>),
    RolledBack(Result<(), Seq<char>>),
}

impl View for Event {
    type V = EventV;

    open spec fn view(&self) -> EventV {
        match self {
            Event::Listed(r) => EventV::Listed(
                match r {
                    Ok(v) => Ok(v.deep_view()),
                    Err(e) => Err(e@),
                },
            ),
            Event::TableEnsured(r) => EventV::TableEnsured(
                match r {
                    Ok(_) => Ok(()),
                    Err(e) => Err(e@),
                },
            ),
            Event::AppliedLoaded(r) => EventV::AppliedLoaded(
                match r {
                    Ok(v) => Ok(v.deep_view()),
                    Err(e) => Err(e@),
                },
            ),
            Event::FileRead(r) => EventV::FileRead(
                match r {
                    Ok(s) => Ok(s@),
                    Err(e) => Err(e@),
                },
            ),
            Event::TxBegun(r) => EventV::TxBegun(
                match r {
                    Ok(_) => Ok(()),
                    Err(e) => Err(e@),
                },
            ),
            Event::BatchExecuted(r) => EventV::BatchExecuted(
                match r {
                    Ok(_) => Ok(()),
                    Err(e) => Err(e@),
                },
            ),
            Event::Recorded(r) => EventV::Recorded(
                match r {
                    Ok(_) => Ok(()),
                    Err(e) => Err(e@),
                },
            ),
            Event::Committed(r) => EventV::Committed(
                match r {
                    Ok(_) => Ok(()),
                    Err(e) => Err(e@),
                },
            ),
            Event::RolledBack(r) => EventV::RolledBack(
                match r {
                    Ok(_) => Ok(()),
                    Err(e) => Err(e@),
                },
            ),
        }
    }
}

/// The next piece of outside work the binary must perform.
pub enum Action {
    /// List the migrations directory (non-recursive), full paths.
    ListDir,
    /// Execute [`ensure_table_sql`] on the connection.
    EnsureTable,
    /// Query [`load_applied_sql`] and collect the identifiers.
    LoadApplied,
    /// Read the whole file at `path` as text.
    ReadFile { path: String },
    /// Open a fresh transaction on the connection.
    BeginTx,
    /// Execute `content` as one batch inside the open transaction.
    ExecBatch { content: String },
    /// Insert the ledger row for `name` inside the open transaction,
    /// with [`record_applied_sql`].
    RecordApplied { name: String },
    /// Commit the open transaction.
    CommitTx,
    /// Roll the open transaction back (best effort).
    RollbackTx,
}

pub enum ActionV {
    ListDir,
    EnsureTable,
    LoadApplied,
    ReadFile { path: Seq<char> },
    BeginTx,
    ExecBatch { content: Seq<char> },
    RecordApplied { name: Seq<char> },
    CommitTx,
    RollbackTx,
}

impl View for Action {
    type V = ActionV;

    open spec fn view(&self) -> ActionV {
        match self {
            Action::ListDir => ActionV::ListDir,
            Action::EnsureTable => ActionV::EnsureTable,
            Action::LoadApplied => ActionV::LoadApplied,
            Action::ReadFile { path } => ActionV::ReadFile { path: path@ },
            Action::BeginTx => ActionV::BeginTx,
            Action::ExecBatch { content } => ActionV::ExecBatch { content: content@ },
            Action::RecordApplied { name } => ActionV::RecordApplied { name: name@ },
            Action::CommitTx => ActionV::CommitTx,
            Action::RollbackTx => ActionV::RollbackTx,
        }
    }
}

// --- the machine --------------------------------------------------------

/// One migration run. `files` is the sorted listing; `idx` the file under
/// work; `applied` the in-memory applied set (ledger snapshot plus the
/// identifiers committed by this run); `done` the identifiers this run
/// committed, in order, for reporting.
pub enum Machine {
    Init,
    EnsuringTable { files: Vec<String> },
    LoadingApplied { files: Vec<String> },
    ReadingFile { files: Vec<String>, idx: usize, applied: Vec<String>, done: Vec<String>, name: String },
    Beginning {
        files: Vec<String>,
        idx: usize,
        applied: Vec<String>,
        done: Vec<String>,
        name: String,
        content: String,
    },
    Executing {
        files: Vec<String>,
        idx: usize,
        applied: Vec<String>,
        done: Vec<String>,
        name: String,
        content: String,
    },
    Recording { files: Vec<String>, idx: usize, applied: Vec<String>, done: Vec<String>, name: String },
    Committing { files: Vec<String>, idx: usize, applied: Vec<String>, done: Vec<String>, name: String },
    RollingBack {
        files: Vec<String>,
        idx: usize,
        applied: Vec<String>,
        done: Vec<String>,
        name: String,
        detail: String,
    },
    Done { outcome: Result<Vec<String>, RunError> },
}

pub enum MachineV {
    Init,
    EnsuringTable { files: Seq<Seq<char>> },
    LoadingApplied { files: Seq<Seq<char>> },
    ReadingFile {
        files: Seq<Seq<char>>,
        idx: int,
        applied: Seq<Seq<char>>,
        done: Seq<Seq<char>>,
        name: Seq<char>,
    },
    Beginning {
        files: Seq<Seq<char>>,
        idx: int,
        applied: Seq<Seq<char>>,
        done: Seq<Seq<char>>,
        name: Seq<char>,
        content: Seq<char>,
    },
    Executing {
        files: Seq<Seq<char>>,
        idx: int,
        applied: Seq<Seq<char>>,
        done: Seq<Seq<char>>,
        name: Seq<char>,
        content: Seq<char>,
    },
    Recording {
        files: Seq<Seq<char>>,
        idx: int,
        applied: Seq<Seq<char>>,
        done: Seq<Seq<char>>,
        name: Seq<char>,
    },
    Committing {
        files: Seq<Seq<char>>,
        idx: int,
        applied: Seq<Seq<char>>,
        done: Seq<Seq<char>>,
        name: Seq<char>,
    },
    RollingBack {
        files: Seq<Seq<char>>,
        idx: int,
        applied: Seq<Seq<char>>,
        done: Seq<Seq<char>>,
        name: Seq<char>,
        detail: Seq<char>,
    },
    Done { outcome: Result<Seq<Seq<char>>, RunErrorV> },
}

impl View for Machine {
    type V = MachineV;

    open spec fn view(&self) -> MachineV {
        match self {
            Machine::Init => MachineV::Init,
            Machine::EnsuringTable { files } => MachineV::EnsuringTable { files: files.deep_view() },
            Machine::LoadingApplied { files } => MachineV::LoadingApplied {
                files: files.deep_view(),
            },
            Machine::ReadingFile { files, idx, applied, done, name } => MachineV::ReadingFile {
                files: files.deep_view(),
                idx: *idx as int,
                applied: applied.deep_view(),
                done: done.deep_view(),
                name: name@,
            },
            Machine::Beginning { files, idx, applied, done, name, content } => MachineV::Beginning {
                files: files.deep_view(),
                idx: *idx as int,
                applied: applied.deep_view(),
                done: done.deep_view(),
                name: name@,
                content: content@,
            },
            Machine::Executing { files, idx, applied, done, name, content } => MachineV::Executing {
                files: files.deep_view(),
                idx: *idx as int,
                applied: applied.deep_view(),
                done: done.deep_view(),
                name: name@,
                content: content@,
            },
            Machine::Recording { files, idx, applied, done, name } => MachineV::Recording {
                files: files.deep_view(),
                idx: *idx as int,
                applied: applied.deep_view(),
                done: done.deep_view(),
                name: name@,
            },
            Machine::Committing { files, idx, applied, done, name } => MachineV::Committing {
                files: files.deep_view(),
                idx: *idx as int,
                applied: applied.deep_view(),
                done: done.deep_view(),
                name: name@,
            },
            Machine::RollingBack { files, idx, applied, done, name, detail } => MachineV::RollingBack {
                files: files.deep_view(),
                idx: *idx as int,
                applied: applied.deep_view(),
                done: done.deep_view(),
                name: name@,
                detail: detail@,
            },
            Machine::Done { outcome } => MachineV::Done {
                outcome: match outcome {
                    Ok(v) => Ok(v.deep_view()),
                    Err(e) => Err(e@),
                },
            },
        }
    }
}

/// The machine's well-formedness: in every per-file state the index
/// points into the listing.
pub open spec fn wf(m: MachineV) -> bool {
    match m {
        MachineV::ReadingFile { files, idx, .. } => 0 <= idx < files.len(),
        MachineV::Beginning { files, idx, .. } => 0 <= idx < files.len(),
        MachineV::Executing { files, idx, .. } => 0 <= idx < files.len(),
        MachineV::Recording { files, idx, .. } => 0 <= idx < files.len(),
        MachineV::Committing { files, idx, .. } => 0 <= idx < files.len(),
        MachineV::RollingBack { files, idx, .. } => 0 <= idx < files.len(),
        _ => true,
    }
}

/// Scans forward from `idx` for the first pending file: one with a
/// derivable identifier that is not yet in `applied`. Files without an
/// identifier and files already applied are skipped. With none left the
/// run is complete and reports the identifiers committed this run.
pub open spec fn advance_v(
    files: Seq<Seq<char>>,
    idx: int,
    applied: Seq<Seq<char>>,
    done: Seq<Seq<char>>,
) -> MachineV
    decreases files.len() - idx,
{
    if idx < 0 || idx >= files.len() {
        MachineV::Done { outcome: Ok(done) }
    } else {
        match base_name_spec(files[idx]) {
            None => advance_v(files, idx + 1, applied, done),
            Some(n) => if applied.contains(n) {
                advance_v(files, idx + 1, applied, done)
            } else {
                MachineV::ReadingFile { files, idx, applied, done, name: n }
            },
        }
    }
}

/// The run's transition function: what the machine becomes when the
/// binary reports `ev`. An event that does not answer the machine's
/// pending action leaves the machine unchanged. A `Done` machine never
/// changes again.
pub open spec fn step_v(m: MachineV, ev: EventV) -> MachineV {
    match (m, ev) {
        (MachineV::Init, EventV::Listed(r)) => match r {
            Ok(paths) => MachineV::EnsuringTable { files: sort_lex(paths) },
            Err(e) => MachineV::Done {
                outcome: Err(RunErrorV::IOError { name: None, detail: e }),
            },
        },
        (MachineV::EnsuringTable { files }, EventV::TableEnsured(r)) => match r {
            Ok(_) => MachineV::LoadingApplied { files },
            Err(e) => MachineV::Done {
                outcome: Err(RunErrorV::DatabaseError { name: None, detail: e }),
            },
        },
        (MachineV::LoadingApplied { files }, EventV::AppliedLoaded(r)) => match r {
            Ok(names) => advance_v(files, 0, names, Seq::empty()),
            Err(e) => MachineV::Done {
                outcome: Err(RunErrorV::DatabaseError { name: None, detail: e }),
            },
        },
        (MachineV::ReadingFile { files, idx, applied, done, name }, EventV::FileRead(r)) => match r {
            Ok(content) => MachineV::Beginning { files, idx, applied, done, name, content },
            Err(e) => MachineV::Done {
                outcome: Err(RunErrorV::IOError { name: Some(name), detail: e }),
            },
        },
        (MachineV::Beginning { files, idx, applied, done, name, content }, EventV::TxBegun(r)) => match r {
            Ok(_) => MachineV::Executing { files, idx, applied, done, name, content },
            Err(e) => MachineV::Done {
                outcome: Err(RunErrorV::DatabaseError { name: Some(name), detail: e }),
            },
        },
        (MachineV::Executing { files, idx, applied, done, name, content }, EventV::BatchExecuted(r)) => match r {
            Ok(_) => MachineV::Recording { files, idx, applied, done, name },
            Err(e) => MachineV::RollingBack { files, idx, applied, done, name, detail: e },
        },
        (MachineV::Recording { files, idx, applied, done, name }, EventV::Recorded(r)) => match r {
            Ok(_) => MachineV::Committing { files, idx, applied, done, name },
            Err(e) => MachineV::RollingBack { files, idx, applied, done, name, detail: e },
        },
        (MachineV::Committing { files, idx, applied, done, name }, EventV::Committed(r)) => match r {
            Ok(_) => advance_v(files, idx + 1, applied.push(name), done.push(name)),
            Err(e) => MachineV::Done {
                outcome: Err(RunErrorV::DatabaseError { name: Some(name), detail: e }),
            },
        },
        (MachineV::RollingBack { files, idx, applied, done, name, detail }, EventV::RolledBack(_)) => MachineV::Done {
            outcome: Err(RunErrorV::DatabaseError { name: Some(name), detail }),
        },
        (other, _) => other,
    }
}

/// The outside work each state waits for.
pub open spec fn action_v(m: MachineV) -> ActionV {
    match m {
        MachineV::Init => ActionV::ListDir,
        MachineV::EnsuringTable { .. } => ActionV::EnsureTable,
        MachineV::LoadingApplied { .. } => ActionV::LoadApplied,
        MachineV::ReadingFile { files, idx, .. } => ActionV::ReadFile { path: files[idx] },
        MachineV::Beginning { .. } => ActionV::BeginTx,
        MachineV::Executing { content, .. } => ActionV::ExecBatch { content },
        MachineV::Recording { name, .. } => ActionV::RecordApplied { name },
        MachineV::Committing { .. } => ActionV::CommitTx,
        MachineV::RollingBack { .. } => ActionV::RollbackTx,
        MachineV::Done { .. } => arbitrary(),
    }
}

/// Whether `name` is in the applied set.
fn contains_name(applied: &Vec<String>, name: &String) -> (r: bool)
    ensures
        r == applied.deep_view().contains(name@),
{
    let ghost dv = applied.deep_view();
    let mut i: usize = 0;
    while i < applied.len()
        invariant
            i <= applied.len(),
            dv == applied.deep_view(),
            forall|j: int| 0 <= j < i ==> dv[j] != name@,
        decreases applied.len() - i,
    {
        proof {
            assert(dv[i as int] == applied@[i as int]@);
        }
        if applied[i] == *name {
            assert(dv.contains(name@)) by {
                assert(dv[i as int] == name@);
            }
            return true;
        }
        i = i + 1;
    }
    assert(!dv.contains(name@));
    false
}

/// Scans forward from `idx` for the first pending file, as `advance_v`
/// describes.
fn advance(files: Vec<String>, idx: usize, applied: Vec<String>, done: Vec<String>) -> (r:
    Machine)
    requires
        idx <= files.deep_view().len(),
    ensures
        r@ == advance_v(files.deep_view(), idx as int, applied.deep_view(), done.deep_view()),
        wf(r@),
{
    let ghost fv = files.deep_view();
    let ghost av = applied.deep_view();
    let ghost dov = done.deep_view();
    let mut i: usize = idx;
    loop
        invariant
            idx <= i <= files.len(),
            fv == files.deep_view(),
            av == applied.deep_view(),
            dov == done.deep_view(),
            fv.len() == files.len(),
            advance_v(fv, idx as int, av, dov) == advance_v(fv, i as int, av, dov),
        decreases files.len() - i,
    {
        if i >= files.len() {
            assert(advance_v(fv, i as int, av, dov) == (MachineV::Done { outcome: Ok(dov) }));
            return Machine::Done { outcome: Ok(done) };
        }
        proof {
            assert(fv[i as int] == files@[i as int]@);
        }
        match base_name(files[i].as_str()) {
            None => {
                assert(advance_v(fv, i as int, av, dov) == advance_v(fv, i as int + 1, av, dov));
                i = i + 1;
            },
            Some(nm) => {
                if contains_name(&applied, &nm) {
                    assert(advance_v(fv, i as int, av, dov) == advance_v(
                        fv,
                        i as int + 1,
                        av,
                        dov,
                    ));
                    i = i + 1;
                } else {
                    return Machine::ReadingFile { files, idx: i, applied, done, name: nm };
                }
            },
        }
    }
}

impl Machine {
    /// A fresh run, before anything has happened.
    pub fn new() -> (r: Machine)
        ensures
            r@ == MachineV::Init,
            wf(r@),
    {
        Machine::Init
    }

    /// Feeds the outcome of the pending action into the machine, as
    /// `step_v` describes.
    pub fn step(self, ev: Event) -> (r: Machine)
        requires
            wf(self@),
        ensures
            r@ == step_v(self@, ev@),
            wf(r@),
    {
        match (self, ev) {
            (Machine::Init, Event::Listed(res)) => match res {
                Ok(paths) => {
                    let sorted = sort_files(paths);
                    Machine::EnsuringTable { files: sorted }
                },
                Err(e) => Machine::Done {
                    outcome: Err(RunError::IOError { name: None, detail: e }),
                },
            },
            (Machine::EnsuringTable { files }, Event::TableEnsured(res)) => match res {
                Ok(_) => Machine::LoadingApplied { files },
                Err(e) => Machine::Done {
                    outcome: Err(RunError::DatabaseError { name: None, detail: e }),
                },
            },
            (Machine::LoadingApplied { files }, Event::AppliedLoaded(res)) => match res {
                Ok(names) => {
                    let fresh: Vec<String> = Vec::new();
                    assert(fresh.deep_view() =~= Seq::<Seq<char>>::empty());
                    advance(files, 0, names, fresh)
                },
                Err(e) => Machine::Done {
                    outcome: Err(RunError::DatabaseError { name: None, detail: e }),
                },
            },
            (Machine::ReadingFile { files, idx, applied, done, name }, Event::FileRead(res)) => match res {
                Ok(content) => Machine::Beginning { files, idx, applied, done, name, content },
                Err(e) => Machine::Done {
                    outcome: Err(RunError::IOError { name: Some(name), detail: e }),
                },
            },
            (Machine::Beginning { files, idx, applied, done, name, content }, Event::TxBegun(
                res,
            )) => match res {
                Ok(_) => Machine::Executing { files, idx, applied, done, name, content },
                Err(e) => Machine::Done {
                    outcome: Err(RunError::DatabaseError { name: Some(name), detail: e }),
                },
            },
            (
                Machine::Executing { files, idx, applied, done, name, content },
                Event::BatchExecuted(res),
            ) => match res {
                Ok(_) => Machine::Recording { files, idx, applied, done, name },
                Err(e) => Machine::RollingBack { files, idx, applied, done, name, detail: e },
            },
            (Machine::Recording { files, idx, applied, done, name }, Event::Recorded(res)) => match res {
                Ok(_) => Machine::Committing { files, idx, applied, done, name },
                Err(e) => Machine::RollingBack { files, idx, applied, done, name, detail: e },
            },
            (Machine::Committing { files, idx, applied, done, name }, Event::Committed(res)) => match res {
                Ok(_) => {
                    let n_files = files.len();
                    assert(idx < n_files);
                    let ghost av = applied.deep_view();
                    let ghost dov = done.deep_view();
                    let mut applied = applied;
                    let mut done = done;
                    applied.push(name.clone());
                    done.push(name);
                    proof {
                        assert(applied.deep_view() =~= av.push(applied.deep_view().last()));
                        assert(done.deep_view() =~= dov.push(done.deep_view().last()));
                    }
                    advance(files, idx + 1, applied, done)
                },
                Err(e) => Machine::Done {
                    outcome: Err(RunError::DatabaseError { name: Some(name), detail: e }),
                },
            },
            (
                Machine::RollingBack { files, idx, applied, done, name, detail },
                Event::RolledBack(_),
            ) => Machine::Done {
                outcome: Err(RunError::DatabaseError { name: Some(name), detail }),
            },
            (other, _) => other,
        }
    }

    /// The outside work the machine waits for, or `None` once the run is
    /// done.
    pub fn next_action(&self) -> (r: Option<Action>)
        requires
            wf(self@),
        ensures
            match r {
                Some(a) => !(self@ is Done) && a@ == action_v(self@),
                None => self@ is Done,
            },
    {
        match self {
            Machine::Init => Some(Action::ListDir),
            Machine::EnsuringTable { .. } => Some(Action::EnsureTable),
            Machine::LoadingApplied { .. } => Some(Action::LoadApplied),
            Machine::ReadingFile { files, idx, .. } => {
                proof {
                    assert(files.deep_view()[*idx as int] == files@[*idx as int]@);
                }
                Some(Action::ReadFile { path: files[*idx].clone() })
            },
            Machine::Beginning { .. } => Some(Action::BeginTx),
            Machine::Executing { content, .. } => Some(
                Action::ExecBatch { content: content.clone() },
            ),
            Machine::Recording { name, .. } => Some(Action::RecordApplied { name: name.clone() }),
            Machine::Committing { .. } => Some(Action::CommitTx),
            Machine::RollingBack { .. } => Some(Action::RollbackTx),
            Machine::Done { .. } => None,
        }
    }

    /// The run's result, once the machine is done.
    pub fn into_outcome(self) -> (r: Result<Vec<String>, RunError>)
        requires
            self@ is Done,
        ensures
            self@ == (MachineV::Done { outcome: outcome_v(r) }),
    {
        match self {
            Machine::Done { outcome } => outcome,
            _ => vstd::pervasive::unreached(),
        }
    }
}

/// The spec-level value of a run result.
pub open spec fn outcome_v(r: Result<Vec<String>, RunError>) -> Result<
    Seq<Seq<char>>,
    RunErrorV,
> {
    match r {
        Ok(v) => Ok(v.deep_view()),
        Err(e) => Err(e@),
    }
}

// --- the ledger's SQL --------------------------------------------------

pub open spec fn ensure_table_sql_spec() -> Seq<char> {
    "CREATE TABLE IF NOT EXISTS migrations (id INTEGER PRIMARY KEY AUTOINCREMENT, file_name TEXT)"@
}

/// The idempotent DDL for the control table.
pub fn ensure_table_sql() -> (s: String)
    ensures
        s@ == ensure_table_sql_spec(),
{
    "CREATE TABLE IF NOT EXISTS migrations (id INTEGER PRIMARY KEY AUTOINCREMENT, file_name TEXT)".to_owned()
}

pub open spec fn load_applied_sql_spec() -> Seq<char> {
    "SELECT file_name FROM migrations"@
}

/// The full scan of the control table; each row's single column is an
/// applied identifier.
pub fn load_applied_sql() -> (s: String)
    ensures
        s@ == load_applied_sql_spec(),
{
    "SELECT file_name FROM migrations".to_owned()
}

pub open spec fn record_applied_sql_spec() -> Seq<char> {
    "INSERT INTO migrations (file_name) VALUES (?1)"@
}

/// The ledger insert; its one parameter is the migration's identifier.
pub fn record_applied_sql() -> (s: String)
    ensures
        s@ == record_applied_sql_spec(),
{
    "INSERT INTO migrations (file_name) VALUES (?1)".to_owned()
}

// --- laws of the run ----------------------------------------------------

/// A file the run passes over: its identifier cannot be derived, or it
/// is already in the applied set.
pub open spec fn skipped(p: Seq<char>, applied: Seq<Seq<char>>) -> bool {
    match base_name_spec(p) {
        None => true,
        Some(n) => applied.contains(n),
    }
}

/// When every file from `idx` on is skipped, the scan runs to the end
/// and the run finishes successfully with exactly the migrations already
/// in `done`.
pub proof fn lemma_advance_skips_applied(
    files: Seq<Seq<char>>,
    idx: int,
    applied: Seq<Seq<char>>,
    done: Seq<Seq<char>>,
)
    requires
        0 <= idx <= files.len(),
        forall|i: int| idx <= i < files.len() ==> skipped(#[trigger] files[i], applied),
    ensures
        advance_v(files, idx, applied, done) == (MachineV::Done { outcome: Ok(done) }),
    decreases files.len() - idx,
{
    if idx < files.len() {
        lemma_advance_skips_applied(files, idx + 1, applied, done);
    }
}

/// Idempotency: a run whose loaded ledger already lists every migration
/// of the directory applies nothing. Straight from loading the applied
/// set the machine is done and successful with zero migrations applied:
/// no file is read, no batch executed, no ledger row inserted.
pub proof fn lemma_rerun_is_noop(files: Seq<Seq<char>>, applied: Seq<Seq<char>>)
    requires
        forall|i: int| 0 <= i < files.len() ==> skipped(#[trigger] files[i], applied),
    ensures
        step_v((MachineV::LoadingApplied { files }), EventV::AppliedLoaded(Ok(applied))) == (
        MachineV::Done { outcome: Ok(Seq::empty()) }),
{
    lemma_advance_skips_applied(files, 0, applied, Seq::empty());
}

/// The scan lands exactly on the first pending file: with everything
/// before `j` skipped and `j` pending, the machine reads file `j` under
/// its derived identifier, the applied set untouched.
pub proof fn lemma_advance_first_pending(
    files: Seq<Seq<char>>,
    idx: int,
    applied: Seq<Seq<char>>,
    done: Seq<Seq<char>>,
    j: int,
)
    requires
        0 <= idx <= j < files.len(),
        forall|i: int| idx <= i < j ==> skipped(#[trigger] files[i], applied),
        !skipped(files[j], applied),
    ensures
        match base_name_spec(files[j]) {
            Some(n) => advance_v(files, idx, applied, done) == (MachineV::ReadingFile {
                files,
                idx: j,
                applied,
                done,
                name: n,
            }),
            None => false,
        },
    decreases j - idx,
{
    if idx < j {
        lemma_advance_first_pending(files, idx + 1, applied, done, j);
    }
}

/// Resume after a failure: rerunning with a ledger that lists the
/// already-committed migrations skips exactly those and picks up at the
/// first identifier not yet in the ledger.
pub proof fn lemma_resume_at_first_pending(files: Seq<Seq<char>>, applied: Seq<Seq<char>>, j: int)
    requires
        0 <= j < files.len(),
        forall|i: int| 0 <= i < j ==> skipped(#[trigger] files[i], applied),
        !skipped(files[j], applied),
    ensures
        match base_name_spec(files[j]) {
            Some(n) => step_v((MachineV::LoadingApplied { files }), EventV::AppliedLoaded(
                Ok(applied),
            )) == (MachineV::ReadingFile {
                files,
                idx: j,
                applied,
                done: Seq::empty(),
                name: n,
            }),
            None => false,
        },
{
    lemma_advance_first_pending(files, 0, applied, Seq::empty(), j);
}

/// What the machine maintains across a run: in every per-file state,
/// each earlier file was skipped (no identifier, or already in the
/// applied set), and the file under work carries its own derived
/// identifier.
pub open spec fn run_inv(m: MachineV) -> bool {
    match m {
        MachineV::ReadingFile { files, idx, applied, name, .. } => (forall|i: int|
            0 <= i < idx ==> skipped(#[trigger] files[i], applied)) && base_name_spec(files[idx])
            == Some(name),
        MachineV::Beginning { files, idx, applied, name, .. } => (forall|i: int|
            0 <= i < idx ==> skipped(#[trigger] files[i], applied)) && base_name_spec(files[idx])
            == Some(name),
        MachineV::Executing { files, idx, applied, name, .. } => (forall|i: int|
            0 <= i < idx ==> skipped(#[trigger] files[i], applied)) && base_name_spec(files[idx])
            == Some(name),
        MachineV::Recording { files, idx, applied, name, .. } => (forall|i: int|
            0 <= i < idx ==> skipped(#[trigger] files[i], applied)) && base_name_spec(files[idx])
            == Some(name),
        MachineV::Committing { files, idx, applied, name, .. } => (forall|i: int|
            0 <= i < idx ==> skipped(#[trigger] files[i], applied)) && base_name_spec(files[idx])
            == Some(name),
        MachineV::RollingBack { files, idx, applied, name, .. } => (forall|i: int|
            0 <= i < idx ==> skipped(#[trigger] files[i], applied)) && base_name_spec(files[idx])
            == Some(name),
        _ => true,
    }
}

proof fn lemma_skipped_after_push(p: Seq<char>, applied: Seq<Seq<char>>, n: Seq<char>)
    requires
        skipped(p, applied),
    ensures
        skipped(p, applied.push(n)),
{
    match base_name_spec(p) {
        Some(b) => {
            let k = choose|k: int| 0 <= k < applied.len() && applied[k] == b;
            assert(applied.push(n)[k] == b);
        },
        None => {},
    }
}

/// Every state the machine itself produces keeps `run_inv`: it holds of
/// a fresh machine and is preserved by every step.
pub proof fn lemma_step_preserves_run_inv(m: MachineV, ev: EventV)
    requires
        wf(m),
        run_inv(m),
    ensures
        run_inv(step_v(m, ev)),
{
    match (m, ev) {
        (MachineV::LoadingApplied { files }, EventV::AppliedLoaded(r)) => {
            if let Ok(names) = r {
                lemma_advance_characterization(files, 0, names, Seq::empty());
            }
        },
        (MachineV::Committing { files, idx, applied, done, name }, EventV::Committed(r)) => {
            if r is Ok {
                let a2 = applied.push(name);
                let d2 = done.push(name);
                lemma_advance_characterization(files, idx + 1, a2, d2);
                assert forall|i: int| 0 <= i < idx + 1 implies skipped(
                    #[trigger] files[i],
                    a2,
                ) by {
                    if i < idx {
                        lemma_skipped_after_push(files[i], applied, name);
                    } else {
                        assert(a2[a2.len() - 1] == name);
                        assert(a2.contains(name));
                    }
                }
                match advance_v(files, idx + 1, a2, d2) {
                    MachineV::ReadingFile { idx: j, .. } => {
                        assert forall|i: int| 0 <= i < j implies skipped(
                            #[trigger] files[i],
                            a2,
                        ) by {}
                    },
                    _ => {},
                }
            }
        },
        _ => {},
    }
}

/// The closing half of idempotency: when the scan finishes the run, every
/// file of the directory is skipped under the final applied set, which
/// is exactly the hypothesis under which a rerun applies nothing
/// (`lemma_rerun_is_noop`).
pub proof fn lemma_completion_covers_directory(
    files: Seq<Seq<char>>,
    idx: int,
    applied: Seq<Seq<char>>,
    done: Seq<Seq<char>>,
)
    requires
        0 <= idx <= files.len(),
        forall|i: int| 0 <= i < idx ==> skipped(#[trigger] files[i], applied),
        advance_v(files, idx, applied, done) is Done,
    ensures
        forall|i: int| 0 <= i < files.len() ==> skipped(#[trigger] files[i], applied),
{
    lemma_advance_characterization(files, idx, applied, done);
}

/// A finished run never changes again, whatever event arrives.
pub proof fn lemma_done_is_terminal(outcome: Result<Seq<Seq<char>>, RunErrorV>, ev: EventV)
    ensures
        step_v((MachineV::Done { outcome }), ev) == (MachineV::Done { outcome }),
{
}

/// Atomicity on failure and fail-fast: when a migration's batch fails,
/// the machine's next and only action is the rollback of that
/// transaction — the ledger row is never inserted, since the recording
/// state is unreachable — and after the rollback the run is terminally
/// failed, naming the offending migration and the original execution
/// error. No later file is ever attempted.
pub proof fn lemma_failed_batch_aborts(
    files: Seq<Seq<char>>,
    idx: int,
    applied: Seq<Seq<char>>,
    done: Seq<Seq<char>>,
    name: Seq<char>,
    content: Seq<char>,
    detail: Seq<char>,
    rollback_result: Result<(), Seq<char>>,
)
    ensures
        step_v(
            (MachineV::Executing { files, idx, applied, done, name, content }),
            EventV::BatchExecuted(Err(detail)),
        ) == (MachineV::RollingBack { files, idx, applied, done, name, detail }),
        action_v((MachineV::RollingBack { files, idx, applied, done, name, detail }))
            == ActionV::RollbackTx,
        step_v(
            (MachineV::RollingBack { files, idx, applied, done, name, detail }),
            EventV::RolledBack(rollback_result),
        ) == (MachineV::Done {
            outcome: Err(RunErrorV::DatabaseError { name: Some(name), detail }),
        }),
{
}

/// A failed ledger insert aborts the same way: rollback, then a terminal
/// failure naming the migration. The commit state is unreachable, so the
/// migration's effects and its ledger row stand or fall together.
pub proof fn lemma_failed_record_aborts(
    files: Seq<Seq<char>>,
    idx: int,
    applied: Seq<Seq<char>>,
    done: Seq<Seq<char>>,
    name: Seq<char>,
    detail: Seq<char>,
    rollback_result: Result<(), Seq<char>>,
)
    ensures
        step_v(
            (MachineV::Recording { files, idx, applied, done, name }),
            EventV::Recorded(Err(detail)),
        ) == (MachineV::RollingBack { files, idx, applied, done, name, detail }),
        step_v(
            (MachineV::RollingBack { files, idx, applied, done, name, detail }),
            EventV::RolledBack(rollback_result),
        ) == (MachineV::Done {
            outcome: Err(RunErrorV::DatabaseError { name: Some(name), detail }),
        }),
{
}

/// Ordering, first half: the listing is sorted on arrival. The machine
/// works on exactly the listed paths, arranged lexicographically.
pub proof fn lemma_listing_sorted(paths: Seq<Seq<char>>)
    ensures
        step_v(MachineV::Init, EventV::Listed(Ok(paths))) == (MachineV::EnsuringTable {
            files: sort_lex(paths),
        }),
        crate::order::sorted_lex(sort_lex(paths)),
        sort_lex(paths).to_multiset() == paths.to_multiset(),
{
    crate::order::lemma_sort_lex_ensures(paths);
}

/// The scan, characterized completely: it keeps the listing and the
/// sets, lands on the first pending file at or after `idx` — its
/// identifier derivable and not yet applied, everything in between
/// skipped — or finishes the run successfully when no file is pending.
pub proof fn lemma_advance_characterization(
    files: Seq<Seq<char>>,
    idx: int,
    applied: Seq<Seq<char>>,
    done: Seq<Seq<char>>,
)
    requires
        0 <= idx <= files.len(),
    ensures
        match advance_v(files, idx, applied, done) {
            MachineV::ReadingFile { files: f2, idx: j, applied: a2, done: d2, name } => f2
                == files && a2 == applied && d2 == done && idx <= j < files.len()
                && base_name_spec(files[j]) == Some(name) && !applied.contains(name) && (forall|
                i: int,
            | idx <= i < j ==> skipped(#[trigger] files[i], applied)),
            MachineV::Done { outcome } => outcome == Ok::<Seq<Seq<char>>, RunErrorV>(done) && (
            forall|i: int| idx <= i < files.len() ==> skipped(#[trigger] files[i], applied)),
            _ => false,
        },
    decreases files.len() - idx,
{
    if idx < files.len() {
        lemma_advance_characterization(files, idx + 1, applied, done);
    }
}

/// Ordering, second half: after a commit at `idx`, the next file the
/// machine attempts (if any) stands strictly later in the sorted
/// listing, so applied paths follow the lexicographic order.
pub proof fn lemma_apply_order(
    files: Seq<Seq<char>>,
    idx: int,
    applied: Seq<Seq<char>>,
    done: Seq<Seq<char>>,
    name: Seq<char>,
)
    requires
        crate::order::sorted_lex(files),
        0 <= idx < files.len(),
    ensures
        step_v(
            (MachineV::Committing { files, idx, applied, done, name }),
            EventV::Committed(Ok(())),
        ) matches MachineV::ReadingFile { idx: j, .. } ==> idx < j < files.len() && lex_le(
            files[idx],
            files[j],
        ),
{
    lemma_advance_characterization(files, idx + 1, applied.push(name), done.push(name));
    let m2 = step_v(
        (MachineV::Committing { files, idx, applied, done, name }),
        EventV::Committed(Ok(())),
    );
    match m2 {
        MachineV::ReadingFile { idx: j, .. } => {
            assert(lex_le(files[idx], files[j]));
        },
        _ => {},
    }
}

/// A successful commit reports the migration: its identifier joins both
/// the in-memory applied set and the run's report, in apply order.
pub proof fn lemma_commit_records_identifier(
    files: Seq<Seq<char>>,
    idx: int,
    applied: Seq<Seq<char>>,
    done: Seq<Seq<char>>,
    name: Seq<char>,
)
    requires
        0 <= idx < files.len(),
    ensures
        step_v(
            (MachineV::Committing { files, idx, applied, done, name }),
            EventV::Committed(Ok(())),
        ) == advance_v(files, idx + 1, applied.push(name), done.push(name)),
{
}

/// An empty directory: the run succeeds at once, with zero migrations
/// applied, after the control table was still created and loaded.
pub proof fn lemma_empty_directory(applied: Seq<Seq<char>>)
    ensures
        step_v(MachineV::Init, EventV::Listed(Ok(Seq::empty()))) == (MachineV::EnsuringTable {
            files: Seq::empty(),
        }),
        step_v(
            (MachineV::EnsuringTable { files: Seq::empty() }),
            EventV::TableEnsured(Ok(())),
        ) == (MachineV::LoadingApplied { files: Seq::empty() }),
        step_v(
            (MachineV::LoadingApplied { files: Seq::empty() }),
            EventV::AppliedLoaded(Ok(applied)),
        ) == (MachineV::Done { outcome: Ok(Seq::empty()) }),
{
    assert(sort_lex(Seq::empty()) =~= Seq::<Seq<char>>::empty());
    lemma_advance_skips_applied(Seq::empty(), 0, applied, Seq::empty());
}

} // verus!
