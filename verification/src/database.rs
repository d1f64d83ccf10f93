//! Decisions of the persistence layer: where a database URL keeps its file,
//! whether a file holds an SQLite database, and the plan that opens the
//! database, recreating a damaged file once.

use vstd::prelude::*;
use vstd::string::*;

use sqlx::sqlite::SqliteConnectOptions;

use crate::error::AppError;

verus! {

/// `s` without the prefix `p`, if `s` starts with `p`.
pub open spec fn spec_strip_prefix(s: Seq<char>, p: Seq<char>) -> Option<Seq<char>> {
    if p.len() <= s.len() && s.subrange(0, p.len() as int) == p {
        Some(s.subrange(p.len() as int, s.len() as int))
    } else {
        None
    }
}

/// The part of `s` before the first `c`; all of `s` if it holds no `c`.
pub open spec fn before_first(s: Seq<char>, c: char) -> Seq<char>
    decreases s.len(),
{
    if s.len() == 0 {
        s
    } else if s[0] == c {
        Seq::empty()
    } else {
        seq![s[0]] + before_first(s.drop_first(), c)
    }
}

/// The file that an SQLite URL names: what follows `sqlite://` or
/// `sqlite:`, up to the first `?`. None for other URLs, for the in-memory
/// database (with or without parameters) and for an empty path.
pub open spec fn spec_sqlite_file_path(url: Seq<char>) -> Option<Seq<char>> {
    let raw = match spec_strip_prefix(url, "sqlite://"@) {
        Some(r) => Some(r),
        None => spec_strip_prefix(url, "sqlite:"@),
    };
    match raw {
        None => None,
        Some(r) => {
            let path = before_first(r, '?');
            if path == ":memory:"@ || path.len() == 0 {
                None
            } else {
                Some(path)
            }
        },
    }
}

/// `s` without the prefix `p`, if `s` starts with `p`.
fn strip_prefix(s: &str, p: &str) -> (r: Option<String>)
    ensures
        match r {
            Some(rest) => spec_strip_prefix(s@, p@) == Some(rest@),
            None => spec_strip_prefix(s@, p@) is None,
        },
{
    let n = s.unicode_len();
    let m = p.unicode_len();
    if m > n {
        return None;
    }
    let mut i: usize = 0;
    while i < m
        invariant
            0 <= i <= m <= n,
            n == s@.len(),
            m == p@.len(),
            forall|j: int| 0 <= j < i ==> s@[j] == p@[j],
        decreases m - i,
    {
        if s.get_char(i) != p.get_char(i) {
            assert(s@.subrange(0, m as int)[i as int] != p@[i as int]);
            return None;
        }
        i = i + 1;
    }
    assert(s@.subrange(0, m as int) =~= p@);
    Some(s.substring_char(m, n).to_owned())
}

/// The part of `s` before the first `c`.
fn prefix_before(s: &str, c: char) -> (r: String)
    ensures
        r@ == before_first(s@, c),
{
    let n = s.unicode_len();
    let mut i: usize = 0;
    while i < n
        invariant
            0 <= i <= n,
            n == s@.len(),
            forall|j: int| 0 <= j < i ==> s@[j] != c,
        ensures
            0 <= i <= n,
            forall|j: int| 0 <= j < i ==> s@[j] != c,
            i < n ==> s@[i as int] == c,
        decreases n - i,
    {
        if s.get_char(i) == c {
            break;
        }
        i = i + 1;
    }
    proof {
        lemma_before_first(s@, c, i as int);
    }
    s.substring_char(0, i).to_owned()
}

/// If the first `c` in `s` is at `i` (or `s` holds none and `i` is its
/// length), the part before it is the first `i` characters.
proof fn lemma_before_first(s: Seq<char>, c: char, i: int)
    requires
        0 <= i <= s.len(),
        forall|j: int| 0 <= j < i ==> s[j] != c,
        i < s.len() ==> s[i] == c,
    ensures
        before_first(s, c) == s.subrange(0, i),
    decreases s.len(),
{
    if s.len() == 0 {
        assert(s.subrange(0, i) =~= s);
    } else if i == 0 {
        assert(s.subrange(0, 0) =~= Seq::<char>::empty());
    } else {
        lemma_before_first(s.drop_first(), c, i - 1);
        assert(s.subrange(0, i) =~= seq![s[0]] + s.drop_first().subrange(0, i - 1));
    }
}

/// The file that an SQLite URL names, if it names one: `None` for other URLs,
/// the in-memory database and an empty path.
pub fn sqlite_file_path(url: &str) -> (path: Option<String>)
    ensures
        match path {
            Some(p) => spec_sqlite_file_path(url@) == Some(p@),
            None => spec_sqlite_file_path(url@) is None,
        },
{
    let raw = match strip_prefix(url, "sqlite://") {
        Some(r) => r,
        None => match strip_prefix(url, "sqlite:") {
            Some(r) => r,
            None => return None,
        },
    };
    let path = prefix_before(raw.as_str(), '?');
    if path == String::from_str(":memory:") || path.as_str().is_empty() {
        None
    } else {
        Some(path)
    }
}

/// Whether sqlx accepts `url` as SQLite connection options: its query
/// parameters are ones sqlx knows with values it knows, and its path
/// percent-decodes to UTF-8.
pub uninterp spec fn sqlx_accepts_url(url: Seq<char>) -> bool;

/// Connection options as sqlx read them, with the URL they were read from.
pub struct ParsedOptions {
    options: SqliteConnectOptions,
    source: String,
}

impl ParsedOptions {
    /// The URL these options were read from.
    pub closed spec fn spec_source(&self) -> Seq<char> {
        self.source@
    }
}

/// `SqliteConnectOptions::from_str`: the connection options that sqlx reads
/// from the URL, kept with that URL, or its configuration error. Which it is
/// depends on the URL alone; what the options hold is not stated (an
/// in-memory database gets a name from a process-wide counter).
#[verifier::external_body]
fn parse_connect_options(url: &str) -> (r: Result<ParsedOptions, sqlx::Error>)
    ensures
        r is Ok <==> sqlx_accepts_url(url@),
        r matches Ok(p) ==> p.spec_source() == url@,
{
    url.parse::<SqliteConnectOptions>().map(|options| ParsedOptions { options, source: url.to_string() })
}

/// Connection options, with the URL they were read from and whether they
/// create a missing database file.
pub struct DbOptions {
    options: SqliteConnectOptions,
    source: String,
    creates_missing: bool,
}

impl DbOptions {
    /// Whether these options create the database file when it is missing.
    pub closed spec fn spec_creates_missing(&self) -> bool {
        self.creates_missing
    }

    /// The URL these options were read from.
    pub closed spec fn spec_source(&self) -> Seq<char> {
        self.source@
    }

    /// Whether these options create the database file when it is missing.
    pub fn creates_missing(&self) -> (b: bool)
        ensures
            b == self.spec_creates_missing(),
    {
        self.creates_missing
    }

    /// The URL these options were read from.
    pub fn source(&self) -> (s: &str)
        ensures
            s@ == self.spec_source(),
    {
        self.source.as_str()
    }

    /// The sqlx options to connect with.
    pub fn into_options(self) -> SqliteConnectOptions {
        self.options
    }
}

/// `SqliteConnectOptions::create_if_missing`: the same options, from the same
/// URL, asking for the file to be created when it does not exist exactly when
/// `create` holds.
#[verifier::external_body]
fn with_create_if_missing(parsed: ParsedOptions, create: bool) -> (r: DbOptions)
    ensures
        r.spec_source() == parsed.spec_source(),
        r.spec_creates_missing() == create,
{
    DbOptions {
        options: parsed.options.create_if_missing(create),
        source: parsed.source,
        creates_missing: create,
    }
}

/// The options the database is opened with: those that sqlx reads from
/// `url`, creating the file when it is missing; a URL that sqlx refuses gives
/// its database error.
pub fn sqlite_connect_options(url: &str) -> (r: Result<DbOptions, AppError>)
    ensures
        r is Ok <==> sqlx_accepts_url(url@),
        r matches Ok(o) ==> o.spec_source() == url@ && o.spec_creates_missing(),
        r matches Err(e) ==> e is Db,
{
    match parse_connect_options(url) {
        Ok(parsed) => Ok(with_create_if_missing(parsed, true)),
        Err(e) => Err(AppError::Db(e)),
    }
}

/// The 16 bytes that open every SQLite database file: `SQLite format 3`
/// and a zero byte.
pub open spec fn sqlite_magic() -> Seq<u8> {
    seq![0x53u8, 0x51, 0x4c, 0x69, 0x74, 0x65, 0x20, 0x66, 0x6f, 0x72, 0x6d, 0x61, 0x74, 0x20, 0x33, 0x00]
}

/// Whether a file's contents start like an SQLite database.
pub open spec fn spec_is_sqlite_file(contents: Seq<u8>) -> bool {
    contents.len() >= 16 && contents.subrange(0, 16) == sqlite_magic()
}

/// Decides from a file's contents whether it holds an SQLite database.
pub fn is_sqlite_file(contents: &[u8]) -> (valid: bool)
    ensures
        valid == spec_is_sqlite_file(contents@),
{
    if contents.len() == 0 {
        return false;
    }
    if contents.len() < 16 {
        return false;
    }
    let magic: Vec<u8> = vec![0x53u8, 0x51, 0x4c, 0x69, 0x74, 0x65, 0x20, 0x66, 0x6f, 0x72, 0x6d, 0x61, 0x74, 0x20, 0x33, 0x00];
    assert(magic@ =~= sqlite_magic());
    let mut i: usize = 0;
    while i < 16
        invariant
            0 <= i <= 16,
            contents@.len() >= 16,
            magic@ == sqlite_magic(),
            forall|j: int| 0 <= j < i ==> contents@[j] == sqlite_magic()[j],
        decreases 16 - i,
    {
        if contents[i] != magic[i] {
            assert(contents@.subrange(0, 16)[i as int] != sqlite_magic()[i as int]);
            return false;
        }
        i = i + 1;
    }
    assert(contents@.subrange(0, 16) =~= sqlite_magic());
    true
}

/// Where the plan for opening a database stands.
pub enum ConnectStage {
    /// Waiting for the database file's parent directory to be created.
    PreparingDir,
    /// Waiting to learn whether the file exists and what it holds.
    Inspecting,
    /// Waiting for a damaged file to be removed.
    Resetting,
    /// Waiting for the first connection attempt.
    FirstOpen,
    /// Waiting for the file to be removed after the first attempt failed.
    RetryReset,
    /// Waiting for the second and last connection attempt.
    RetryOpen,
    /// The plan has ended.
    Finished,
}

/// What the caller must do next to open the database.
pub enum ConnectAction {
    /// Create the parent directory of the database file, if it has one.
    EnsureParentDir { path: String },
    /// Report whether the file exists and, if it does, its contents; a file
    /// that cannot be read is reported as a failure, and is then recreated.
    InspectFile { path: String },
    /// Create the parent directory and remove the file if it exists.
    ResetFile { path: String },
    /// Connect to the URL and create the schema.
    Open,
    /// Stop: on `Ok` the database opened last is the result.
    Finish(Result<(), AppError>),
}

/// What the caller observed doing the last action.
pub enum ConnectEvent {
    /// A directory or file action completed.
    Done,
    /// The database file does not exist.
    FileMissing,
    /// The database file exists and holds these bytes.
    FileContents(Vec<u8>),
    /// The connection attempt succeeded.
    Opened,
    /// The action failed with this error.
    Failed(AppError),
}

/// The next action as the contracts see it.
pub enum ConnectActionView {
    EnsureParentDir { path: Seq<char> },
    InspectFile { path: Seq<char> },
    ResetFile { path: Seq<char> },
    Open,
    Finish(Result<(), AppError>),
}

impl View for ConnectAction {
    type V = ConnectActionView;

    open spec fn view(&self) -> ConnectActionView {
        match self {
            ConnectAction::EnsureParentDir { path } => ConnectActionView::EnsureParentDir { path: path@ },
            ConnectAction::InspectFile { path } => ConnectActionView::InspectFile { path: path@ },
            ConnectAction::ResetFile { path } => ConnectActionView::ResetFile { path: path@ },
            ConnectAction::Open => ConnectActionView::Open,
            ConnectAction::Finish(r) => ConnectActionView::Finish(*r),
        }
    }
}

/// The state of the plan that opens a database: the file its URL names, the
/// stage, and the error of the first connection attempt once it failed.
pub struct ConnectPlan {
    path: Option<String>,
    stage: ConnectStage,
    first_error: Option<AppError>,
}

/// The plan's state as the contracts see it.
pub struct ConnectPlanView {
    pub path: Option<Seq<char>>,
    pub stage: ConnectStage,
    pub first_error: Option<AppError>,
}

impl View for ConnectPlan {
    type V = ConnectPlanView;

    closed spec fn view(&self) -> ConnectPlanView {
        ConnectPlanView {
            path: match self.path {
                Some(p) => Some(p@),
                None => None,
            },
            stage: self.stage,
            first_error: self.first_error,
        }
    }
}

/// The plan's invariant: file stages only for file-backed URLs, and a first
/// error kept exactly while retrying.
pub open spec fn plan_wf(p: ConnectPlanView) -> bool {
    &&& (p.stage is PreparingDir || p.stage is Inspecting || p.stage is Resetting || p.stage is RetryReset
        || p.stage is RetryOpen) ==> p.path is Some
    &&& (p.stage is RetryReset || p.stage is RetryOpen) <==> p.first_error is Some
}

/// Whether the plan at stage `stage` can take `event`: each action has its
/// own observations, and any action can fail.
pub open spec fn spec_expects(stage: ConnectStage, event: ConnectEvent) -> bool {
    match event {
        ConnectEvent::Failed(_) => !(stage is Finished),
        ConnectEvent::Done => stage is PreparingDir || stage is Resetting || stage is RetryReset,
        ConnectEvent::FileMissing => stage is Inspecting,
        ConnectEvent::FileContents(_) => stage is Inspecting,
        ConnectEvent::Opened => stage is FirstOpen || stage is RetryOpen,
    }
}

/// The plan's state after it starts for `url`, and its first action.
pub open spec fn spec_connect_start(url: Seq<char>) -> (ConnectPlanView, ConnectActionView) {
    match spec_sqlite_file_path(url) {
        Some(p) => (
            ConnectPlanView { path: Some(p), stage: ConnectStage::PreparingDir, first_error: None },
            ConnectActionView::EnsureParentDir { path: p },
        ),
        None => (
            ConnectPlanView { path: None, stage: ConnectStage::FirstOpen, first_error: None },
            ConnectActionView::Open,
        ),
    }
}

/// The plan `p` moved to `stage`, keeping its file and first error.
pub open spec fn at_stage(p: ConnectPlanView, stage: ConnectStage) -> ConnectPlanView {
    ConnectPlanView { path: p.path, stage, first_error: p.first_error }
}

/// The plan's state and action after `event`.
pub open spec fn spec_connect_step(p: ConnectPlanView, event: ConnectEvent) -> (ConnectPlanView, ConnectActionView) {
    let path = p.path->0;
    let finished = ConnectPlanView { path: p.path, stage: ConnectStage::Finished, first_error: None };
    match event {
        ConnectEvent::Failed(e) => {
            if p.stage is FirstOpen && p.path is Some {
                (
                    ConnectPlanView { path: p.path, stage: ConnectStage::RetryReset, first_error: Some(e) },
                    ConnectActionView::ResetFile { path },
                )
            } else if p.stage is Inspecting {
                (at_stage(p, ConnectStage::Resetting), ConnectActionView::ResetFile { path })
            } else if p.stage is RetryOpen {
                (finished, ConnectActionView::Finish(Err(p.first_error->0)))
            } else {
                (finished, ConnectActionView::Finish(Err(e)))
            }
        },
        ConnectEvent::Done => {
            if p.stage is PreparingDir {
                (at_stage(p, ConnectStage::Inspecting), ConnectActionView::InspectFile { path })
            } else if p.stage is Resetting {
                (at_stage(p, ConnectStage::FirstOpen), ConnectActionView::Open)
            } else {
                (at_stage(p, ConnectStage::RetryOpen), ConnectActionView::Open)
            }
        },
        ConnectEvent::FileMissing => (at_stage(p, ConnectStage::FirstOpen), ConnectActionView::Open),
        ConnectEvent::FileContents(bytes) => {
            if spec_is_sqlite_file(bytes@) {
                (at_stage(p, ConnectStage::FirstOpen), ConnectActionView::Open)
            } else {
                (at_stage(p, ConnectStage::Resetting), ConnectActionView::ResetFile { path })
            }
        },
        ConnectEvent::Opened => (finished, ConnectActionView::Finish(Ok(()))),
    }
}

impl ConnectPlan {
    /// Whether the plan has ended.
    pub fn stage_is_finished(&self) -> (b: bool)
        ensures
            b == (self@.stage is Finished),
    {
        match self.stage {
            ConnectStage::Finished => true,
            _ => false,
        }
    }

    /// Whether the plan can take `event` now.
    pub fn expects(&self, event: &ConnectEvent) -> (b: bool)
        ensures
            b == spec_expects(self@.stage, *event),
    {
        match event {
            ConnectEvent::Failed(_) => !self.stage_is_finished(),
            ConnectEvent::Done => match self.stage {
                ConnectStage::PreparingDir | ConnectStage::Resetting | ConnectStage::RetryReset => true,
                _ => false,
            },
            ConnectEvent::FileMissing | ConnectEvent::FileContents(_) => match self.stage {
                ConnectStage::Inspecting => true,
                _ => false,
            },
            ConnectEvent::Opened => match self.stage {
                ConnectStage::FirstOpen | ConnectStage::RetryOpen => true,
                _ => false,
            },
        }
    }

    /// Starts the plan that opens the database at `url`: a file-backed URL
    /// first gets its parent directory, an in-memory one is opened at once.
    pub fn start(url: &str) -> (r: (ConnectPlan, ConnectAction))
        ensures
            plan_wf(r.0@),
            (r.0@, r.1@) == spec_connect_start(url@),
    {
        match sqlite_file_path(url) {
            Some(p) => {
                let action = ConnectAction::EnsureParentDir { path: p.clone() };
                (ConnectPlan { path: Some(p), stage: ConnectStage::PreparingDir, first_error: None }, action)
            },
            None => (ConnectPlan { path: None, stage: ConnectStage::FirstOpen, first_error: None }, ConnectAction::Open),
        }
    }

    /// Takes what the caller observed and says what to do next.
    pub fn step(&mut self, event: ConnectEvent) -> (action: ConnectAction)
        requires
            plan_wf(old(self)@),
            spec_expects(old(self)@.stage, event),
        ensures
            plan_wf(final(self)@),
            (final(self)@, action@) == spec_connect_step(old(self)@, event),
    {
        let path = match &self.path {
            Some(p) => p.clone(),
            None => String::new(),
        };
        match event {
            ConnectEvent::Failed(e) => {
                match self.stage {
                    ConnectStage::FirstOpen => {
                        if self.path.is_some() {
                            self.stage = ConnectStage::RetryReset;
                            self.first_error = Some(e);
                            ConnectAction::ResetFile { path }
                        } else {
                            self.stage = ConnectStage::Finished;
                            ConnectAction::Finish(Err(e))
                        }
                    },
                    ConnectStage::Inspecting => {
                        self.stage = ConnectStage::Resetting;
                        ConnectAction::ResetFile { path }
                    },
                    ConnectStage::RetryOpen => {
                        self.stage = ConnectStage::Finished;
                        let first = self.first_error.take();
                        match first {
                            Some(f) => ConnectAction::Finish(Err(f)),
                            None => ConnectAction::Finish(Err(e)),
                        }
                    },
                    _ => {
                        self.stage = ConnectStage::Finished;
                        self.first_error = None;
                        ConnectAction::Finish(Err(e))
                    },
                }
            },
            ConnectEvent::Done => {
                match self.stage {
                    ConnectStage::PreparingDir => {
                        self.stage = ConnectStage::Inspecting;
                        ConnectAction::InspectFile { path }
                    },
                    ConnectStage::Resetting => {
                        self.stage = ConnectStage::FirstOpen;
                        ConnectAction::Open
                    },
                    _ => {
                        self.stage = ConnectStage::RetryOpen;
                        ConnectAction::Open
                    },
                }
            },
            ConnectEvent::FileMissing => {
                self.stage = ConnectStage::FirstOpen;
                ConnectAction::Open
            },
            ConnectEvent::FileContents(bytes) => {
                if is_sqlite_file(bytes.as_slice()) {
                    self.stage = ConnectStage::FirstOpen;
                    ConnectAction::Open
                } else {
                    self.stage = ConnectStage::Resetting;
                    ConnectAction::ResetFile { path }
                }
            },
            ConnectEvent::Opened => {
                self.stage = ConnectStage::Finished;
                self.first_error = None;
                ConnectAction::Finish(Ok(()))
            },
        }
    }
}

/// How many steps the plan can still take at `stage`.
pub open spec fn stage_rank(stage: ConnectStage) -> nat {
    match stage {
        ConnectStage::PreparingDir => 6,
        ConnectStage::Inspecting => 5,
        ConnectStage::Resetting => 4,
        ConnectStage::FirstOpen => 3,
        ConnectStage::RetryReset => 2,
        ConnectStage::RetryOpen => 1,
        ConnectStage::Finished => 0,
    }
}

/// Every step brings the plan closer to its end, and a connection attempt is
/// asked for only on entering the first or the retry attempt; so the plan
/// ends, and connects at most twice.
pub proof fn lemma_connect_plan_bounded(p: ConnectPlanView, event: ConnectEvent)
    requires
        plan_wf(p),
        spec_expects(p.stage, event),
    ensures
        stage_rank(spec_connect_step(p, event).0.stage) < stage_rank(p.stage),
        spec_connect_step(p, event).1 is Open ==> (spec_connect_step(p, event).0.stage is FirstOpen
            || spec_connect_step(p, event).0.stage is RetryOpen),
        spec_connect_step(p, event).1 is Finish <==> spec_connect_step(p, event).0.stage is Finished,
{
}

/// When the retry fails too, the error reported is the first attempt's.
pub proof fn lemma_retry_reports_first_error(p: ConnectPlanView, e: AppError)
    requires
        plan_wf(p),
        p.stage is RetryOpen,
    ensures
        spec_connect_step(p, ConnectEvent::Failed(e)).1 == ConnectActionView::Finish(
            Err(p.first_error->0),
        ),
{
}

/// A URL that names no file is opened once and never retried: its plan does
/// no file work and a failure of the attempt ends it.
pub proof fn lemma_memory_url_single_attempt(url: Seq<char>, e: AppError)
    requires
        spec_sqlite_file_path(url) is None,
    ensures
        spec_connect_start(url).1 is Open,
        spec_connect_step(spec_connect_start(url).0, ConnectEvent::Failed(e)).1
            == ConnectActionView::Finish(Err(e)),
{
}

/// A damaged or unreadable file found before the first attempt is removed
/// before anything connects to it; an intact one is left alone.
pub proof fn lemma_damaged_file_reset(p: ConnectPlanView, contents: Vec<u8>, e: AppError)
    requires
        plan_wf(p),
        p.stage is Inspecting,
    ensures
        spec_connect_step(p, ConnectEvent::Failed(e)).1 == (ConnectActionView::ResetFile {
            path: p.path->0,
        }),
        spec_is_sqlite_file(contents@) ==> spec_connect_step(p, ConnectEvent::FileContents(contents)).1
            is Open,
        !spec_is_sqlite_file(contents@) ==> spec_connect_step(p, ConnectEvent::FileContents(contents)).1
            == (ConnectActionView::ResetFile { path: p.path->0 }),
{
}

/// Whether `s` starts with `p`.
pub open spec fn starts_with(s: Seq<char>, p: Seq<char>) -> bool {
    p.len() <= s.len() && s.subrange(0, p.len() as int) == p
}

/// The part before the first `c` is a prefix holding no `c`, followed by
/// nothing or by `c`.
proof fn lemma_before_first_split(s: Seq<char>, c: char)
    ensures
        s == before_first(s, c) + s.subrange(before_first(s, c).len() as int, s.len() as int),
        !before_first(s, c).contains(c),
        before_first(s, c).len() < s.len() ==> s[before_first(s, c).len() as int] == c,
    decreases s.len(),
{
    if s.len() > 0 && s[0] != c {
        lemma_before_first_split(s.drop_first(), c);
        let b = before_first(s.drop_first(), c);
        assert(before_first(s, c) =~= seq![s[0]] + b);
        assert(s =~= before_first(s, c) + s.subrange(b.len() + 1int, s.len() as int)) by {
            assert(s.drop_first() =~= b + s.drop_first().subrange(b.len() as int, s.len() - 1));
            assert(s.drop_first().subrange(b.len() as int, s.len() - 1) =~= s.subrange(b.len() + 1int, s.len() as int));
            assert(s =~= seq![s[0]] + s.drop_first());
            assert(seq![s[0]] + (b + s.subrange(b.len() + 1int, s.len() as int)) =~= (seq![s[0]] + b) + s.subrange(b.len() + 1int, s.len() as int));
        }
        if b.len() + 1 < s.len() {
            assert(s[b.len() + 1int] == s.drop_first()[b.len() as int]);
        }
        assert forall|k: int| 0 <= k < before_first(s, c).len() implies before_first(s, c)[k] != c by {
            if k > 0 {
                assert(before_first(s, c)[k] == b[k - 1]);
            }
        }
    } else if s.len() > 0 {
        assert(s.subrange(0, s.len() as int) =~= s);
        assert(Seq::<char>::empty() + s =~= s);
    } else {
        assert(Seq::<char>::empty() + s.subrange(0, 0) =~= s);
    }
}

/// What the file path of an SQLite URL is: none for a URL that does not
/// start with `sqlite:`; otherwise, after the scheme (`sqlite://` when the URL
/// starts so, else `sqlite:`), the text up to the first `?` or the end, which
/// holds no `?`; and it is a path exactly when that text is neither empty nor
/// `:memory:`.
pub proof fn lemma_sqlite_file_path_meaning(url: Seq<char>)
    ensures
        !starts_with(url, "sqlite:"@) ==> spec_sqlite_file_path(url) is None,
        starts_with(url, "sqlite:"@) ==> ({
            let scheme = if starts_with(url, "sqlite://"@) { "sqlite://"@ } else { "sqlite:"@ };
            exists|q: Seq<char>, rest: Seq<char>|
                #![trigger q + rest]
                url == scheme + q + rest && !q.contains('?') && (rest.len() == 0 || rest[0] == '?') && (
                spec_sqlite_file_path(url) == if q.len() == 0 || q == ":memory:"@ {
                    None
                } else {
                    Some(q)
                })
        }),
{
    reveal_strlit("sqlite:");
    reveal_strlit("sqlite://");
    if starts_with(url, "sqlite://"@) {
        assert(starts_with(url, "sqlite:"@)) by {
            assert(url.subrange(0, 7) =~= url.subrange(0, 9).subrange(0, 7));
            assert("sqlite://"@.subrange(0, 7) =~= "sqlite:"@);
        }
    }
    if starts_with(url, "sqlite:"@) {
        let scheme = if starts_with(url, "sqlite://"@) { "sqlite://"@ } else { "sqlite:"@ };
        let r = url.subrange(scheme.len() as int, url.len() as int);
        assert(spec_strip_prefix(url, scheme) == Some(r));
        lemma_before_first_split(r, '?');
        let q = before_first(r, '?');
        let rest = r.subrange(q.len() as int, r.len() as int);
        assert(url =~= scheme + r);
        assert(url == scheme + q + rest) by {
            assert(scheme + q + rest =~= scheme + (q + rest));
        }
        assert(rest.len() > 0 ==> rest[0] == r[q.len() as int]);
    } else {
        if spec_strip_prefix(url, "sqlite://"@) is Some {
            assert(url.subrange(0, 7) =~= url.subrange(0, 9).subrange(0, 7));
            assert("sqlite://"@.subrange(0, 7) =~= "sqlite:"@);
        }
    }
}

} // verus!
