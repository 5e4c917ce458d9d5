//! The exchange between the workflows and the system they act on.
//!
//! A workflow never touches the system itself. It runs against a journal of the replies that
//! the system gave so far; when it needs something the journal does not hold yet, it stops and
//! names the effect to perform. The caller performs that effect, appends the reply, and runs the
//! workflow again from the start: the same journal always leads to the same requests.

use vstd::prelude::*;
use crate::error::{AppError, io_message};
use crate::mountinfo::MountInfo;
use crate::system::AppContext;
use crate::cli::strings_view;
use crate::text::{concat2, owned};

verus! {

/// What a file system entry is.
#[derive(Clone, Copy, Debug, PartialEq, Eq, Structural)]
pub enum FileKind {
    Dir,
    File,
    Block,
    Symlink,
    Other,
}

/// What the metadata of an entry says.
#[derive(Clone, Copy, Debug, PartialEq, Eq, Structural)]
pub struct FileFacts {
    pub kind: FileKind,
    pub readonly: bool,
}

/// A failed system call: whether the entry was missing, and the text of the error.
#[derive(Clone, Debug)]
pub struct IoFailure {
    pub not_found: bool,
    pub message: String,
}

/// How a command's standard streams are connected.
#[derive(Clone, Debug)]
pub enum StdioMode {
    /// All three streams are the caller's (the command may prompt).
    Inherit,
    /// Like `Inherit`, with standard output discarded.
    QuietStdout,
    /// All three streams discarded.
    Null,
    /// Standard input empty; standard output captured.
    Capture,
    /// The text is written to standard input; output discarded.
    Feed(String),
}

/// How a command's streams are connected, the text written to its input as a sequence.
pub enum StreamsView {
    Inherit,
    QuietStdout,
    Null,
    Capture,
    Feed(Seq<char>),
}

impl View for StdioMode {
    type V = StreamsView;

    open spec fn view(&self) -> StreamsView {
        match self {
            StdioMode::Inherit => StreamsView::Inherit,
            StdioMode::QuietStdout => StreamsView::QuietStdout,
            StdioMode::Null => StreamsView::Null,
            StdioMode::Capture => StreamsView::Capture,
            StdioMode::Feed(t) => StreamsView::Feed(t@),
        }
    }
}

/// A command line asked to run, with how its streams are connected.
pub type CommandRun = (Seq<Seq<char>>, StreamsView);

/// A command that ran to its end: whether it succeeded, and what it printed when captured.
#[derive(Clone, Debug)]
pub struct Ran {
    pub success: bool,
    pub stdout: Vec<u8>,
}

/// The step at which filling a file with random data failed.
#[derive(Clone, Copy, Debug, PartialEq, Eq, Structural)]
pub enum FillStage {
    OpenRandom,
    Create,
    Read,
    Write,
    Sync,
}

/// A request to the system.
#[derive(Clone, Debug)]
pub enum Effect {
    /// Run `argv[0]` with the rest as arguments.
    Exec { argv: Vec<String>, stdio: StdioMode },
    /// The metadata of a path, following links.
    Metadata { path: String },
    /// The metadata of a path itself.
    SymlinkMetadata { path: String },
    /// The canonical form of a path.
    Canonicalize { path: String },
    /// The entries of `/proc/self/mountinfo`.
    ReadMounts,
    /// The entries of a directory, as paths.
    ListDir { path: String },
    /// The text of a file.
    ReadText { path: String },
    /// Whether standard input is a terminal.
    StdinIsTty,
    /// The process id and the nanoseconds since the epoch.
    Clock,
    /// Create `path` (mode 0600, new) and fill it with `size_mib` MiB from `/dev/urandom`.
    FillRandom { path: String, size_mib: u64, show_progress: bool },
    /// Set the permissions of a file to 0600.
    SetPrivate { path: String },
    /// Rename a file.
    Rename { from: String, to: String },
    /// Remove a file.
    RemoveFile { path: String },
}

/// The system's answer to an effect.
#[derive(Debug)]
pub enum Reply {
    Ran(Result<Ran, IoFailure>),
    Facts(Result<FileFacts, IoFailure>),
    Canonical(Result<String, IoFailure>),
    Mounts(Result<Vec<MountInfo>, IoFailure>),
    Entries(Result<Vec<Result<String, IoFailure>>, IoFailure>),
    Text(Result<String, IoFailure>),
    Tty(bool),
    Clock { pid: u32, nanos: u128 },
    Filled(Result<(), (FillStage, IoFailure)>),
    Done(Result<(), IoFailure>),
}

/// Why a workflow stopped early: it needs a reply that the journal does not hold yet, or it
/// failed.
#[derive(Clone, Debug)]
pub enum Halt {
    Pending,
    Failed(AppError),
}

/// The result of a workflow step.
pub type Step<T> = Result<T, Halt>;

/// A run of a workflow against a journal.
pub struct Session {
    pub ctx: AppContext,
    /// The replies not consumed yet, the next one last.
    pub replies: Vec<Reply>,
    /// The effect to perform next, once the journal is exhausted.
    pub need: Option<Effect>,
    /// Every effect requested so far, in order.
    pub issued: Ghost<Seq<Effect>>,
    /// Every reply consumed so far, in order.
    pub answered: Ghost<Seq<Reply>>,
    /// A temporary file to remove if the workflow fails.
    pub temp_file: Option<String>,
    /// Every answered request with its reply, in order.
    pub exchanges: Ghost<Seq<(Effect, Reply)>>,
}

/// The session `new` is `old` after it requested `e`: the context is unchanged; the next reply
/// is consumed if there is one, otherwise `e` is what the session needs.
pub open spec fn asked(old: Session, new: Session, e: Effect) -> bool {
    &&& new.ctx == old.ctx
    &&& new.temp_file == old.temp_file
    &&& new.issued@ == old.issued@.push(e)
    &&& if old.replies@.len() > 0 {
        &&& new.replies@ == old.replies@.drop_last()
        &&& new.answered@ == old.answered@.push(old.replies@.last())
        &&& new.exchanges@ == old.exchanges@.push((e, old.replies@.last()))
        &&& new.need == old.need
    } else {
        &&& new.replies@ == old.replies@
        &&& new.answered@ == old.answered@
        &&& new.exchanges@ == old.exchanges@
        &&& new.need == Some(e)
    }
}

/// `new` continues `old`: the requests and replies of `old` are a prefix of those of `new`, and
/// whatever `new` consumed came off the remaining journal in order.
pub open spec fn extends(old: Session, new: Session) -> bool {
    &&& prefix_of(old.issued@, new.issued@)
    &&& prefix_of(old.answered@, new.answered@)
    &&& prefix_of(old.exchanges@, new.exchanges@)
    &&& prefix_of(new.replies@, old.replies@)
    &&& new.answered@.len() - old.answered@.len() == old.replies@.len() - new.replies@.len()
}

/// Whether `a` is a prefix of `b`.
pub open spec fn prefix_of<A>(a: Seq<A>, b: Seq<A>) -> bool {
    a.len() <= b.len() && forall|i: int| #![trigger a[i]] #![trigger b[i]] 0 <= i < a.len() ==> a[i] == b[i]
}

/// The replies that `new` consumed since `old`.
pub open spec fn answered_since(old: Session, new: Session) -> Seq<Reply> {
    new.answered@.skip(old.answered@.len() as int)
}

/// A command that needed no sudo got at most one reply, and it decided the result: the run it
/// reports, or the error of a start that failed, or of a reply that did not match.
pub open spec fn single_run(old: Session, new: Session, r: Step<Result<Ran, IoFailure>>) -> bool {
    match r {
        Ok(x) => answered_since(old, new) == seq![Reply::Ran(x)],
        Err(Halt::Failed(e)) => answered_since(old, new).len() == 1 && !(answered_since(old, new)[0] is Ran)
            && e.message@ == mismatch_message(),
        Err(Halt::Pending) => answered_since(old, new).len() == 0,
    }
}

/// A captured command that needed no sudo got at most one reply: its output, or the error of
/// starting it in `context`, or of a reply that did not match.
pub open spec fn captured(old: Session, new: Session, r: Step<Ran>, context: Seq<char>) -> bool {
    match r {
        Ok(ran) => answered_since(old, new) == seq![Reply::Ran(Ok(ran))],
        Err(Halt::Failed(e)) => answered_since(old, new).len() == 1 && match answered_since(old, new)[0] {
            Reply::Ran(Err(f)) => e.message@ == io_message(context, f.message@),
            Reply::Ran(Ok(_)) => false,
            _ => e.message@ == mismatch_message(),
        },
        Err(Halt::Pending) => answered_since(old, new).len() == 0,
    }
}

/// The requests that `new` made after `old`.
pub open spec fn issued_since(old: Session, new: Session) -> Seq<Effect> {
    new.issued@.skip(old.issued@.len() as int)
}

/// A request other than running a program, with the paths it names.
pub enum QueryView {
    Metadata(Seq<char>),
    SymlinkMetadata(Seq<char>),
    Canonicalize(Seq<char>),
    ReadMounts,
    ListDir(Seq<char>),
    ReadText(Seq<char>),
    StdinIsTty,
    Clock,
    FillRandom(Seq<char>, u64),
    SetPrivate(Seq<char>),
    Rename(Seq<char>, Seq<char>),
    RemoveFile(Seq<char>),
}

/// What a request asks of the system when it runs no program.
pub open spec fn query_of(e: Effect) -> Option<QueryView> {
    match e {
        Effect::Exec { .. } => None,
        Effect::Metadata { path } => Some(QueryView::Metadata(path@)),
        Effect::SymlinkMetadata { path } => Some(QueryView::SymlinkMetadata(path@)),
        Effect::Canonicalize { path } => Some(QueryView::Canonicalize(path@)),
        Effect::ReadMounts => Some(QueryView::ReadMounts),
        Effect::ListDir { path } => Some(QueryView::ListDir(path@)),
        Effect::ReadText { path } => Some(QueryView::ReadText(path@)),
        Effect::StdinIsTty => Some(QueryView::StdinIsTty),
        Effect::Clock => Some(QueryView::Clock),
        Effect::FillRandom { path, size_mib, .. } => Some(QueryView::FillRandom(path@, size_mib)),
        Effect::SetPrivate { path } => Some(QueryView::SetPrivate(path@)),
        Effect::Rename { from, to } => Some(QueryView::Rename(from@, to@)),
        Effect::RemoveFile { path } => Some(QueryView::RemoveFile(path@)),
    }
}

/// The requests among `es` that run no program, in order.
pub open spec fn queries(es: Seq<Effect>) -> Seq<QueryView>
    decreases es.len(),
{
    if es.len() == 0 {
        Seq::empty()
    } else {
        match query_of(es[0]) {
            Some(q) => seq![q] + queries(es.drop_first()),
            None => queries(es.drop_first()),
        }
    }
}

/// The requests that `new` made since `old` without running a program.
pub open spec fn queries_since(old: Session, new: Session) -> Seq<QueryView> {
    queries(issued_since(old, new))
}

/// The request that `new` made `k` requests after `old` ran no program and asked `q`.
pub open spec fn asked_at(old: Session, new: Session, k: int, q: QueryView) -> bool {
    &&& 0 <= k
    &&& new.issued@.len() > old.issued@.len() + k
    &&& query_of(new.issued@[old.issued@.len() + k]) == Some(q)
}

/// Some request that `new` made since `old` ran no program and asked `q`.
pub open spec fn asked_since(old: Session, new: Session, q: QueryView) -> bool {
    exists|k: int| #[trigger] asked_at(old, new, k, q)
}

/// What was asked between `b` and `c` was asked between any `a` before `b` and `d` after
/// `c`.
pub proof fn lemma_asked_within(a: Session, b: Session, c: Session, d: Session, q: QueryView)
    requires
        prefix_of(a.issued@, b.issued@),
        prefix_of(c.issued@, d.issued@),
        asked_since(b, c, q),
    ensures
        asked_since(a, d, q),
{
    let k = choose|k: int| #[trigger] asked_at(b, c, k, q);
    let j = k + b.issued@.len() - a.issued@.len();
    assert(d.issued@[a.issued@.len() + j] == c.issued@[b.issued@.len() + k]);
    assert(asked_at(a, d, j, q));
}

/// What was asked since `a` up to `b` stays asked as more requests follow.
pub proof fn lemma_asked_kept(a: Session, b: Session, c: Session)
    requires
        prefix_of(b.issued@, c.issued@),
    ensures
        forall|k: int, q: QueryView| #[trigger] asked_at(a, b, k, q) ==> asked_at(a, c, k, q),
{
    assert forall|k: int, q: QueryView| #[trigger] asked_at(a, b, k, q) implies asked_at(a, c, k, q) by {
        assert(c.issued@[a.issued@.len() + k] == b.issued@[a.issued@.len() + k]);
    }
}

/// The queries of two runs of requests are those of each, in order.
pub proof fn lemma_queries_add(a: Seq<Effect>, b: Seq<Effect>)
    ensures
        queries(a + b) == queries(a) + queries(b),
    decreases a.len(),
{
    if a.len() == 0 {
        assert(a + b =~= b);
        assert(queries(a) + queries(b) =~= queries(b));
    } else {
        lemma_queries_add(a.drop_first(), b);
        assert((a + b).drop_first() =~= a.drop_first() + b);
        match query_of(a[0]) {
            Some(q) => {
                assert(seq![q] + (queries(a.drop_first()) + queries(b)) =~= (seq![q] + queries(a.drop_first())) + queries(b));
            },
            None => {},
        }
    }
}

/// What one session asked across two steps is what it asked in each, in order.
pub broadcast proof fn lemma_queries_chain(a: Session, b: Session, c: Session)
    requires
        extends(a, b),
        extends(b, c),
    ensures
        #![trigger queries_since(a, b), queries_since(b, c)]
        queries_since(a, c) == queries_since(a, b) + queries_since(b, c),
{
    assert(issued_since(a, c) =~= issued_since(a, b) + issued_since(b, c));
    lemma_queries_add(issued_since(a, b), issued_since(b, c));
}

/// Requests that all run programs ask nothing else.
pub proof fn lemma_only_runs(es: Seq<Effect>)
    requires
        forall|i: int| 0 <= i < es.len() ==> is_exec(#[trigger] es[i]),
    ensures
        queries(es) == Seq::<QueryView>::empty(),
    decreases es.len(),
{
    if es.len() > 0 {
        assert(is_exec(es[0]));
        assert forall|i: int| 0 <= i < es.drop_first().len() implies is_exec(#[trigger] es.drop_first()[i]) by {
            assert(es.drop_first()[i] == es[i + 1]);
        }
        lemma_only_runs(es.drop_first());
    }
}

/// Refreshing sudo asks nothing but to run `sudo -v`.
pub proof fn lemma_sudo_asks_nothing(old: Session, new: Session)
    requires
        ran_nothing_but_sudo(old, new),
    ensures
        queries_since(old, new) == Seq::<QueryView>::empty(),
{
    assert forall|i: int| 0 <= i < issued_since(old, new).len() implies is_exec(#[trigger] issued_since(old, new)[i]) by {
        assert(issued_since(old, new)[i] is Exec);
    }
    lemma_only_runs(issued_since(old, new));
}

/// A single request asks what it asks.
pub proof fn lemma_one_query(e: Effect)
    ensures
        queries(seq![e]) == match query_of(e) {
            Some(q) => seq![q],
            None => Seq::<QueryView>::empty(),
        },
{
    assert(seq![e].drop_first() =~= Seq::<Effect>::empty());
    assert(queries(Seq::<Effect>::empty()) =~= Seq::<QueryView>::empty());
    assert(seq![e][0] == e);
    match query_of(e) {
        Some(q) => { assert(seq![q] + Seq::<QueryView>::empty() =~= seq![q]); },
        None => {},
    }
}

/// The command lines that the requests `es` run, in order, each with its streams.
pub open spec fn command_lines(es: Seq<Effect>) -> Seq<CommandRun>
    decreases es.len(),
{
    if es.len() == 0 {
        Seq::empty()
    } else {
        match es[0] {
            Effect::Exec { argv, stdio } => seq![(strings_view(argv@), stdio@)] + command_lines(es.drop_first()),
            _ => command_lines(es.drop_first()),
        }
    }
}

/// The command lines that `new` asked to run since `old`, the one it waits for included.
pub open spec fn runs_since(old: Session, new: Session) -> Seq<CommandRun> {
    command_lines(issued_since(old, new))
}

/// The command lines of two runs of requests are those of each, in order.
pub proof fn lemma_command_lines_add(a: Seq<Effect>, b: Seq<Effect>)
    ensures
        command_lines(a + b) == command_lines(a) + command_lines(b),
    decreases a.len(),
{
    if a.len() == 0 {
        assert(a + b =~= b);
        assert(command_lines(a) + command_lines(b) =~= command_lines(b));
    } else {
        lemma_command_lines_add(a.drop_first(), b);
        assert((a + b).drop_first() =~= a.drop_first() + b);
        match a[0] {
            Effect::Exec { argv, stdio } => {
                assert(seq![(strings_view(argv@), stdio@)] + (command_lines(a.drop_first()) + command_lines(b))
                    =~= (seq![(strings_view(argv@), stdio@)] + command_lines(a.drop_first())) + command_lines(b));
            },
            _ => {},
        }
    }
}

/// Requests of which none runs a program run no command line.
pub proof fn lemma_no_command_lines(es: Seq<Effect>)
    requires
        forall|i: int| 0 <= i < es.len() ==> !is_exec(#[trigger] es[i]),
    ensures
        command_lines(es) == Seq::<CommandRun>::empty(),
    decreases es.len(),
{
    if es.len() > 0 {
        assert(!is_exec(es[0]));
        assert forall|i: int| 0 <= i < es.drop_first().len() implies !is_exec(#[trigger] es.drop_first()[i]) by {
            assert(es.drop_first()[i] == es[i + 1]);
        }
        lemma_no_command_lines(es.drop_first());
    }
}

/// A single request runs its command line, if it runs one.
pub proof fn lemma_one_request(e: Effect)
    ensures
        command_lines(seq![e]) == match e {
            Effect::Exec { argv, stdio } => seq![(strings_view(argv@), stdio@)],
            _ => Seq::<CommandRun>::empty(),
        },
{
    assert(seq![e].drop_first() =~= Seq::<Effect>::empty());
    assert(command_lines(Seq::<Effect>::empty()) =~= Seq::<CommandRun>::empty());
    match e {
        Effect::Exec { argv, stdio } => {
            assert(seq![(strings_view(argv@), stdio@)] + Seq::<CommandRun>::empty() =~= seq![(strings_view(argv@), stdio@)]);
        },
        _ => {},
    }
}

/// A step that asked nothing asked to run no command line.
pub proof fn lemma_no_requests(old: Session, new: Session)
    requires
        new.issued@ == old.issued@,
    ensures
        runs_since(old, new) == Seq::<CommandRun>::empty(),
{
    assert(issued_since(old, new) =~= Seq::<Effect>::empty());
    assert(command_lines(Seq::<Effect>::empty()) =~= Seq::<CommandRun>::empty());
}

/// What one session asked to run across two steps is what it asked in each, in order.
pub broadcast proof fn lemma_runs_chain(a: Session, b: Session, c: Session)
    requires
        extends(a, b),
        extends(b, c),
    ensures
        #![trigger runs_since(a, b), runs_since(b, c)]
        runs_since(a, c) == runs_since(a, b) + runs_since(b, c),
{
    assert(issued_since(a, c) =~= issued_since(a, b) + issued_since(b, c));
    lemma_command_lines_add(issued_since(a, b), issued_since(b, c));
}

/// A step between others that touched no request or reply: what the whole asked to run, and
/// the journal before and after, are the step's.
pub proof fn lemma_framed_step(a: Session, b: Session, c: Session, d: Session)
    requires
        b.issued@ == a.issued@,
        b.replies@ == a.replies@,
        d.issued@ == c.issued@,
        d.replies@ == c.replies@,
        extends(b, c),
    ensures
        runs_since(a, d) == runs_since(b, c),
        journal(a) == journal(b),
        journal(d) == journal(c),
        issued_since(a, d) == issued_since(b, c),
{
    assert(issued_since(a, d) =~= issued_since(b, c));
}

/// Two steps with, between them, nothing but changes to the context: what the whole asked
/// to run is what each asked, in order; the second began where the first left the journal.
pub proof fn lemma_two_steps(a: Session, b: Session, c: Session, d: Session)
    requires
        extends(a, b),
        c.issued@ == b.issued@,
        c.replies@ == b.replies@,
        c.answered@ == b.answered@,
        c.exchanges@ == b.exchanges@,
        extends(c, d),
    ensures
        runs_since(a, d) == runs_since(a, b) + runs_since(c, d),
        journal(c) == journal(b),
        extends(a, d),
{
    assert(issued_since(a, d) =~= issued_since(a, b) + issued_since(c, d));
    lemma_command_lines_add(issued_since(a, b), issued_since(c, d));
}

/// Two quiet steps make a quiet step.
pub proof fn lemma_quiet_chain(a: Session, b: Session, c: Session)
    requires
        quiet(a, b),
        quiet(b, c),
    ensures
        quiet(a, c),
{
    assert forall|i: int| a.issued@.len() <= i < c.issued@.len() implies !is_exec(#[trigger] c.issued@[i]) by {
        if i < b.issued@.len() {
            assert(c.issued@[i] == b.issued@[i]);
        }
    }
}

/// A step that ran nothing asked to run no command line.
pub broadcast proof fn lemma_quiet_runs(old: Session, new: Session)
    requires
        quiet(old, new),
    ensures
        #[trigger] runs_since(old, new) == Seq::<CommandRun>::empty(),
{
    assert forall|i: int| 0 <= i < issued_since(old, new).len() implies !is_exec(#[trigger] issued_since(old, new)[i]) by {
        assert(issued_since(old, new)[i] == new.issued@[old.issued@.len() + i]);
    }
    lemma_no_command_lines(issued_since(old, new));
}

/// Whether a request runs a program.
pub open spec fn is_exec(e: Effect) -> bool {
    e is Exec
}

/// Whether `new` asked to run no program since `old`: none of its requests since, and not
/// what it needs now if that changed.
pub open spec fn ran_nothing(old: Session, new: Session) -> bool {
    &&& forall|i: int| old.issued@.len() <= i < new.issued@.len() ==> !is_exec(#[trigger] new.issued@[i])
    &&& new.need != old.need ==> (new.need matches Some(e) && !is_exec(e))
}

/// `new` continues `old` without running anything or changing the context.
pub open spec fn quiet(old: Session, new: Session) -> bool {
    extends(old, new) && new.ctx == old.ctx && new.temp_file == old.temp_file && ran_nothing(old, new)
}

/// The error message for a reply that does not answer the request.
pub open spec fn mismatch_message() -> Seq<char> {
    "The system reply does not match the request."@
}

/// The replies that `s` has not consumed yet, in the order it will consume them.
pub open spec fn journal(s: Session) -> Seq<Reply> {
    s.replies@.reverse()
}

/// What a step comes to on a journal.
pub enum Outcome<V> {
    /// The journal ends before the step does: the step needs the reply to a request, the
    /// query named here, or, where none is named, the last command line the step runs.
    Short(Option<QueryView>),
    /// The step ends with a value or an error message, having consumed `used` replies.
    Ends { result: Result<V, Seq<char>>, used: nat },
}

/// An outcome reached after `n` replies were consumed first.
pub open spec fn after<V>(n: nat, o: Outcome<V>) -> Outcome<V> {
    match o {
        Outcome::Short(w) => Outcome::Short(w),
        Outcome::Ends { result, used } => Outcome::Ends { result, used: n + used },
    }
}

/// What asking for the process id and the time comes to: what the reply says.
pub open spec fn clock_outcome(js: Seq<Reply>) -> Outcome<(u32, u128)> {
    if js.len() == 0 {
        Outcome::Short(Some(QueryView::Clock))
    } else {
        match js[0] {
            Reply::Clock { pid, nanos } => Outcome::Ends { result: Ok((pid, nanos)), used: 1 },
            _ => Outcome::Ends { result: Err(mismatch_message()), used: 1 },
        }
    }
}

/// `s` waits for the reply to its last request, which is the query `w` names, or, where
/// none is named, a program run.
pub open spec fn waits(s: Session, w: Option<QueryView>) -> bool {
    &&& s.issued@.len() > 0
    &&& s.need == Some(s.issued@.last())
    &&& match w {
        Some(q) => query_of(s.issued@.last()) == Some(q),
        None => s.issued@.last() is Exec,
    }
}

/// A step that returned `r` came to `out`: it returned `out`'s value (as seen through
/// `view`) or failed with `out`'s message, after consuming exactly `out`'s replies; it stopped
/// for another reply exactly when `out` is short.
pub open spec fn settles<T, V>(old: Session, new: Session, r: Step<T>, out: Outcome<V>, view: spec_fn(T) -> V) -> bool {
    match out {
        Outcome::Short(w) => r matches Err(Halt::Pending) && waits(new, w),
        Outcome::Ends { result, used } => {
            &&& used <= journal(old).len()
            &&& journal(new) == journal(old).skip(used as int)
            &&& match (r, result) {
                (Ok(v), Ok(w)) => view(v) == w,
                (Err(Halt::Failed(e)), Err(m)) => e.message@ == m,
                _ => false,
            }
        },
    }
}

/// Asking consumes the first reply of the journal, if there is one.
pub proof fn lemma_asked_journal(old: Session, new: Session, e: Effect)
    requires
        asked(old, new, e),
    ensures
        old.replies@.len() == 0 ==> journal(old).len() == 0,
        old.replies@.len() > 0 ==> journal(old).len() > 0 && journal(old)[0] == old.replies@.last()
            && journal(new) == journal(old).skip(1),
{
    if old.replies@.len() > 0 {
        assert(journal(new) =~= journal(old).skip(1));
    }
}

/// An error for a failed system call in a context.
pub fn io_error(context: &str, failure: &IoFailure) -> (r: Halt)
    ensures
        r matches Halt::Failed(e) && e.message@ == io_message(context@, failure.message@) && e.exit_code == 1,
{
    Halt::Failed(AppError::io(context, failure.message.as_str()))
}

/// A failure with the given message.
pub fn fail(message: String) -> (r: Halt)
    ensures
        r matches Halt::Failed(e) && e.message@ == message@ && e.exit_code == 1,
{
    Halt::Failed(AppError::new(message))
}

fn mismatch() -> (r: Halt)
    ensures
        r matches Halt::Failed(e) && e.message@ == mismatch_message(),
{
    let m = crate::text::owned("The system reply does not match the request.");
    proof { reveal_strlit("The system reply does not match the request."); }
    fail(m)
}

impl Session {
    /// A session for `ctx` over the journal `journal`, oldest reply first.
    pub fn new(ctx: AppContext, journal: Vec<Reply>) -> (r: Session)
        ensures
            r.ctx == ctx,
            r.replies@ == journal@.reverse(),
            r.need is None,
            r.issued@.len() == 0,
            r.answered@.len() == 0,
            r.temp_file is None,
            r.exchanges@.len() == 0,
            crate::session::journal(r) == journal@,
    {
        let mut journal = journal;
        let ghost original = journal@;
        let mut replies: Vec<Reply> = Vec::new();
        while journal.len() > 0
            invariant
                original.len() == journal@.len() + replies@.len(),
                journal@ == original.take(journal@.len() as int),
                replies@ == original.skip(journal@.len() as int).reverse(),
            decreases journal.len(),
        {
            let item = journal.pop().unwrap();
            proof {
                let n = journal@.len() as int;
                assert(original.skip(n) =~= seq![item] + original.skip(n + 1));
                assert(original.skip(n).reverse() =~= original.skip(n + 1).reverse().push(item));
            }
            replies.push(item);
        }
        assert(original.skip(0) =~= original);
        assert(original.reverse().reverse() =~= original);
        Session { ctx, replies, need: None, issued: Ghost(Seq::empty()), answered: Ghost(Seq::empty()), temp_file: None, exchanges: Ghost(Seq::empty()) }
    }

    /// Requests `e`: the next reply of the journal, or a stop that names `e`.
    pub fn ask(&mut self, e: Effect) -> (r: Step<Reply>)
        ensures
            asked(*old(self), *final(self), e),
            extends(*old(self), *final(self)),
            old(self).replies@.len() > 0 ==> r == Ok::<Reply, Halt>(old(self).replies@.last()),
            old(self).replies@.len() == 0 ==> r is Err && r->Err_0 is Pending,
    {
        proof { self.issued@ = self.issued@.push(e); }
        match self.replies.pop() {
            Some(reply) => {
                proof {
                    self.answered@ = self.answered@.push(reply);
                    self.exchanges@ = self.exchanges@.push((e, reply));
                }
                Ok(reply)
            },
            None => {
                self.need = Some(e);
                Err(Halt::Pending)
            },
        }
    }

    /// Requests `e` and takes its reply as a `Ran` reply.
    pub fn ask_ran(&mut self, e: Effect) -> (r: Step<Result<Ran, IoFailure>>)
        ensures
            asked(*old(self), *final(self), e),
            extends(*old(self), *final(self)),
            r matches Ok(x) ==> old(self).replies@.len() > 0 && old(self).replies@.last() == Reply::Ran(x),
            old(self).replies@.len() > 0 && old(self).replies@.last() is Ran ==> r is Ok,
            r matches Err(h) ==> (h is Pending <==> old(self).replies@.len() == 0),
            r matches Err(Halt::Failed(err)) ==> err.message@ == mismatch_message(),
    {
        match self.ask(e)? {
            Reply::Ran(x) => Ok(x),
            _ => Err(mismatch()),
        }
    }

    /// Requests `e` and takes its reply as a `Facts` reply.
    pub fn ask_facts(&mut self, e: Effect) -> (r: Step<Result<FileFacts, IoFailure>>)
        ensures
            asked(*old(self), *final(self), e),
            extends(*old(self), *final(self)),
            r matches Ok(x) ==> old(self).replies@.len() > 0 && old(self).replies@.last() == Reply::Facts(x),
            old(self).replies@.len() > 0 && old(self).replies@.last() is Facts ==> r is Ok,
            r matches Err(h) ==> (h is Pending <==> old(self).replies@.len() == 0),
            r matches Err(Halt::Failed(err)) ==> err.message@ == mismatch_message(),
    {
        match self.ask(e)? {
            Reply::Facts(x) => Ok(x),
            _ => Err(mismatch()),
        }
    }

    /// Requests `e` and takes its reply as a `Canonical` reply.
    pub fn ask_canonical(&mut self, e: Effect) -> (r: Step<Result<String, IoFailure>>)
        ensures
            asked(*old(self), *final(self), e),
            extends(*old(self), *final(self)),
            r matches Ok(x) ==> old(self).replies@.len() > 0 && old(self).replies@.last() == Reply::Canonical(x),
            old(self).replies@.len() > 0 && old(self).replies@.last() is Canonical ==> r is Ok,
            r matches Err(h) ==> (h is Pending <==> old(self).replies@.len() == 0),
            r matches Err(Halt::Failed(err)) ==> err.message@ == mismatch_message(),
    {
        match self.ask(e)? {
            Reply::Canonical(x) => Ok(x),
            _ => Err(mismatch()),
        }
    }

    /// Requests `e` and takes its reply as a `Mounts` reply.
    pub fn ask_mounts(&mut self, e: Effect) -> (r: Step<Result<Vec<MountInfo>, IoFailure>>)
        ensures
            asked(*old(self), *final(self), e),
            extends(*old(self), *final(self)),
            r matches Ok(x) ==> old(self).replies@.len() > 0 && old(self).replies@.last() == Reply::Mounts(x),
            old(self).replies@.len() > 0 && old(self).replies@.last() is Mounts ==> r is Ok,
            r matches Err(h) ==> (h is Pending <==> old(self).replies@.len() == 0),
            r matches Err(Halt::Failed(err)) ==> err.message@ == mismatch_message(),
    {
        match self.ask(e)? {
            Reply::Mounts(x) => Ok(x),
            _ => Err(mismatch()),
        }
    }

    /// Requests `e` and takes its reply as a `Entries` reply.
    pub fn ask_entries(&mut self, e: Effect) -> (r: Step<Result<Vec<Result<String, IoFailure>>, IoFailure>>)
        ensures
            asked(*old(self), *final(self), e),
            extends(*old(self), *final(self)),
            r matches Ok(x) ==> old(self).replies@.len() > 0 && old(self).replies@.last() == Reply::Entries(x),
            old(self).replies@.len() > 0 && old(self).replies@.last() is Entries ==> r is Ok,
            r matches Err(h) ==> (h is Pending <==> old(self).replies@.len() == 0),
            r matches Err(Halt::Failed(err)) ==> err.message@ == mismatch_message(),
    {
        match self.ask(e)? {
            Reply::Entries(x) => Ok(x),
            _ => Err(mismatch()),
        }
    }

    /// Requests `e` and takes its reply as a `Text` reply.
    pub fn ask_text(&mut self, e: Effect) -> (r: Step<Result<String, IoFailure>>)
        ensures
            asked(*old(self), *final(self), e),
            extends(*old(self), *final(self)),
            r matches Ok(x) ==> old(self).replies@.len() > 0 && old(self).replies@.last() == Reply::Text(x),
            old(self).replies@.len() > 0 && old(self).replies@.last() is Text ==> r is Ok,
            r matches Err(h) ==> (h is Pending <==> old(self).replies@.len() == 0),
            r matches Err(Halt::Failed(err)) ==> err.message@ == mismatch_message(),
    {
        match self.ask(e)? {
            Reply::Text(x) => Ok(x),
            _ => Err(mismatch()),
        }
    }

    /// Requests `e` and takes its reply as a `Tty` reply.
    pub fn ask_tty(&mut self, e: Effect) -> (r: Step<bool>)
        ensures
            asked(*old(self), *final(self), e),
            extends(*old(self), *final(self)),
            r matches Ok(x) ==> old(self).replies@.len() > 0 && old(self).replies@.last() == Reply::Tty(x),
            old(self).replies@.len() > 0 && old(self).replies@.last() is Tty ==> r is Ok,
            r matches Err(h) ==> (h is Pending <==> old(self).replies@.len() == 0),
            r matches Err(Halt::Failed(err)) ==> err.message@ == mismatch_message(),
    {
        match self.ask(e)? {
            Reply::Tty(x) => Ok(x),
            _ => Err(mismatch()),
        }
    }

    /// Requests `e` and takes its reply as a `Filled` reply.
    pub fn ask_filled(&mut self, e: Effect) -> (r: Step<Result<(), (FillStage, IoFailure)>>)
        ensures
            asked(*old(self), *final(self), e),
            extends(*old(self), *final(self)),
            r matches Ok(x) ==> old(self).replies@.len() > 0 && old(self).replies@.last() == Reply::Filled(x),
            old(self).replies@.len() > 0 && old(self).replies@.last() is Filled ==> r is Ok,
            r matches Err(h) ==> (h is Pending <==> old(self).replies@.len() == 0),
            r matches Err(Halt::Failed(err)) ==> err.message@ == mismatch_message(),
    {
        match self.ask(e)? {
            Reply::Filled(x) => Ok(x),
            _ => Err(mismatch()),
        }
    }

    /// Requests `e` and takes its reply as a `Done` reply.
    pub fn ask_done(&mut self, e: Effect) -> (r: Step<Result<(), IoFailure>>)
        ensures
            asked(*old(self), *final(self), e),
            extends(*old(self), *final(self)),
            r matches Ok(x) ==> old(self).replies@.len() > 0 && old(self).replies@.last() == Reply::Done(x),
            old(self).replies@.len() > 0 && old(self).replies@.last() is Done ==> r is Ok,
            r matches Err(h) ==> (h is Pending <==> old(self).replies@.len() == 0),
            r matches Err(Halt::Failed(err)) ==> err.message@ == mismatch_message(),
    {
        match self.ask(e)? {
            Reply::Done(x) => Ok(x),
            _ => Err(mismatch()),
        }
    }

    /// Requests the process id and the time.
    pub fn ask_clock(&mut self) -> (r: Step<(u32, u128)>)
        ensures
            asked(*old(self), *final(self), Effect::Clock),
            extends(*old(self), *final(self)),
            r matches Ok(x) ==> old(self).replies@.len() > 0 && old(self).replies@.last() == (Reply::Clock { pid: x.0, nanos: x.1 }),
            r matches Err(h) ==> (h is Pending <==> old(self).replies@.len() == 0),
            settles(*old(self), *final(self), r, clock_outcome(journal(*old(self))), |x: (u32, u128)| x),
    {
        let got = self.ask(Effect::Clock);
        proof { lemma_asked_journal(*old(self), *self, Effect::Clock); }
        match got? {
            Reply::Clock { pid, nanos } => Ok((pid, nanos)),
            _ => Err(mismatch()),
        }
    }
}


/// The context `new` keeps what `old` set up: the tools, the privilege and the kind of output;
/// sudo, once ready, stays ready.
pub open spec fn same_setup(old: AppContext, new: AppContext) -> bool {
    &&& new.tools == old.tools
    &&& new.is_root == old.is_root
    &&& new.output.mode == old.output.mode
    &&& old.sudo_ready ==> new.sudo_ready
}

/// `new` keeps the plans of `old`: the mapper to close, the fallback notice, and the temporary
/// file to remove.
pub open spec fn same_plans(old: Session, new: Session) -> bool {
    &&& new.ctx.cleanup_mapper == old.ctx.cleanup_mapper
    &&& new.ctx.veracrypt_fallback_noticed == old.ctx.veracrypt_fallback_noticed
    &&& new.temp_file == old.temp_file
}

/// The command line that runs `program` with `args`: behind `sudo` when it is privileged and
/// the process is not root.
pub open spec fn command_argv(ctx: AppContext, program: Seq<char>, args: Seq<Seq<char>>, privileged: bool) -> Seq<Seq<char>> {
    privileged_argv(privilege(ctx), program, args, privileged)
}

/// What decides how a command runs: the tools, and whether the process is root or has
/// refreshed sudo.
pub struct Privilege {
    pub tools: crate::system::ToolPaths,
    pub is_root: bool,
    pub sudo_ready: bool,
}

/// The privilege of a context.
pub open spec fn privilege(ctx: AppContext) -> Privilege {
    Privilege { tools: ctx.tools, is_root: ctx.is_root, sudo_ready: ctx.sudo_ready }
}

/// The command line that runs `program` with `args` under the privilege `ctx`: behind `sudo`
/// when it is privileged and the process is not root.
pub open spec fn privileged_argv(ctx: Privilege, program: Seq<char>, args: Seq<Seq<char>>, privileged: bool) -> Seq<Seq<char>> {
    if privileged && !ctx.is_root && ctx.tools.sudo is Some {
        seq![ctx.tools.sudo->0@, program] + args
    } else {
        seq![program] + args
    }
}

/// The last request of `s` ran `argv` with the streams `stdio`, and the run succeeded.
pub open spec fn last_run_succeeded(s: Session, argv: Seq<Seq<char>>, stdio: StdioMode) -> bool {
    &&& s.issued@.len() > 0
    &&& s.answered@.len() > 0
    &&& s.issued@.last() matches Effect::Exec { argv: a, stdio: m } && strings_view(a@) == argv && m == stdio
    &&& s.answered@.last() matches Reply::Ran(Ok(ran)) && ran.success
}

/// Whether an exchange ran `argv` successfully.
pub open spec fn ran_ok(x: (Effect, Reply), argv: Seq<Seq<char>>) -> bool {
    &&& x.0 matches Effect::Exec { argv: a, .. } && strings_view(a@) == argv
    &&& x.1 matches Reply::Ran(Ok(ran)) && ran.success
}

/// The last exchange of `s`, which came after `old`, ran `argv` successfully.
pub open spec fn just_ran_ok(old: Session, s: Session, argv: Seq<Seq<char>>) -> bool {
    s.exchanges@.len() > old.exchanges@.len() && ran_ok(s.exchanges@.last(), argv)
}

/// The message of a command that ran and failed.
pub open spec fn failed_message(context: Seq<char>) -> Seq<char> {
    context + " failed."@
}

/// What refreshing sudo comes to in `ctx`: nothing to do for root or once refreshed; an error
/// without sudo; otherwise one run of `sudo -v`, which must succeed.
pub open spec fn sudo_outcome(ctx: Privilege, js: Seq<Reply>) -> Outcome<()> {
    if ctx.is_root || ctx.sudo_ready {
        Outcome::Ends { result: Ok(()), used: 0 }
    } else if ctx.tools.sudo is None {
        Outcome::Ends { result: Err(crate::system::missing_tool("sudo"@)), used: 0 }
    } else if js.len() == 0 {
        Outcome::Short(None)
    } else {
        match js[0] {
            Reply::Ran(Ok(ran)) => if ran.success {
                Outcome::Ends { result: Ok(()), used: 1 }
            } else {
                Outcome::Ends { result: Err("Failed to refresh sudo credentials."@), used: 1 }
            },
            Reply::Ran(Err(f)) => Outcome::Ends { result: Err(io_message("Failed to refresh sudo credentials"@, f.message@)), used: 1 },
            _ => Outcome::Ends { result: Err(mismatch_message()), used: 1 },
        }
    }
}

/// What preparing a command line comes to in `ctx`: a privileged command of a process that
/// is not root needs sudo refreshed, and sudo at hand.
pub open spec fn prepare_outcome(ctx: Privilege, privileged: bool, js: Seq<Reply>) -> Outcome<()> {
    if !(privileged && !ctx.is_root) {
        Outcome::Ends { result: Ok(()), used: 0 }
    } else {
        match sudo_outcome(ctx, js) {
            Outcome::Ends { result: Ok(()), used } => if ctx.tools.sudo is None {
                Outcome::Ends { result: Err(crate::system::missing_tool("sudo"@)), used }
            } else {
                Outcome::Ends { result: Ok(()), used }
            },
            other => other,
        }
    }
}

/// What starting a command comes to in `ctx`: how it ended, as the reply to its run says,
/// once the command line is prepared.
pub open spec fn launch_outcome(ctx: Privilege, privileged: bool, js: Seq<Reply>) -> Outcome<Result<Ran, IoFailure>> {
    match prepare_outcome(ctx, privileged, js) {
        Outcome::Short(w) => Outcome::Short(w),
        Outcome::Ends { result: Err(m), used } => Outcome::Ends { result: Err(m), used },
        Outcome::Ends { result: Ok(()), used } => if js.len() <= used {
            Outcome::Short(None)
        } else {
            match js[used as int] {
                Reply::Ran(x) => Outcome::Ends { result: Ok(x), used: used + 1 },
                _ => Outcome::Ends { result: Err(mismatch_message()), used: used + 1 },
            }
        },
    }
}

/// What running a command silently for its success comes to: whether it succeeded, or the
/// error in `context` of a start that failed.
pub open spec fn success_outcome(ctx: Privilege, privileged: bool, context: Seq<char>, js: Seq<Reply>) -> Outcome<bool> {
    match launch_outcome(ctx, privileged, js) {
        Outcome::Ends { result: Ok(Ok(ran)), used } => Outcome::Ends { result: Ok(ran.success), used },
        Outcome::Ends { result: Ok(Err(f)), used } => Outcome::Ends { result: Err(io_message(context, f.message@)), used },
        Outcome::Ends { result: Err(m), used } => Outcome::Ends { result: Err(m), used },
        Outcome::Short(w) => Outcome::Short(w),
    }
}

/// What running a command for its output comes to: the run, or the error in `context` of a
/// start that failed.
pub open spec fn capture_outcome(ctx: Privilege, privileged: bool, context: Seq<char>, js: Seq<Reply>) -> Outcome<Ran> {
    match launch_outcome(ctx, privileged, js) {
        Outcome::Ends { result: Ok(Ok(ran)), used } => Outcome::Ends { result: Ok(ran), used },
        Outcome::Ends { result: Ok(Err(f)), used } => Outcome::Ends { result: Err(io_message(context, f.message@)), used },
        Outcome::Ends { result: Err(m), used } => Outcome::Ends { result: Err(m), used },
        Outcome::Short(w) => Outcome::Short(w),
    }
}

/// What running a command that must succeed comes to: nothing, or the error in `context` of
/// a start that failed, or `<context> failed.` for a run that failed.
pub open spec fn status_outcome(ctx: Privilege, privileged: bool, context: Seq<char>, js: Seq<Reply>) -> Outcome<()> {
    match launch_outcome(ctx, privileged, js) {
        Outcome::Ends { result: Ok(Ok(ran)), used } => if ran.success {
            Outcome::Ends { result: Ok(()), used }
        } else {
            Outcome::Ends { result: Err(failed_message(context)), used }
        },
        Outcome::Ends { result: Ok(Err(f)), used } => Outcome::Ends { result: Err(io_message(context, f.message@)), used },
        Outcome::Ends { result: Err(m), used } => Outcome::Ends { result: Err(m), used },
        Outcome::Short(w) => Outcome::Short(w),
    }
}

/// Refreshing sudo interactively: `sudo -v` on the caller's terminal.
pub open spec fn sudo_refresh(ctx: Privilege) -> CommandRun {
    (seq![ctx.tools.sudo->0@, "-v"@], StreamsView::Inherit)
}

/// The command lines asked to run when starting `line` in `ctx`: `sudo -v` first when sudo
/// must be refreshed, then `line` once the command line could be prepared.
pub open spec fn launch_lines(ctx: Privilege, privileged: bool, line: Seq<Seq<char>>, streams: StreamsView, js: Seq<Reply>) -> Seq<CommandRun> {
    if privileged && !ctx.is_root && !ctx.sudo_ready && ctx.tools.sudo is Some {
        seq![sudo_refresh(ctx)] + if sudo_outcome(ctx, js) matches Outcome::Ends { result: Ok(()), .. } {
            seq![(line, streams)]
        } else {
            Seq::empty()
        }
    } else if privileged && !ctx.is_root && ctx.tools.sudo is None {
        Seq::empty()
    } else {
        seq![(line, streams)]
    }
}

/// `ctx` once a privileged command could run: sudo is refreshed, unless the process is root.
pub open spec fn refreshed(ctx: Privilege) -> Privilege {
    if ctx.is_root {
        ctx
    } else {
        Privilege { sudo_ready: true, ..ctx }
    }
}

/// A command started in a context that has refreshed sudo, or runs as root, comes to what it
/// comes to in `refreshed(ctx)` when the tools and the privilege are those of `ctx`.
pub proof fn lemma_launch_refreshed(now: Privilege, ctx: Privilege, privileged: bool, context: Seq<char>, js: Seq<Reply>)
    requires
        now.tools == ctx.tools,
        now.is_root == ctx.is_root,
        now.is_root || now.sudo_ready,
    ensures
        launch_outcome(now, privileged, js) == launch_outcome(refreshed(ctx), privileged, js),
        success_outcome(now, privileged, context, js) == success_outcome(refreshed(ctx), privileged, context, js),
        capture_outcome(now, privileged, context, js) == capture_outcome(refreshed(ctx), privileged, context, js),
        status_outcome(now, privileged, context, js) == status_outcome(refreshed(ctx), privileged, context, js),
        forall|line: Seq<Seq<char>>, streams: StreamsView| #[trigger] launch_lines(now, privileged, line, streams, js) == launch_lines(refreshed(ctx), privileged, line, streams, js),
        forall|program: Seq<char>, args: Seq<Seq<char>>| #[trigger] privileged_argv(now, program, args, privileged)
            == privileged_argv(refreshed(ctx), program, args, privileged),
{
}

/// Whether commands started under `now` start as under `p`: the same tools and privilege, and
/// sudo as ready, unless the process is root.
pub open spec fn acts_as(now: Privilege, p: Privilege) -> bool {
    &&& now.tools == p.tools
    &&& now.is_root == p.is_root
    &&& now.is_root || now.sudo_ready == p.sudo_ready
}

/// Commands started under privileges that act alike come to the same and ask to run the same.
pub proof fn lemma_acts_as(now: Privilege, p: Privilege)
    requires
        acts_as(now, p),
    ensures
        forall|privileged: bool, js: Seq<Reply>| #[trigger] launch_outcome(now, privileged, js) == launch_outcome(p, privileged, js),
        forall|privileged: bool, context: Seq<char>, js: Seq<Reply>| #[trigger] success_outcome(now, privileged, context, js)
            == success_outcome(p, privileged, context, js),
        forall|privileged: bool, context: Seq<char>, js: Seq<Reply>| #[trigger] capture_outcome(now, privileged, context, js)
            == capture_outcome(p, privileged, context, js),
        forall|privileged: bool, context: Seq<char>, js: Seq<Reply>| #[trigger] status_outcome(now, privileged, context, js)
            == status_outcome(p, privileged, context, js),
        forall|privileged: bool, line: Seq<Seq<char>>, streams: StreamsView, js: Seq<Reply>| #[trigger] launch_lines(now, privileged, line, streams, js)
            == launch_lines(p, privileged, line, streams, js),
        forall|program: Seq<char>, args: Seq<Seq<char>>, privileged: bool| #[trigger] privileged_argv(now, program, args, privileged)
            == privileged_argv(p, program, args, privileged),
        acts_as(refreshed(now), refreshed(p)),
{
}

/// What a step comes to on a journal, and the command lines it asks to run on the way.
pub struct Course<V> {
    pub outcome: Outcome<V>,
    pub runs: Seq<CommandRun>,
}

/// A request, as the caller performs it: a program run with its streams, or a query.
pub enum RequestView {
    Run(CommandRun),
    Ask(QueryView),
}

/// What the request `e` asks the caller to do.
pub open spec fn request_of(e: Effect) -> RequestView {
    match e {
        Effect::Exec { argv, stdio } => RequestView::Run((strings_view(argv@), stdio@)),
        _ => RequestView::Ask(query_of(e)->Some_0),
    }
}

/// The request a course waits on when the journal runs short: the query its outcome names,
/// or else the last command line it runs.
pub open spec fn pending<V>(c: Course<V>) -> Option<RequestView> {
    match c.outcome {
        Outcome::Short(Some(q)) => Some(RequestView::Ask(q)),
        Outcome::Short(None) => if c.runs.len() > 0 {
            Some(RequestView::Run(c.runs.last()))
        } else {
            None
        },
        Outcome::Ends { .. } => None,
    }
}

/// A step that followed a course that ran short needs exactly the request the course waits
/// on.
pub proof fn lemma_pending<T, V>(old: Session, new: Session, r: Step<T>, c: Course<V>, view: spec_fn(T) -> V)
    requires
        follows(old, new, r, c, view),
        c.outcome is Short,
        prefix_of(old.issued@, new.issued@),
        new.issued@.len() > old.issued@.len(),
    ensures
        new.need matches Some(e) && Some(request_of(e)) == pending(c),
{
    let e = new.issued@.last();
    let es = issued_since(old, new);
    assert(es =~= es.drop_last() + seq![e]);
    lemma_command_lines_add(es.drop_last(), seq![e]);
    lemma_one_request(e);
    match e {
        Effect::Exec { argv, stdio } => {
            assert(runs_since(old, new).last() == (strings_view(argv@), stdio@));
        },
        _ => {
            assert(query_of(e) is Some);
        },
    }
}

/// A step that returned `r` followed `c`: it came to `c`'s outcome and asked to run exactly
/// `c`'s command lines.
pub open spec fn follows<T, V>(old: Session, new: Session, r: Step<T>, c: Course<V>, view: spec_fn(T) -> V) -> bool {
    settles(old, new, r, c.outcome, view) && runs_since(old, new) == c.runs
}

/// A step that asks to run nothing and comes to `o`.
pub open spec fn quietly<V>(o: Outcome<V>) -> Course<V> {
    Course { outcome: o, runs: Seq::empty() }
}

/// A course taken after `used` replies and the command lines `runs`.
pub open spec fn course_after<V>(used: nat, runs: Seq<CommandRun>, c: Course<V>) -> Course<V> {
    Course { outcome: after(used, c.outcome), runs: runs + c.runs }
}

/// The course `c`, then, once it ends with a value, the course that `k` gives for that value
/// on the rest of the journal.
pub open spec fn and_then<U, V>(c: Course<U>, js: Seq<Reply>, k: spec_fn(U, Seq<Reply>) -> Course<V>) -> Course<V> {
    match c.outcome {
        Outcome::Short(w) => Course { outcome: Outcome::Short(w), runs: c.runs },
        Outcome::Ends { result: Err(m), used } => Course { outcome: Outcome::Ends { result: Err(m), used }, runs: c.runs },
        Outcome::Ends { result: Ok(v), used } => course_after(used, c.runs, k(v, js.skip(used as int))),
    }
}

/// A step from `a` to `b` that followed `first` to a value, then, after changes to the context
/// alone, a step from `c` to `d` that followed what `k` gives for that value: together they
/// followed `and_then(first, .., k)`.
pub proof fn lemma_and_then<T, U, W, V>(a: Session, b: Session, c: Session, d: Session, r1: Step<T>, first: Course<U>,
    view1: spec_fn(T) -> U, r2: Step<W>, k: spec_fn(U, Seq<Reply>) -> Course<V>, view2: spec_fn(W) -> V)
    requires
        extends(a, b),
        follows(a, b, r1, first, view1),
        r1 is Ok,
        c.issued@ == b.issued@,
        c.replies@ == b.replies@,
        c.answered@ == b.answered@,
        c.exchanges@ == b.exchanges@,
        extends(c, d),
        follows(c, d, r2, k(view1(r1->Ok_0), journal(c)), view2),
    ensures
        follows(a, d, r2, and_then(first, journal(a), k), view2),
        extends(a, d),
{
    lemma_two_steps(a, b, c, d);
    let used1 = first.outcome->used;
    let second = k(view1(r1->Ok_0), journal(c));
    if second.outcome is Ends {
        vstd::seq_lib::lemma_seq_skip_of_skip(journal(a), used1 as int, second.outcome->used as int);
    }
}

/// A step that followed `first` and failed also followed `and_then(first, .., k)`, whatever
/// the step that would have come next.
pub proof fn lemma_and_then_stops<T, U, W, V>(a: Session, b: Session, r1: Step<T>, first: Course<U>, view1: spec_fn(T) -> U,
    k: spec_fn(U, Seq<Reply>) -> Course<V>, view2: spec_fn(W) -> V)
    requires
        follows(a, b, r1, first, view1),
        r1 is Err,
    ensures
        follows(a, b, Err::<W, Halt>(r1->Err_0), and_then(first, journal(a), k), view2),
{
}

/// A step that settled on `o` and asked to run nothing followed `quietly(o)`.
pub proof fn lemma_quietly<T, V>(a: Session, b: Session, r: Step<T>, o: Outcome<V>, view: spec_fn(T) -> V)
    requires
        settles(a, b, r, o, view),
        runs_since(a, b) == Seq::<CommandRun>::empty(),
    ensures
        follows(a, b, r, quietly(o), view),
{
}

/// Running `line` in `ctx`, which must succeed: `context` names its errors.
pub open spec fn run_course(ctx: Privilege, privileged: bool, line: Seq<Seq<char>>, streams: StreamsView, context: Seq<char>, js: Seq<Reply>) -> Course<()> {
    Course { outcome: status_outcome(ctx, privileged, context, js), runs: launch_lines(ctx, privileged, line, streams, js) }
}

impl Session {
    /// Makes sure sudo can be used without a prompt later: runs `sudo -v` once, interactively,
    /// unless the process is root or sudo was refreshed already.
    pub fn ensure_sudo(&mut self) -> (r: Step<()>)
        ensures
            extends(*old(self), *final(self)),
            same_setup(old(self).ctx, final(self).ctx),
            same_plans(*old(self), *final(self)),
            (old(self).ctx.is_root || old(self).ctx.sudo_ready) ==> *final(self) == *old(self) && r is Ok,
            r is Ok ==> final(self).ctx.is_root || final(self).ctx.sudo_ready,
            r is Ok ==> privilege(final(self).ctx) == refreshed(privilege(old(self).ctx)),
            ran_nothing_but_sudo(*old(self), *final(self)),
            !old(self).ctx.is_root && !old(self).ctx.sudo_ready && old(self).ctx.tools.sudo is None ==>
                (r matches Err(Halt::Failed(e)) && e.message@ == crate::system::missing_tool("sudo"@)),
            settles(*old(self), *final(self), r, sudo_outcome(privilege(old(self).ctx), journal(*old(self))), |u: ()| u),
            runs_since(*old(self), *final(self)) == if !old(self).ctx.is_root && !old(self).ctx.sudo_ready && old(self).ctx.tools.sudo is Some {
                seq![sudo_refresh(privilege(old(self).ctx))]
            } else {
                Seq::<CommandRun>::empty()
            },
    {
        if self.ctx.is_root || self.ctx.sudo_ready {
            assert(journal(*self).skip(0) =~= journal(*self));
            proof { lemma_no_requests(*old(self), *self); }
            return Ok(());
        }
        let sudo = match &self.ctx.tools.sudo {
            Some(p) => p.clone(),
            None => {
                assert(journal(*self).skip(0) =~= journal(*self));
                proof { lemma_no_requests(*old(self), *self); }
                return Err(fail(concat2("Required command not found: ", "sudo")));
            },
        };
        self.ctx.output.msg2("Refreshing sudo credentials");
        let mut argv: Vec<String> = Vec::new();
        argv.push(sudo);
        argv.push(owned("-v"));
        proof {
            reveal_strlit("-v");
            assert(strings_view(argv@) =~= seq![old(self).ctx.tools.sudo->0@, "-v"@]);
        }
        let e = Effect::Exec { argv, stdio: StdioMode::Inherit };
        let ghost ge = e;
        let ghost before = *self;
        let reply = self.ask_ran(e);
        proof {
            assert(issued_since(*old(self), *self) =~= seq![ge]);
            lemma_one_request(ge);
            lemma_asked_journal(before, *self, ge);
            assert(journal(before) == journal(*old(self)));
        }
        match reply? {
            Err(e) => Err(io_error("Failed to refresh sudo credentials", &e)),
            Ok(ran) => {
                if !ran.success {
                    return Err(fail(owned("Failed to refresh sudo credentials.")));
                }
                self.ctx.sudo_ready = true;
                Ok(())
            },
        }
    }

    /// The command line for `program` with `args`, refreshing sudo first when the command is
    /// privileged and the process is not root.
    pub fn prepare_command(&mut self, program: &str, args: &Vec<String>, privileged: bool) -> (r: Step<Vec<String>>)
        ensures
            extends(*old(self), *final(self)),
            same_setup(old(self).ctx, final(self).ctx),
            same_plans(*old(self), *final(self)),
            r matches Ok(argv) ==> strings_view(argv@) == command_argv(old(self).ctx, program@, strings_view(args@), privileged),
            r is Ok && privileged ==> final(self).ctx.is_root || final(self).ctx.sudo_ready,
            r is Ok && privileged ==> privilege(final(self).ctx) == refreshed(privilege(old(self).ctx)),
            !(privileged && !old(self).ctx.is_root) ==> *final(self) == *old(self) && r is Ok,
            privileged && !old(self).ctx.is_root && old(self).ctx.tools.sudo is None ==> r is Err,
            ran_nothing_but_sudo(*old(self), *final(self)),
            settles(*old(self), *final(self), r, prepare_outcome(privilege(old(self).ctx), privileged, journal(*old(self))), |v: Vec<String>| ()),
            runs_since(*old(self), *final(self)) == if privileged && !old(self).ctx.is_root && !old(self).ctx.sudo_ready && old(self).ctx.tools.sudo is Some {
                seq![sudo_refresh(privilege(old(self).ctx))]
            } else {
                Seq::<CommandRun>::empty()
            },
    {
        let wrap = privileged && !self.ctx.is_root;
        assert(journal(*self).skip(0) =~= journal(*self));
        let mut argv: Vec<String> = Vec::new();
        if wrap {
            self.ensure_sudo()?;
            match &self.ctx.tools.sudo {
                Some(p) => argv.push(p.clone()),
                None => return Err(fail(concat2("Required command not found: ", "sudo"))),
            }
        }
        argv.push(owned(program));
        let mut i: usize = 0;
        let ghost head = argv@;
        let ghost k = argv@.len();
        while i < args.len()
            invariant
                i <= args.len(),
                argv@.len() == k + i,
                forall|j: int| 0 <= j < k ==> #[trigger] argv@[j] == head[j],
                forall|j: int| 0 <= j < i ==> #[trigger] argv@[k + j]@ == args@[j]@,
            decreases args.len() - i,
        {
            argv.push(args[i].clone());
            i = i + 1;
        }
        assert forall|j: int| 0 <= j < argv@.len() implies #[trigger] strings_view(argv@)[j] == (strings_view(head) + strings_view(args@))[j] by {
            if j < k {
                assert(argv@[j] == head[j]);
            } else {
                assert(argv@[k + (j - k)]@ == args@[j - k]@);
            }
        }
        assert(strings_view(argv@) =~= strings_view(head) + strings_view(args@));
        Ok(argv)
    }
}

/// All that `new` requested since `old`, if anything, is to run `sudo -v`.
pub open spec fn ran_nothing_but_sudo(old: Session, new: Session) -> bool {
    forall|i: int| 0 <= i < issued_since(old, new).len() ==>
        (#[trigger] issued_since(old, new)[i] matches Effect::Exec { argv, .. } && strings_view(argv@) == seq![old.ctx.tools.sudo->0@, "-v"@])
}


/// The last request of `s` ran `argv`, and a reply came.
pub open spec fn last_exec_is(s: Session, argv: Seq<Seq<char>>) -> bool {
    &&& s.issued@.len() > 0
    &&& s.answered@.len() > 0
    &&& s.issued@.last() matches Effect::Exec { argv: a, .. } && strings_view(a@) == argv
}

/// A failure after `argv` ran says why: it could not start, or it ran and failed.
pub open spec fn run_error_agrees(old: Session, s: Session, r: Step<()>, argv: Seq<Seq<char>>, context: Seq<char>) -> bool {
    match r {
        Err(Halt::Failed(e)) => issued_since(old, s).len() > 0 && last_exec_is(s, argv) ==> match s.answered@.last() {
            Reply::Ran(Ok(ran)) => !ran.success && e.message@ == failed_message(context),
            Reply::Ran(Err(f)) => e.message@ == io_message(context, f.message@),
            _ => e.message@ == mismatch_message(),
        },
        _ => true,
    }
}

/// Every program that `new` ran since `old` is `argv`, or `sudo -v`.
pub open spec fn ran_only(old: Session, new: Session, argv: Seq<Seq<char>>) -> bool {
    forall|i: int| 0 <= i < issued_since(old, new).len() && is_exec(#[trigger] issued_since(old, new)[i]) ==>
        (issued_since(old, new)[i] matches Effect::Exec { argv: a, .. } &&
            (strings_view(a@) == argv || strings_view(a@) == seq![old.ctx.tools.sudo->0@, "-v"@]))
}

impl Session {
    /// Runs a command with the given streams and waits for it: an error in `context` when it
    /// cannot be started, and `<context> failed.` when it fails.
    pub fn run_status(&mut self, program: &str, args: &Vec<String>, privileged: bool, stdio: StdioMode, context: &str) -> (r: Step<()>)
        ensures
            extends(*old(self), *final(self)),
            same_setup(old(self).ctx, final(self).ctx),
            same_plans(*old(self), *final(self)),
            ran_only(*old(self), *final(self), command_argv(old(self).ctx, program@, strings_view(args@), privileged)),
            r is Ok ==> last_run_succeeded(*final(self), command_argv(old(self).ctx, program@, strings_view(args@), privileged), stdio),
            r is Ok ==> just_ran_ok(*old(self), *final(self), command_argv(old(self).ctx, program@, strings_view(args@), privileged)),
            command_argv(old(self).ctx, program@, strings_view(args@), privileged) != seq![old(self).ctx.tools.sudo->0@, "-v"@] ==>
                run_error_agrees(*old(self), *final(self), r, command_argv(old(self).ctx, program@, strings_view(args@), privileged), context@),
            settles(*old(self), *final(self), r, status_outcome(privilege(old(self).ctx), privileged, context@, journal(*old(self))), |u: ()| u),
            r is Ok && privileged ==> final(self).ctx.is_root || final(self).ctx.sudo_ready,
            r is Ok && privileged ==> privilege(final(self).ctx) == refreshed(privilege(old(self).ctx)),
            !(privileged && !old(self).ctx.is_root) ==> final(self).ctx == old(self).ctx,
            runs_since(*old(self), *final(self)) == launch_lines(privilege(old(self).ctx), privileged,
                command_argv(old(self).ctx, program@, strings_view(args@), privileged), stdio@, journal(*old(self))),
            queries_since(*old(self), *final(self)) == Seq::<QueryView>::empty(),
    {
        let prepared = self.prepare_command(program, args, privileged);
        proof {
            lemma_sudo_asks_nothing(*old(self), *self);
            if issued_since(*old(self), *self).len() > 0 {
                assert(self.issued@.last() == issued_since(*old(self), *self)[issued_since(*old(self), *self).len() - 1]);
            }
        }
        let argv = prepared?;
        let ghost mid = *self;
        let e = Effect::Exec { argv, stdio };
        let ghost ge = e;
        let reply = self.ask_ran(e);
        proof {
            lemma_asked_journal(mid, *self, ge);
            vstd::seq_lib::lemma_seq_skip_of_skip(journal(*old(self)), journal(*old(self)).len() - journal(mid).len(), 1);
            assert(issued_since(mid, *self) =~= seq![ge]);
            lemma_one_request(ge);
            lemma_one_query(ge);
            lemma_queries_chain(*old(self), mid, *self);
            lemma_runs_chain(*old(self), mid, *self);
            assert(runs_since(*old(self), mid) + seq![(strings_view(ge->argv@), ge->stdio@)] =~= launch_lines(privilege(old(self).ctx), privileged,
                command_argv(old(self).ctx, program@, strings_view(args@), privileged), stdio@, journal(*old(self))));
            assert forall|i: int| 0 <= i < issued_since(*old(self), *self).len() && is_exec(#[trigger] issued_since(*old(self), *self)[i]) implies
                (issued_since(*old(self), *self)[i] matches Effect::Exec { argv: a, .. } &&
                (strings_view(a@) == command_argv(old(self).ctx, program@, strings_view(args@), privileged) || strings_view(a@) == seq![old(self).ctx.tools.sudo->0@, "-v"@])) by {
                if i < issued_since(*old(self), mid).len() {
                    assert(issued_since(*old(self), *self)[i] == issued_since(*old(self), mid)[i]);
                } else {
                    assert(issued_since(*old(self), *self)[i] == ge);
                }
            }
        }
        match reply? {
            Err(f) => Err(io_error(context, &f)),
            Ok(ran) => {
                if ran.success {
                    Ok(())
                } else {
                    Err(fail(concat2(context, " failed.")))
                }
            },
        }
    }
}


/// The last request of `s` ran `argv` with the streams `stdio`, and its reply was `reply`.
pub open spec fn last_exchange(s: Session, argv: Seq<Seq<char>>, stdio: StdioMode, reply: Reply) -> bool {
    &&& last_exec_is(s, argv)
    &&& s.issued@.last() matches Effect::Exec { stdio: m, .. } && m == stdio
    &&& s.answered@.last() == reply
}

/// The last request of `s` ran `argv` with the streams `stdio`, and it ran to its end with
/// the given success.
pub open spec fn last_run_reported(s: Session, argv: Seq<Seq<char>>, stdio: StdioMode, success: bool) -> bool {
    &&& last_exec_is(s, argv)
    &&& s.issued@.last() matches Effect::Exec { stdio: m, .. } && m == stdio
    &&& s.answered@.last() matches Reply::Ran(Ok(ran)) && ran.success == success
}

impl Session {
    /// Starts a command with the given streams and reports how it ended.
    pub fn launch(&mut self, program: &str, args: &Vec<String>, privileged: bool, stdio: StdioMode) -> (r: Step<Result<Ran, IoFailure>>)
        ensures
            extends(*old(self), *final(self)),
            same_setup(old(self).ctx, final(self).ctx),
            same_plans(*old(self), *final(self)),
            ran_only(*old(self), *final(self), command_argv(old(self).ctx, program@, strings_view(args@), privileged)),
            r matches Ok(x) ==> last_exchange(*final(self), command_argv(old(self).ctx, program@, strings_view(args@), privileged), stdio, Reply::Ran(x)),
            !(privileged && !old(self).ctx.is_root) ==> single_run(*old(self), *final(self), r),
            settles(*old(self), *final(self), r, launch_outcome(privilege(old(self).ctx), privileged, journal(*old(self))), |x: Result<Ran, IoFailure>| x),
            !(privileged && !old(self).ctx.is_root) ==> final(self).ctx == old(self).ctx,
            runs_since(*old(self), *final(self)) == launch_lines(privilege(old(self).ctx), privileged,
                command_argv(old(self).ctx, program@, strings_view(args@), privileged), stdio@, journal(*old(self))),
            r is Ok && privileged ==> final(self).ctx.is_root || final(self).ctx.sudo_ready,
            r is Ok && privileged ==> privilege(final(self).ctx) == refreshed(privilege(old(self).ctx)),
            queries_since(*old(self), *final(self)) == Seq::<QueryView>::empty(),
    {
        let prepared = self.prepare_command(program, args, privileged);
        proof { lemma_sudo_asks_nothing(*old(self), *self); }
        let argv = prepared?;
        let ghost mid = *self;
        let e = Effect::Exec { argv, stdio };
        let ghost ge = e;
        let reply = self.ask_ran(e);
        proof {
            lemma_asked_journal(mid, *self, ge);
            vstd::seq_lib::lemma_seq_skip_of_skip(journal(*old(self)), journal(*old(self)).len() - journal(mid).len(), 1);
            assert(issued_since(mid, *self) =~= seq![ge]);
            lemma_one_request(ge);
            lemma_one_query(ge);
            lemma_queries_chain(*old(self), mid, *self);
            lemma_runs_chain(*old(self), mid, *self);
            assert(runs_since(*old(self), mid) + seq![(strings_view(ge->argv@), ge->stdio@)] =~= launch_lines(privilege(old(self).ctx), privileged,
                command_argv(old(self).ctx, program@, strings_view(args@), privileged), stdio@, journal(*old(self))));
            assert forall|i: int| 0 <= i < issued_since(*old(self), *self).len() && is_exec(#[trigger] issued_since(*old(self), *self)[i]) implies
                (issued_since(*old(self), *self)[i] matches Effect::Exec { argv: a, .. } &&
                (strings_view(a@) == command_argv(old(self).ctx, program@, strings_view(args@), privileged) || strings_view(a@) == seq![old(self).ctx.tools.sudo->0@, "-v"@])) by {
                if i < issued_since(*old(self), mid).len() {
                    assert(issued_since(*old(self), *self)[i] == issued_since(*old(self), mid)[i]);
                } else {
                    assert(issued_since(*old(self), *self)[i] == ge);
                }
            }
            if !(privileged && !old(self).ctx.is_root) {
                if mid.replies@.len() > 0 {
                    assert(answered_since(*old(self), *self) =~= seq![mid.replies@.last()]);
                } else {
                    assert(answered_since(*old(self), *self) =~= Seq::<Reply>::empty());
                }
            }
        }
        reply
    }

    /// Runs a command with standard input empty and its output captured.
    pub fn capture_command(&mut self, program: &str, args: &Vec<String>, privileged: bool, context: &str) -> (r: Step<Ran>)
        ensures
            extends(*old(self), *final(self)),
            same_setup(old(self).ctx, final(self).ctx),
            same_plans(*old(self), *final(self)),
            ran_only(*old(self), *final(self), command_argv(old(self).ctx, program@, strings_view(args@), privileged)),
            r matches Ok(ran) ==> last_exchange(*final(self), command_argv(old(self).ctx, program@, strings_view(args@), privileged), StdioMode::Capture, Reply::Ran(Ok(ran))),
            !(privileged && !old(self).ctx.is_root) ==> captured(*old(self), *final(self), r, context@),
            settles(*old(self), *final(self), r, capture_outcome(privilege(old(self).ctx), privileged, context@, journal(*old(self))), |x: Ran| x),
            !(privileged && !old(self).ctx.is_root) ==> final(self).ctx == old(self).ctx,
            runs_since(*old(self), *final(self)) == launch_lines(privilege(old(self).ctx), privileged,
                command_argv(old(self).ctx, program@, strings_view(args@), privileged), StreamsView::Capture, journal(*old(self))),
            r is Ok && privileged ==> final(self).ctx.is_root || final(self).ctx.sudo_ready,
            r is Ok && privileged ==> privilege(final(self).ctx) == refreshed(privilege(old(self).ctx)),
            queries_since(*old(self), *final(self)) == Seq::<QueryView>::empty(),
    {
        match self.launch(program, args, privileged, StdioMode::Capture)? {
            Ok(ran) => Ok(ran),
            Err(f) => Err(io_error(context, &f)),
        }
    }

    /// Runs a command silently and says whether it succeeded.
    pub fn command_success(&mut self, program: &str, args: &Vec<String>, privileged: bool, context: &str) -> (r: Step<bool>)
        ensures
            extends(*old(self), *final(self)),
            same_setup(old(self).ctx, final(self).ctx),
            same_plans(*old(self), *final(self)),
            ran_only(*old(self), *final(self), command_argv(old(self).ctx, program@, strings_view(args@), privileged)),
            r matches Ok(b) ==> last_run_reported(*final(self), command_argv(old(self).ctx, program@, strings_view(args@), privileged), StdioMode::Null, b),
            settles(*old(self), *final(self), r, success_outcome(privilege(old(self).ctx), privileged, context@, journal(*old(self))), |b: bool| b),
            !(privileged && !old(self).ctx.is_root) ==> final(self).ctx == old(self).ctx,
            runs_since(*old(self), *final(self)) == launch_lines(privilege(old(self).ctx), privileged,
                command_argv(old(self).ctx, program@, strings_view(args@), privileged), StreamsView::Null, journal(*old(self))),
            r is Ok && privileged ==> final(self).ctx.is_root || final(self).ctx.sudo_ready,
            r is Ok && privileged ==> privilege(final(self).ctx) == refreshed(privilege(old(self).ctx)),
            queries_since(*old(self), *final(self)) == Seq::<QueryView>::empty(),
    {
        match self.launch(program, args, privileged, StdioMode::Null)? {
            Ok(ran) => Ok(ran.success),
            Err(f) => Err(io_error(context, &f)),
        }
    }
}


impl Session {
    /// Runs a command on the caller's terminal and waits for it.
    pub fn run_command(&mut self, program: &str, args: &Vec<String>, privileged: bool, context: &str) -> (r: Step<()>)
        ensures
            extends(*old(self), *final(self)),
            same_setup(old(self).ctx, final(self).ctx),
            same_plans(*old(self), *final(self)),
            ran_only(*old(self), *final(self), command_argv(old(self).ctx, program@, strings_view(args@), privileged)),
            r is Ok ==> last_run_succeeded(*final(self), command_argv(old(self).ctx, program@, strings_view(args@), privileged), StdioMode::Inherit),
            r is Ok ==> just_ran_ok(*old(self), *final(self), command_argv(old(self).ctx, program@, strings_view(args@), privileged)),
            follows(*old(self), *final(self), r, run_course(privilege(old(self).ctx), privileged,
                command_argv(old(self).ctx, program@, strings_view(args@), privileged), StreamsView::Inherit, context@, journal(*old(self))), |u: ()| u),
            r is Ok && privileged ==> final(self).ctx.is_root || final(self).ctx.sudo_ready,
            r is Ok && privileged ==> privilege(final(self).ctx) == refreshed(privilege(old(self).ctx)),
            queries_since(*old(self), *final(self)) == Seq::<QueryView>::empty(),
    {
        self.run_status(program, args, privileged, StdioMode::Inherit, context)
    }

    /// Runs a command with `input` written to its standard input and its output discarded.
    pub fn run_command_with_input(&mut self, program: &str, args: &Vec<String>, privileged: bool, input: &str, context: &str) -> (r: Step<()>)
        ensures
            extends(*old(self), *final(self)),
            same_setup(old(self).ctx, final(self).ctx),
            same_plans(*old(self), *final(self)),
            ran_only(*old(self), *final(self), command_argv(old(self).ctx, program@, strings_view(args@), privileged)),
            r is Ok ==> last_exec_is(*final(self), command_argv(old(self).ctx, program@, strings_view(args@), privileged))
                && (final(self).issued@.last() matches Effect::Exec { stdio: StdioMode::Feed(t), .. } && t@ == input@),
            r is Ok ==> just_ran_ok(*old(self), *final(self), command_argv(old(self).ctx, program@, strings_view(args@), privileged)),
            follows(*old(self), *final(self), r, run_course(privilege(old(self).ctx), privileged,
                command_argv(old(self).ctx, program@, strings_view(args@), privileged), StreamsView::Feed(input@), context@, journal(*old(self))), |u: ()| u),
            r is Ok && privileged ==> final(self).ctx.is_root || final(self).ctx.sudo_ready,
            r is Ok && privileged ==> privilege(final(self).ctx) == refreshed(privilege(old(self).ctx)),
            queries_since(*old(self), *final(self)) == Seq::<QueryView>::empty(),
    {
        let data = owned(input);
        let ghost d = data;
        let r = self.run_status(program, args, privileged, StdioMode::Feed(data), context);
        proof {
            if r is Ok {
                assert(self.issued@.last() matches Effect::Exec { stdio: m, .. } && m == StdioMode::Feed(d));
            }
        }
        r
    }
}

} // verus!
