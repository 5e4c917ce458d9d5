//! One operation from start to end: the workflow and, when it fails, the cleanup it leaves
//! behind, run against the journal of system replies; and the response the helper sends back.

use vstd::prelude::*;
use crate::api::{CommandAction, OperationResponse};
use crate::error::{AppError, AppResult};
use crate::model::SourceKind;
use crate::output::{entries_view, Output, OutputEntry, OutputLevel};
use crate::session::{
    and_then, follows, journal, lemma_and_then, lemma_and_then_stops, lemma_quietly, privilege, quietly, refreshed, is_exec,
    Course, Effect, Halt, Outcome, Privilege, QueryView, Reply, Session, StdioMode, Step, pending, request_of,
};
use crate::system::{AppContext, FoundTools};
use crate::text::{concat3, owned};

verus! {

broadcast use vstd::string::group_string_axioms, crate::session::lemma_quiet_runs;

/// What refreshing sudo without a prompt comes to: whether sudo can be used. A refresh that
/// fails, or cannot start, says no.
pub open spec fn quiet_sudo_outcome(p: Privilege, js: Seq<Reply>) -> Outcome<bool> {
    if p.is_root || p.sudo_ready {
        Outcome::Ends { result: Ok(true), used: 0 }
    } else if p.tools.sudo is None {
        Outcome::Ends { result: Ok(false), used: 0 }
    } else if js.len() == 0 {
        Outcome::Short(None)
    } else {
        match js[0] {
            Reply::Ran(Ok(ran)) => Outcome::Ends { result: Ok(ran.success), used: 1 },
            Reply::Ran(Err(_)) => Outcome::Ends { result: Ok(false), used: 1 },
            _ => Outcome::Ends { result: Err(crate::session::mismatch_message()), used: 1 },
        }
    }
}

/// Refreshing sudo without a prompt: `sudo -v`, unless the process is root, sudo is ready or
/// unknown.
pub open spec fn quiet_sudo_course(p: Privilege, js: Seq<Reply>) -> Course<bool> {
    Course {
        outcome: quiet_sudo_outcome(p, js),
        runs: if p.is_root || p.sudo_ready || p.tools.sudo is None { Seq::empty() } else { seq![(seq![p.tools.sudo->0@, "-v"@], crate::session::StreamsView::Null)] },
    }
}

/// Refreshes sudo without a prompt, and says whether it can be used.
fn try_ensure_sudo(s: &mut Session) -> (r: Step<bool>)
    ensures
        crate::session::extends(*old(s), *final(s)),
        crate::session::same_setup(old(s).ctx, final(s).ctx),
        crate::session::same_plans(*old(s), *final(s)),
        follows(*old(s), *final(s), r, quiet_sudo_course(privilege(old(s).ctx), journal(*old(s))), |b: bool| b),
        r matches Ok(true) ==> privilege(final(s).ctx) == refreshed(privilege(old(s).ctx)),
        r matches Ok(false) ==> final(s).ctx == old(s).ctx,
{
    if s.ctx.is_root || s.ctx.sudo_ready {
        assert(journal(*s).skip(0) =~= journal(*s));
        proof { crate::session::lemma_no_requests(*old(s), *s); }
        return Ok(true);
    }
    let sudo = match &s.ctx.tools.sudo {
        Some(p) => p.clone(),
        None => {
            assert(journal(*s).skip(0) =~= journal(*s));
            proof { crate::session::lemma_no_requests(*old(s), *s); }
            return Ok(false);
        },
    };
    let mut argv: Vec<String> = Vec::new();
    argv.push(sudo);
    argv.push(owned("-v"));
    let e = Effect::Exec { argv, stdio: StdioMode::Null };
    let ghost asked_for = e;
    let got = s.ask_ran(e);
    proof {
        crate::session::lemma_asked_journal(*old(s), *s, asked_for);
        assert(crate::session::issued_since(*old(s), *s) =~= seq![asked_for]);
        crate::session::lemma_one_request(asked_for);
        assert(crate::cli::strings_view(asked_for->Exec_argv@) =~= seq![old(s).ctx.tools.sudo->0@, "-v"@]);
    }
    match got? {
        Ok(ran) => {
            if ran.success {
                s.ctx.sudo_ready = true;
                Ok(true)
            } else {
                Ok(false)
            }
        },
        Err(_) => Ok(false),
    }
}

/// Running `program` with `args` behind sudo, or as root, silently: whether it started and
/// succeeded.
pub open spec fn silent_launch(p: Privilege, program: Seq<char>, args: Seq<Seq<char>>, js: Seq<Reply>) -> Course<bool> {
    Course {
        outcome: match crate::session::launch_outcome(p, true, js) {
            Outcome::Ends { result: Ok(Ok(ran)), used } => Outcome::Ends { result: Ok(ran.success), used },
            Outcome::Ends { result: Ok(Err(_)), used } => Outcome::Ends { result: Ok(false), used },
            Outcome::Ends { result: Err(m), used } => Outcome::Ends { result: Err(m), used },
            Outcome::Short(w) => Outcome::Short(w),
        },
        runs: crate::session::launch_lines(p, true, crate::session::privileged_argv(p, program, args, true), crate::session::StreamsView::Null, js),
    }
}

/// Running the command once sudo was refreshed without a prompt, if it could be.
pub open spec fn silent_next(p: Privilege, program: Seq<char>, args: Seq<Seq<char>>) -> spec_fn(bool, Seq<Reply>) -> Course<bool> {
    |ready: bool, js: Seq<Reply>| if !ready || p.tools.sudo is None {
        quietly(Outcome::Ends { result: Ok(false), used: 0 })
    } else {
        silent_launch(refreshed(p), program, args, js)
    }
}

/// What running a privileged command silently, without prompting, comes to: whether it
/// succeeded; without root, sudo is refreshed without a prompt first.
pub open spec fn silent_course(p: Privilege, program: Seq<char>, args: Seq<Seq<char>>, js: Seq<Reply>) -> Course<bool> {
    if p.is_root {
        silent_launch(p, program, args, js)
    } else {
        and_then(quiet_sudo_course(p, js), js, silent_next(p, program, args))
    }
}

/// Runs a privileged command silently, without prompting, and says whether it succeeded.
fn try_run_privileged_silent(s: &mut Session, program: &str, args: &Vec<String>) -> (r: Step<bool>)
    ensures
        crate::session::extends(*old(s), *final(s)),
        crate::session::same_setup(old(s).ctx, final(s).ctx),
        crate::session::same_plans(*old(s), *final(s)),
        follows(*old(s), *final(s), r, silent_course(privilege(old(s).ctx), program@, crate::cli::strings_view(args@), journal(*old(s))),
            |b: bool| b),
{
    let ghost first = quiet_sudo_course(privilege(old(s).ctx), journal(*old(s)));
    let ghost next = silent_next(privilege(old(s).ctx), program@, crate::cli::strings_view(args@));
    let ghost ready_at = *s;
    let ghost got: Step<bool> = Ok(true);
    if !s.ctx.is_root {
        let ready = try_ensure_sudo(s);
        proof {
            ready_at = *s;
            got = ready;
            if ready is Err {
                lemma_and_then_stops::<bool, bool, bool, bool>(*old(s), ready_at, ready, first, |b: bool| b, next, |b: bool| b);
            }
        }
        if !ready? || s.ctx.tools.sudo.is_none() {
            let r = Ok(false);
            proof {
                assert(journal(*s).skip(0) =~= journal(*s));
                crate::session::lemma_no_requests(*s, *s);
                lemma_and_then(*old(s), ready_at, *s, *s, ready, first, |b: bool| b, r, next, |b: bool| b);
            }
            return r;
        }
    }
    let launched = s.launch(program, args, true, StdioMode::Null);
    let r = match launched {
        Ok(Ok(ran)) => Ok(ran.success),
        Ok(Err(_)) => Ok(false),
        Err(h) => Err(h),
    };
    proof {
        if !old(s).ctx.is_root {
            lemma_and_then(*old(s), ready_at, ready_at, *s, got, first, |b: bool| b, r, next, |b: bool| b);
        }
    }
    r
}

/// Closing a mapper left open, without prompting: whether it closed is only warned about.
pub open spec fn closed_next() -> spec_fn(bool, Seq<Reply>) -> Course<()> {
    |closed: bool, js: Seq<Reply>| quietly(Outcome::Ends { result: Ok(()), used: 0 })
}

/// Closing the mapper `name` left open, once it is known whether it still exists.
pub open spec fn leftover_next(p: Privilege, name: Seq<char>) -> spec_fn(bool, Seq<Reply>) -> Course<()> {
    |there: bool, js: Seq<Reply>| if !there {
        quietly(Outcome::Ends { result: Ok(()), used: 0 })
    } else {
        and_then(silent_course(p, p.tools.cryptsetup@, seq!["close"@, name], js), js, closed_next())
    }
}

/// What closing a mapper a failed operation left open comes to: if it still exists, it is
/// closed silently, without prompting; a close that fails is only warned about.
pub open spec fn leftover_course(p: Privilege, name: Seq<char>, js: Seq<Reply>) -> Course<()> {
    and_then(quietly(crate::linux::exists_outcome(crate::text::path_join("/dev/mapper"@, name), js)), js, leftover_next(p, name))
}

/// Closes the mapper `name` that a failed operation left open, if it still exists.
fn close_leftover_mapper(s: &mut Session, mapper_name: &String) -> (r: Step<()>)
    ensures
        crate::session::extends(*old(s), *final(s)),
        crate::session::same_setup(old(s).ctx, final(s).ctx),
        crate::session::same_plans(*old(s), *final(s)),
        follows(*old(s), *final(s), r, leftover_course(privilege(old(s).ctx), mapper_name@, journal(*old(s))), |u: ()| u),
        final(s).issued@.len() > old(s).issued@.len(),
{
    let ghost first = quietly(crate::linux::exists_outcome(crate::text::path_join("/dev/mapper"@, mapper_name@), journal(*old(s))));
    let ghost next = leftover_next(privilege(old(s).ctx), mapper_name@);
    let mapper_path = crate::naming::mapper_device_path(mapper_name.as_str());
    let got = crate::linux::path_exists(s, mapper_path.as_str());
    let ghost got_at = *s;
    proof {
        lemma_quietly(*old(s), got_at, got, crate::linux::exists_outcome(crate::text::path_join("/dev/mapper"@, mapper_name@), journal(*old(s))), |b: bool| b);
        if got is Err {
            lemma_and_then_stops::<bool, bool, (), ()>(*old(s), got_at, got, first, |b: bool| b, next, |u: ()| u);
        }
    }
    if !got? {
        let r = Ok(());
        proof {
            assert(journal(*s).skip(0) =~= journal(*s));
            crate::session::lemma_no_requests(*s, *s);
            lemma_and_then(*old(s), got_at, *s, *s, got, first, |b: bool| b, r, next, |u: ()| u);
        }
        return r;
    }
    s.ctx.output.warn(concat3("Closing mapper ", mapper_name.as_str(), " after failed action.").as_str());
    let ghost before_close = *s;
    let cryptsetup = s.ctx.cryptsetup_path();
    let args = crate::commands::close_args(mapper_name.as_str());
    let tried = try_run_privileged_silent(s, cryptsetup.as_str(), &args);
    let ghost tried_at = *s;
    proof {
        if tried is Err {
            lemma_and_then_stops::<bool, bool, (), ()>(before_close, tried_at, tried,
                silent_course(privilege(before_close.ctx), before_close.ctx.tools.cryptsetup@, seq!["close"@, mapper_name@], journal(before_close)),
                |b: bool| b, closed_next(), |u: ()| u);
            lemma_and_then(*old(s), got_at, before_close, tried_at, got, first, |b: bool| b, Err::<(), Halt>(tried->Err_0), next, |u: ()| u);
        }
    }
    let closed = tried?;
    if !closed {
        s.ctx.output.warn(concat3("Failed to close mapper ", mapper_name.as_str(), " during cleanup.").as_str());
    }
    let r = Ok(());
    proof {
        assert(journal(*s).skip(0) =~= journal(*s));
        crate::session::lemma_no_requests(*s, *s);
        lemma_and_then(before_close, tried_at, *s, *s, tried,
            silent_course(privilege(before_close.ctx), before_close.ctx.tools.cryptsetup@, seq!["close"@, mapper_name@], journal(before_close)),
            |b: bool| b, r, closed_next(), |u: ()| u);
        lemma_and_then(*old(s), got_at, before_close, *s, got, first, |b: bool| b, r, next, |u: ()| u);
    }
    r
}

/// Removing the temporary file `temp`, if there is one: its reply is not looked at.
pub open spec fn removal_outcome(temp: Option<Seq<char>>, js: Seq<Reply>) -> Outcome<()> {
    if temp is None {
        Outcome::Ends { result: Ok(()), used: 0 }
    } else if js.len() == 0 {
        Outcome::Short(Some(QueryView::RemoveFile(temp->0)))
    } else {
        match js[0] {
            Reply::Done(_) => Outcome::Ends { result: Ok(()), used: 1 },
            _ => Outcome::Ends { result: Err(crate::session::mismatch_message()), used: 1 },
        }
    }
}

/// Closing the mapper left open, if any, once the temporary file is gone.
pub open spec fn removed_next(p: Privilege, mapper: Option<Seq<char>>) -> spec_fn((), Seq<Reply>) -> Course<()> {
    |u: (), js: Seq<Reply>| match mapper {
        None => quietly(Outcome::Ends { result: Ok(()), used: 0 }),
        Some(name) => leftover_course(p, name, js),
    }
}

/// What cleaning up after a failure comes to: the temporary file of an unfinished container,
/// if any, is removed, then the mapper left open, if any, is closed.
pub open spec fn cleanup_course(p: Privilege, temp: Option<Seq<char>>, mapper: Option<Seq<char>>, js: Seq<Reply>) -> Course<()> {
    and_then(quietly(removal_outcome(temp, js)), js, removed_next(p, mapper))
}

/// After a failure: removes the temporary file of an unfinished container, then closes the
/// mapper the operation left open, if it still exists, warning about it.
pub fn clean_up(s: &mut Session) -> (r: Step<()>)
    ensures
        crate::session::extends(*old(s), *final(s)),
        crate::session::same_setup(old(s).ctx, final(s).ctx),
        r is Ok ==> final(s).temp_file is None && final(s).ctx.cleanup_mapper is None,
        old(s).temp_file is None && old(s).ctx.cleanup_mapper is None ==> *final(s) == *old(s) && r is Ok,
        old(s).temp_file matches Some(p) ==> final(s).issued@.len() > old(s).issued@.len()
            && (final(s).issued@[old(s).issued@.len() as int] matches Effect::RemoveFile { path } && path@ == p@),
        follows(*old(s), *final(s), r, cleanup_course(privilege(old(s).ctx), crate::api::opt_text(old(s).temp_file),
            match old(s).ctx.cleanup_mapper { Some(m) => Some(m@), None => None }, journal(*old(s))), |u: ()| u),
        r is Err ==> final(s).issued@.len() > old(s).issued@.len(),
{
    let ghost mapper = match old(s).ctx.cleanup_mapper { Some(m) => Some(m@), None => None };
    let ghost first = quietly(removal_outcome(crate::api::opt_text(old(s).temp_file), journal(*old(s))));
    let ghost next = removed_next(privilege(old(s).ctx), mapper);
    let ghost removed_step: Step<()> = Ok(());
    match s.temp_file.take() {
        Some(path) => {
            let e = Effect::RemoveFile { path };
            let ghost asked_for = e;
            let ghost before = *s;
            let got = s.ask_done(e);
            proof {
                crate::session::lemma_asked_journal(before, *s, asked_for);
                assert(crate::session::issued_since(*old(s), *s) =~= seq![asked_for]);
                crate::session::lemma_one_request(asked_for);
                removed_step = if got is Ok { Ok(()) } else { Err(got->Err_0) };
                lemma_quietly(*old(s), *s, removed_step, removal_outcome(crate::api::opt_text(old(s).temp_file), journal(*old(s))), |u: ()| u);
                if got is Err {
                    lemma_and_then_stops::<(), (), (), ()>(*old(s), *s, removed_step, first, |u: ()| u, next, |u: ()| u);
                }
            }
            let _ = got?;
        },
        None => {
            proof {
                assert(journal(*s).skip(0) =~= journal(*s));
                crate::session::lemma_no_requests(*old(s), *s);
            }
        },
    }
    let ghost removed = *s;
    let mapper_name = match s.ctx.cleanup_mapper.take() {
        Some(m) => m,
        None => {
            let r = Ok(());
            proof {
                assert(journal(*s).skip(0) =~= journal(*s));
                crate::session::lemma_no_requests(*s, *s);
                lemma_and_then(*old(s), removed, *s, *s, removed_step, first, |u: ()| u, r, next, |u: ()| u);
            }
            return r;
        },
    };
    let ghost taken = *s;
    let r = close_leftover_mapper(s, &mapper_name);
    proof {
        lemma_and_then(*old(s), removed, taken, *s, removed_step, first, |u: ()| u, r, next, |u: ()| u);
    }
    r
}

/// A mapper that was cleared from the cleanup is left alone: with neither a temporary file
/// nor a mapper to clean up, cleaning up asks nothing and runs nothing; a mapper still named
/// is closed when it is there (as root, with that single command).
pub proof fn cleared_mapper_is_left_alone(p: Privilege, name: Seq<char>, js: Seq<Reply>)
    ensures
        cleanup_course(p, None, None, js) == quietly::<()>(Outcome::Ends { result: Ok(()), used: 0 }),
        (p.is_root && crate::linux::exists_outcome(crate::text::path_join("/dev/mapper"@, name), js) == Outcome::Ends::<bool> { result: Ok(true), used: 1 }) ==>
            cleanup_course(p, None, Some(name), js).runs
                == seq![(crate::session::privileged_argv(p, p.tools.cryptsetup@, seq!["close"@, name], true), crate::session::StreamsView::Null)],
{
    assert(js.skip(0) =~= js);
    assert(Seq::<crate::session::CommandRun>::empty() + Seq::<crate::session::CommandRun>::empty() =~= Seq::<crate::session::CommandRun>::empty());
    if p.is_root && crate::linux::exists_outcome(crate::text::path_join("/dev/mapper"@, name), js) == (Outcome::Ends::<bool> { result: Ok(true), used: 1 }) {
        let line = crate::session::privileged_argv(p, p.tools.cryptsetup@, seq!["close"@, name], true);
        let runs = seq![(line, crate::session::StreamsView::Null)];
        assert(Seq::<crate::session::CommandRun>::empty() + runs =~= runs);
        assert(runs + Seq::<crate::session::CommandRun>::empty() =~= runs);
    }
}

/// What the caller does next.
pub enum Progress {
    /// Perform this request, append its reply to the journal, and step again.
    Need(Effect),
    /// The operation is over.
    Finished(AppResult<()>),
}

/// The result of one step: what comes next, and everything the operation emitted so far.
pub struct Turn {
    pub progress: Progress,
    pub output: Output,
}

/// The course of the workflow of `command` under the privilege `p`.
pub open spec fn action_course(p: crate::session::Privilege, command: CommandAction, js: Seq<Reply>) -> crate::session::Course<()> {
    match command {
        CommandAction::Create(c) => crate::workflow::create_course(p, c, js),
        CommandAction::Mount(m) => crate::mounting::mount_course(p, m.source@, m.mountpoint@, crate::api::opt_text(m.tag), m.volume_type,
            m.passphrase, js),
        CommandAction::Unmount(u) => crate::mounting::unmount_course(p, u.target@, crate::api::opt_text(u.tag), u.volume_type, js),
    }
}

/// Why no context can be made for `command`, if none can: a missing tool, or the process
/// status that could not be read or names no effective uid.
pub open spec fn context_failure(command: CommandAction, found: FoundTools, proc_status: AppResult<String>) -> Option<Seq<char>> {
    match crate::system::spec_resolve_tools(command, found) {
        Err(m) => Some(m),
        Ok(_) => match proc_status {
            Err(e) => Some(e.message@),
            Ok(text) => match crate::system::uid_in(crate::text::lines(text@)) {
                Err(m) => Some(m),
                Ok(_) => None,
            },
        },
    }
}

/// `ctx` is the context made for `command`: the tools it needs, whether the process is root,
/// `output`, and nothing done yet.
pub open spec fn context_made(ctx: AppContext, command: CommandAction, output: Output, found: FoundTools, proc_status: AppResult<String>) -> bool {
    &&& crate::system::spec_resolve_tools(command, found) matches Ok(t) && crate::system::same_tools(ctx.tools, t)
    &&& proc_status matches Ok(text) && crate::system::uid_in(crate::text::lines(text@)) matches Ok(uid) && ctx.is_root == (uid == 0)
    &&& ctx.output == output
    &&& !ctx.sudo_ready
    &&& ctx.cleanup_mapper is None
    &&& !ctx.veracrypt_fallback_noticed
}

/// `e` is the request that cleaning up after a failure of `command` in `p`, with `js` left of
/// the journal, waits on: the removal of a temporary file, which only a create leaves, or a
/// step of closing a mapper left open, which an unmount never leaves.
pub open spec fn cleanup_waits(e: Effect, command: CommandAction, p: Privilege, js: Seq<Reply>) -> bool {
    exists|q: Privilege, temp: Option<Seq<char>>, mapper: Option<Seq<char>>|
        q.tools == p.tools && q.is_root == p.is_root
            && (!(command is Create) ==> temp is None)
            && (command is Unmount ==> mapper is None)
            && Some(request_of(e)) == #[trigger] pending(cleanup_course(q, temp, mapper, js))
}

/// What comes next once a workflow in `p` followed `c` on the journal `js`: finished when it
/// ended well; after an error, that error, unless its cleanup waits on a request first; when
/// the journal ran short, the request the course waits on.
pub open spec fn progress_after(progress: Progress, command: CommandAction, c: crate::session::Course<()>, p: Privilege, js: Seq<Reply>) -> bool {
    match c.outcome {
        crate::session::Outcome::Ends { result: Ok(()), .. } => progress == Progress::Finished(Ok(())),
        crate::session::Outcome::Ends { result: Err(m), used } => (progress matches Progress::Need(e) && cleanup_waits(e, command, p, js.skip(used as int)))
            || (progress matches Progress::Finished(Err(e)) && e.message@ == m),
        crate::session::Outcome::Short(_) => progress matches Progress::Need(e) && Some(request_of(e)) == pending(c),
    }
}

/// What `run` may give for `command` with `output`, the tools found, the process status and
/// the journal `js`: a turn in the output's mode; the error of a context that cannot be
/// made; otherwise what comes next once the workflow followed its course. A block-device
/// create without `force` neither asks to run a program nor succeeds.
pub open spec fn run_turn(command: CommandAction, output: Output, found: FoundTools, proc_status: AppResult<String>, js: Seq<Reply>, t: Turn) -> bool {
    &&& t.output.mode == output.mode
    &&& match context_failure(command, found, proc_status) {
        Some(m) => t.progress matches Progress::Finished(Err(e)) && e.message@ == m,
        None => exists|ctx: AppContext| #[trigger] context_made(ctx, command, output, found, proc_status)
            && progress_after(t.progress, command, action_course(crate::session::privilege(ctx), command, js),
                crate::session::privilege(ctx), js),
    }
    &&& (command matches CommandAction::Create(c) && c.source_kind == SourceKind::Block && !c.force ==>
        !(t.progress matches Progress::Need(e) && is_exec(e)))
    &&& (command matches CommandAction::Create(c) && c.source_kind == SourceKind::Block && !c.force ==>
        !(t.progress matches Progress::Finished(Ok(()))))
}

/// Runs an operation against the replies gathered so far: its tools and privilege are taken from
/// what the system offers, the workflow runs, and a failure is cleaned up after. The caller
/// performs each requested effect, appends the reply, and steps again with the same command,
/// output and facts. A block-device create without `force` never asks to run a program.
pub fn run(command: &CommandAction, output: Output, found: &FoundTools, proc_status: &AppResult<String>, journal: Vec<Reply>) -> (t: Turn)
    ensures
        run_turn(*command, output, *found, *proc_status, journal@, t),
{
    let mode = output.mode;
    let ctx = match AppContext::new(command, output, found, proc_status) {
        Ok(ctx) => ctx,
        Err(e) => return Turn { progress: Progress::Finished(Err(e)), output: Output { mode, entries: Vec::new() } },
    };
    let ghost made = ctx;
    assert(context_made(made, *command, output, *found, *proc_status));
    let mut s = Session::new(ctx, journal);
    let ghost start = s;
    let r = crate::workflow::perform(&mut s, command);
    let ghost after = s;
    let ghost c = action_course(crate::session::privilege(made), *command, journal@);
    proof {
        if c.outcome is Short {
            crate::session::lemma_pending(start, after, r, c, |u: ()| u);
        }
    }
    let progress = match r {
        Ok(()) => Progress::Finished(Ok(())),
        Err(Halt::Pending) => match s.need.take() {
            Some(e) => Progress::Need(e),
            None => Progress::Finished(Err(AppError::new(owned("The operation stopped without a request.")))),
        },
        Err(Halt::Failed(e)) => {
            let ghost failed_at = s;
            let cleaned = clean_up(&mut s);
            assert(crate::session::same_setup(start.ctx, s.ctx));
            let ghost cc = cleanup_course(privilege(failed_at.ctx), crate::api::opt_text(failed_at.temp_file),
                match failed_at.ctx.cleanup_mapper { Some(m) => Some(m@), None => None }, crate::session::journal(failed_at));
            proof {
                if cc.outcome is Short {
                    crate::session::lemma_pending(failed_at, s, cleaned, cc, |u: ()| u);
                    assert(pending(cleanup_course(privilege(failed_at.ctx), crate::api::opt_text(failed_at.temp_file),
                        match failed_at.ctx.cleanup_mapper { Some(m) => Some(m@), None => None }, crate::session::journal(failed_at))) == pending(cc));
                }
            }
            match cleaned {
                Ok(()) => Progress::Finished(Err(e)),
                Err(Halt::Pending) => match s.need.take() {
                    Some(n) => Progress::Need(n),
                    None => Progress::Finished(Err(e)),
                },
                Err(Halt::Failed(_)) => Progress::Finished(Err(e)),
            }
        },
    };
    assert(progress_after(progress, *command, c, crate::session::privilege(made), journal@));
    Turn { progress, output: s.ctx.output }
}

/// The response to an operation that ended with `result`, with the entries it emitted: the
/// entries, followed on failure by an error entry with the message, which is also the error.
pub open spec fn spec_response(result: Result<(), Seq<char>>, entries: Seq<(OutputLevel, Seq<char>)>) -> (bool, Seq<(OutputLevel, Seq<char>)>, Option<Seq<char>>) {
    match result {
        Ok(()) => (true, entries, None),
        Err(m) => (false, entries.push((OutputLevel::Error, m)), Some(m)),
    }
}

/// The response for an operation that ended with `result` after emitting `output`.
pub fn operation_response(result: &AppResult<()>, output: &Output) -> (r: OperationResponse)
    ensures
        (r.ok, entries_view(r.logs@), crate::api::opt_text(r.error)) == spec_response(match *result {
            Ok(()) => Ok(()),
            Err(e) => Err(e.message@),
        }, entries_view(output.entries@)),
{
    let mut logs = crate::output::duplicate_entries(&output.entries);
    match result {
        Ok(()) => OperationResponse { ok: true, logs, error: None },
        Err(e) => {
            let ghost before = logs@;
            logs.push(OutputEntry::error(e.message.clone()));
            assert(entries_view(logs@) =~= entries_view(before).push((OutputLevel::Error, e.message@)));
            OperationResponse { ok: false, logs, error: Some(e.message.clone()) }
        },
    }
}

/// The response for a failure before any operation ran: just the error.
pub fn operation_error(message: String) -> (r: OperationResponse)
    ensures
        !r.ok,
        entries_view(r.logs@) == seq![(OutputLevel::Error, message@)],
        crate::api::opt_text(r.error) == Some(message@),
{
    let mut logs: Vec<OutputEntry> = Vec::new();
    logs.push(OutputEntry::error(message.clone()));
    assert(entries_view(logs@) =~= seq![(OutputLevel::Error, message@)]);
    OperationResponse { ok: false, logs, error: Some(message) }
}


/// The result a response reports: success, or its error.
pub open spec fn response_result(response: OperationResponse) -> Result<(), Seq<char>> {
    match response.error {
        None => Ok(()),
        Some(e) => Err(e@),
    }
}

/// What the helper does next with an operation whose output is kept.
pub enum BufferedTurn {
    /// Perform this request, append its reply to the journal, and step again.
    Need(Effect),
    /// The operation is over; this is its response.
    Done(OperationResponse),
}

/// What comes next for an operation with its output kept once its workflow followed `c`: as
/// for `progress_after`, with the end given as a response.
pub open spec fn buffered_after(t: BufferedTurn, command: CommandAction, c: crate::session::Course<()>, p: Privilege, js: Seq<Reply>) -> bool {
    match c.outcome {
        crate::session::Outcome::Ends { result: Ok(()), .. } => t matches BufferedTurn::Done(r) && r.ok,
        crate::session::Outcome::Ends { result: Err(m), used } => (t matches BufferedTurn::Need(e) && cleanup_waits(e, command, p, js.skip(used as int)))
            || (t matches BufferedTurn::Done(r) && !r.ok && crate::api::opt_text(r.error) == Some(m)),
        crate::session::Outcome::Short(_) => t matches BufferedTurn::Need(e) && Some(request_of(e)) == pending(c),
    }
}

/// The buffered turn made of the turn `turn`: the same request, or the response with the
/// entries `turn` emitted and, on failure, the error.
pub open spec fn buffered_from(t: BufferedTurn, turn: Turn) -> bool {
    match turn.progress {
        Progress::Need(e) => t == BufferedTurn::Need(e),
        Progress::Finished(result) => t matches BufferedTurn::Done(r)
            && (r.ok, entries_view(r.logs@), crate::api::opt_text(r.error)) == spec_response(match result {
                Ok(()) => Ok(()),
                Err(e) => Err(e.message@),
            }, entries_view(turn.output.entries@)),
    }
}

/// Runs an operation with its output kept, against the replies gathered so far; once it is
/// over, its response holds the entries it emitted and, on failure, the error.
pub fn run_buffered(command: &CommandAction, found: &FoundTools, proc_status: &AppResult<String>, journal: Vec<Reply>) -> (t: BufferedTurn)
    ensures
        exists|output: Output, turn: Turn| #[trigger] run_turn(*command, output, *found, *proc_status, journal@, turn)
            && output.mode == crate::output::OutputMode::Buffered && output.entries@.len() == 0
            && buffered_from(t, turn),
        t matches BufferedTurn::Done(response) ==> (response.ok <==> response.error is None),
        t matches BufferedTurn::Done(response) ==> exists|emitted: Seq<(OutputLevel, Seq<char>)>|
            #[trigger] spec_response(response_result(response), emitted) == (response.ok, entries_view(response.logs@), crate::api::opt_text(response.error)),
        match context_failure(*command, *found, *proc_status) {
            Some(m) => t matches BufferedTurn::Done(r) && !r.ok && crate::api::opt_text(r.error) == Some(m),
            None => exists|ctx: AppContext, output: Output| #[trigger] context_made(ctx, *command, output, *found, *proc_status)
                && buffered_after(t, *command, action_course(crate::session::privilege(ctx), *command, journal@), crate::session::privilege(ctx), journal@),
        },
        command matches CommandAction::Create(c) && c.source_kind == SourceKind::Block && !c.force ==>
            !(t matches BufferedTurn::Need(e) && is_exec(e)),
        command matches CommandAction::Create(c) && c.source_kind == SourceKind::Block && !c.force ==>
            (t matches BufferedTurn::Done(response) ==> !response.ok),
{
    let ghost replies = journal@;
    let ghost journal_view = journal@;
    let out = Output::buffered();
    let ghost first_output = out;
    let turn = run(command, out, found, proc_status, journal);
    let ghost progress = turn.progress;
    let ghost emitted = entries_view(turn.output.entries@);
    let t = match turn.progress {
        Progress::Need(e) => BufferedTurn::Need(e),
        Progress::Finished(result) => BufferedTurn::Done(operation_response(&result, &turn.output)),
    };
    assert(buffered_from(t, turn));
    assert(run_turn(*command, first_output, *found, *proc_status, journal_view, turn));
    proof {
        if t is Done {
            let response = t->Done_0;
            assert(spec_response(response_result(response), emitted) == (response.ok, entries_view(response.logs@), crate::api::opt_text(response.error)));
        }
    }
    proof {
        if context_failure(*command, *found, *proc_status) is None {
            let ctx = choose|ctx: AppContext| #[trigger] context_made(ctx, *command, first_output, *found, *proc_status)
                && progress_after(progress, *command, action_course(crate::session::privilege(ctx), *command, replies),
                    crate::session::privilege(ctx), replies);
            assert(context_made(ctx, *command, first_output, *found, *proc_status));
            assert(buffered_after(t, *command, action_course(crate::session::privilege(ctx), *command, replies), crate::session::privilege(ctx), replies));
        }
    }
    t
}

} // verus!
