//! The mount and unmount workflows: open a container as its mapper and mount it, or unmount
//! a volume and close its mapper.

use vstd::prelude::*;
use crate::api::{opt_text, MountCommand, UnmountCommand};
use crate::cli::strings_view;
use crate::commands;
use crate::inspect::{detect_filesystem_type, detect_source_volume_type, detect_umount_volume_type, resolve_veracrypt_umount_identifier};
use crate::linux;
use crate::model::VolumeType;
use crate::session::{
    after, course_after, fail, follows, journal, privilege, quietly, ran_nothing, refreshed, run_course, same_plans, settles, Course, Halt,
    Outcome, Privilege, Reply, Session, StdioMode, Step, CommandRun, StreamsView,
};
use crate::text::{concat2, concat3, owned, path_join, push_str};
use crate::workflow::{
    carried, crypt_close, header_is_twofish, luks_open, passphrase_stdio, passphrase_streams, require_passphrase_tty,
    require_supported_veracrypt_tag, succeeded_running, tcrypt_open,
};

verus! {

broadcast use vstd::string::group_string_axioms, crate::session::lemma_runs_chain, crate::session::lemma_quiet_runs,
    vstd::seq_lib::lemma_seq_skip_of_skip;

/// Mounting the open mapper `name` at `mountpoint`: the filesystem on it is detected, then it
/// is mounted (compressed, for Btrfs).
pub open spec fn mount_mapper_course(ctx: Privilege, name: Seq<char>, mountpoint: Seq<char>, js: Seq<Reply>) -> Course<()> {
    let device = path_join("/dev/mapper"@, name);
    let runs = crate::inspect::filesystem_runs(ctx, device, js);
    match crate::inspect::filesystem_outcome(ctx, js) {
        Outcome::Short(w) => Course { outcome: Outcome::Short(w), runs },
        Outcome::Ends { result: Err(m), used } => Course { outcome: Outcome::Ends { result: Err(m), used }, runs },
        Outcome::Ends { result: Ok(fs), used } => if ctx.tools.mount is None {
            Course { outcome: Outcome::Ends { result: Err(crate::system::missing_tool("mount"@)), used }, runs }
        } else {
            let now = if ctx.tools.blkid is Some { refreshed(ctx) } else { ctx };
            course_after(used, runs, run_course(now, true,
                crate::session::privileged_argv(now, ctx.tools.mount->0@, commands::mount_line(fs, device, mountpoint), true),
                StreamsView::Inherit, "Failed to mount filesystem"@, js.skip(used as int)))
        },
    }
}

/// Mounts an open mapper at `mountpoint`, with `compress=zstd` when it holds Btrfs.
pub(crate) fn mount_open_mapper(s: &mut Session, mapper_name: &str, mountpoint: &str) -> (r: Step<()>)
    ensures
        carried(*old(s), *final(s)),
        same_plans(*old(s), *final(s)),
        r is Ok ==> old(s).ctx.tools.mount is Some && exists|fs: Option<Seq<char>>| succeeded_running(*old(s), *final(s), old(s).ctx,
            old(s).ctx.tools.mount->0@, commands::mount_line(fs, path_join("/dev/mapper"@, mapper_name@), mountpoint@), StdioMode::Inherit),
        follows(*old(s), *final(s), r, mount_mapper_course(privilege(old(s).ctx), mapper_name@, mountpoint@, journal(*old(s))), |u: ()| u),
        r is Ok ==> final(s).ctx.is_root || final(s).ctx.sudo_ready,
{
    let mapper_path = crate::naming::mapper_device_path(mapper_name);
    let detected = detect_filesystem_type(s, mapper_path.as_str());
    let ghost detected_at = *s;
    proof {
        let runs = crate::inspect::filesystem_runs(privilege(old(s).ctx), mapper_path@, journal(*old(s)));
        assert(runs + Seq::<crate::session::CommandRun>::empty() =~= runs);
    }
    let filesystem = detected?;
    proof {
        crate::session::lemma_acts_as(privilege(s.ctx),
            if old(s).ctx.tools.blkid is Some { crate::session::refreshed(privilege(old(s).ctx)) } else { privilege(old(s).ctx) });
    }
    match &filesystem {
        Some(f) => s.ctx.output.msg2(concat2("Detected filesystem: ", f.as_str()).as_str()),
        None => s.ctx.output.msg2("Filesystem type could not be detected; mounting without filesystem-specific options"),
    }
    s.ctx.output.msg2(concat2("Mounting filesystem at ", mountpoint).as_str());
    let args = commands::mount_args(&filesystem, mapper_path.as_str(), mountpoint);
    let mount = match s.ctx.mount_path() {
        Ok(m) => m,
        Err(e) => {
            proof { crate::session::lemma_framed_step(*old(s), *old(s), detected_at, *s); }
            return Err(Halt::Failed(e));
        },
    };
    let ghost before_mount = *s;
    let r = s.run_command(mount.as_str(), &args, true, "Failed to mount filesystem");
    proof { crate::session::lemma_two_steps(*old(s), detected_at, before_mount, *s); }
    proof {
        if r is Ok {
            assert(succeeded_running(*old(s), *s, old(s).ctx, old(s).ctx.tools.mount->0@,
                commands::mount_line(opt_text(filesystem), path_join("/dev/mapper"@, mapper_name@), mountpoint@), StdioMode::Inherit));
        }
    }
    r
}

/// What reading the header of a LUKS source comes to: whether it uses Twofish (a header that
/// cannot be read is taken as not).
pub open spec fn twofish_outcome(ctx: Privilege, js: Seq<Reply>) -> Outcome<bool> {
    match crate::session::capture_outcome(ctx, true, "Failed to inspect LUKS header"@, js) {
        Outcome::Ends { result: Ok(ran), used } => Outcome::Ends {
            result: Ok(ran.success && crate::workflow::dump_shows_twofish(crate::text::lines(crate::mountinfo::utf8_lossy(ran.stdout@)))),
            used,
        },
        Outcome::Ends { result: Err(m), used } => Outcome::Ends { result: Err(m), used },
        Outcome::Short(w) => Outcome::Short(w),
    }
}

/// What reading the header of a LUKS source asks to run.
pub open spec fn dump_runs(ctx: Privilege, source: Seq<char>, js: Seq<Reply>) -> Seq<CommandRun> {
    crate::session::launch_lines(ctx, true, crate::session::privileged_argv(ctx, ctx.tools.cryptsetup@, seq!["luksDump"@, source], true), StreamsView::Capture, js)
}

/// What opening a LUKS source as `name` and mounting it comes to.
pub open spec fn luks_opened_course(ctx: Privilege, source: Seq<char>, name: Seq<char>, mountpoint: Seq<char>, perf: bool, passphrase: Option<String>, js: Seq<Reply>) -> Course<()> {
    let open = run_course(ctx, true,
        crate::session::privileged_argv(ctx, ctx.tools.cryptsetup@, commands::luks_open_line(source, name, perf, passphrase is Some), true),
        crate::workflow::passphrase_streams(passphrase, false)@,
        "Failed to open LUKS mapper"@, js);
    match open.outcome {
        Outcome::Ends { result: Ok(()), used } => course_after(used, open.runs, mount_mapper_course(refreshed(ctx), name, mountpoint, js.skip(used as int))),
        _ => open,
    }
}

/// What opening a LUKS source comes to once its mapper is named: its header is read (the
/// Twofish options go with a Twofish header), the mapper is opened, then mounted.
pub open spec fn luks_open_mount_course(ctx: Privilege, source: Seq<char>, name: Seq<char>, mountpoint: Seq<char>, passphrase: Option<String>, js: Seq<Reply>) -> Course<()> {
    let runs = dump_runs(ctx, source, js);
    match twofish_outcome(ctx, js) {
        Outcome::Short(w) => Course { outcome: Outcome::Short(w), runs },
        Outcome::Ends { result: Err(m), used } => Course { outcome: Outcome::Ends { result: Err(m), used }, runs },
        Outcome::Ends { result: Ok(perf), used } => course_after(used, runs,
            luks_opened_course(refreshed(ctx), source, name, mountpoint, perf, passphrase, js.skip(used as int))),
    }
}

/// What a mount step comes to once the passphrase prompt is settled and its mapper is named:
/// nothing is asked of the system before `then` begins.
pub open spec fn named_course(passphrase: Option<String>, source: Seq<char>, tag: Option<Seq<char>>, js: Seq<Reply>) -> Outcome<Seq<char>> {
    match crate::workflow::tty_outcome(passphrase, js) {
        Outcome::Short(w) => Outcome::Short(w),
        Outcome::Ends { result: Err(m), used } => Outcome::Ends { result: Err(m), used },
        Outcome::Ends { result: Ok(()), used } => after(used, linux::source_name_outcome(source, tag, js.skip(used as int))),
    }
}

/// What mounting a LUKS source comes to: a terminal for the passphrase unless it was handed
/// over, its mapper named (by its tag or its path), then opened and mounted.
pub open spec fn luks_mount_course(ctx: Privilege, source: Seq<char>, mountpoint: Seq<char>, tag: Option<Seq<char>>, passphrase: Option<String>, js: Seq<Reply>) -> Course<()> {
    match named_course(passphrase, source, tag, js) {
        Outcome::Short(w) => quietly(Outcome::Short(w)),
        Outcome::Ends { result: Err(m), used } => quietly(Outcome::Ends { result: Err(m), used }),
        Outcome::Ends { result: Ok(name), used } => course_after(used, Seq::empty(),
            luks_open_mount_course(ctx, source, name, mountpoint, passphrase, js.skip(used as int))),
    }
}

/// What opening a VeraCrypt source with `cryptsetup` comes to once its mapper is named: the
/// mapper is opened, then mounted.
pub open spec fn tcrypt_open_mount_course(ctx: Privilege, source: Seq<char>, name: Seq<char>, mountpoint: Seq<char>, passphrase: Option<String>, js: Seq<Reply>) -> Course<()> {
    let open = run_course(ctx, true,
        crate::session::privileged_argv(ctx, ctx.tools.cryptsetup@, commands::tcrypt_open_line(source, name, passphrase is Some), true),
        crate::workflow::passphrase_streams(passphrase, false)@,
        "Failed to open VeraCrypt mapper with cryptsetup"@, js);
    match open.outcome {
        Outcome::Ends { result: Ok(()), used } => course_after(used, open.runs, mount_mapper_course(refreshed(ctx), name, mountpoint, js.skip(used as int))),
        _ => open,
    }
}

/// What mounting a VeraCrypt source with `cryptsetup` comes to: a terminal for the passphrase
/// unless it was handed over, its mapper named by its path, then opened and mounted.
pub open spec fn tcrypt_mount_course(ctx: Privilege, source: Seq<char>, mountpoint: Seq<char>, passphrase: Option<String>, js: Seq<Reply>) -> Course<()> {
    match named_course(passphrase, source, None, js) {
        Outcome::Short(w) => quietly(Outcome::Short(w)),
        Outcome::Ends { result: Err(m), used } => quietly(Outcome::Ends { result: Err(m), used }),
        Outcome::Ends { result: Ok(name), used } => course_after(used, Seq::empty(),
            tcrypt_open_mount_course(ctx, source, name, mountpoint, passphrase, js.skip(used as int))),
    }
}

/// What mounting a VeraCrypt source with `veracrypt` comes to: a terminal for the passphrase
/// unless it was handed over, then its mount by `veracrypt`.
pub open spec fn veracrypt_mount_course(ctx: Privilege, source: Seq<char>, mountpoint: Seq<char>, passphrase: Option<String>, js: Seq<Reply>) -> Course<()> {
    match crate::workflow::tty_outcome(passphrase, js) {
        Outcome::Short(w) => quietly(Outcome::Short(w)),
        Outcome::Ends { result: Err(m), used } => quietly(Outcome::Ends { result: Err(m), used }),
        Outcome::Ends { result: Ok(()), used } => if ctx.tools.veracrypt is None {
            quietly(Outcome::Ends { result: Err(crate::system::missing_tool("veracrypt"@)), used })
        } else {
            course_after(used, Seq::empty(), run_course(ctx, true,
                crate::session::privileged_argv(ctx, ctx.tools.veracrypt->0@, commands::veracrypt_mount_line(source, mountpoint, passphrase is Some), true),
                crate::workflow::passphrase_streams(passphrase, false)@,
                "Failed to mount VeraCrypt container"@, js.skip(used as int)))
        },
    }
}

/// Settles the passphrase prompt and names the mapper of `source`.
pub(crate) fn prompt_and_name(s: &mut Session, source: &str, tag: &Option<String>, passphrase: &Option<String>) -> (r: Step<String>)
    ensures
        crate::session::quiet(*old(s), *final(s)),
        settles(*old(s), *final(s), r, named_course(*passphrase, source@, opt_text(*tag), journal(*old(s))), |n: String| n@),
{
    require_passphrase_tty(s, passphrase)?;
    let ghost prompted = *s;
    let r = linux::mapper_name_for_source(s, source, tag);
    proof { crate::session::lemma_quiet_chain(*old(s), prompted, *s); }
    r
}

/// Whether the header of a LUKS source uses Twofish (no, when it cannot be read).
fn header_uses_twofish(s: &mut Session, source: &str) -> (r: Step<bool>)
    ensures
        carried(*old(s), *final(s)),
        same_plans(*old(s), *final(s)),
        settles(*old(s), *final(s), r, twofish_outcome(privilege(old(s).ctx), journal(*old(s))), |b: bool| b),
        crate::session::runs_since(*old(s), *final(s)) == dump_runs(privilege(old(s).ctx), source@, journal(*old(s))),
        r is Ok ==> final(s).ctx.is_root || final(s).ctx.sudo_ready,
        r is Ok ==> privilege(final(s).ctx) == refreshed(privilege(old(s).ctx)),
{
    let cryptsetup = s.ctx.cryptsetup_path();
    let dump_args = commands::luks_dump_args(source);
    let dump = s.capture_command(cryptsetup.as_str(), &dump_args, true, "Failed to inspect LUKS header")?;
    if dump.success {
        let text = crate::mountinfo::lossy_text(&dump.stdout);
        Ok(header_is_twofish(text.as_str()))
    } else {
        Ok(false)
    }
}

/// Opens a LUKS source as `mapper_name` (with the Twofish options when `perf`) and mounts it.
#[verifier::rlimit(30)]
fn luks_open_then_mount(s: &mut Session, source: &str, mapper_name: &String, mountpoint: &str, perf: bool, passphrase: &Option<String>) -> (r: Step<()>)
    ensures
        carried(*old(s), *final(s)),
        same_plans(*old(s), *final(s)),
        follows(*old(s), *final(s), r, luks_opened_course(privilege(old(s).ctx), source@, mapper_name@, mountpoint@, perf, *passphrase,
            journal(*old(s))), |u: ()| u),
{
    let mapper_path = crate::naming::mapper_device_path(mapper_name.as_str());
    s.ctx.output.msg2(concat2("Opening mapper ", mapper_path.as_str()).as_str());
    let ghost before_open = *s;
    let opened = luks_open(s, source, mapper_name.as_str(), perf, passphrase);
    let ghost opened_at = *s;
    proof {
        crate::session::lemma_framed_step(*old(s), before_open, opened_at, opened_at);
    }
    opened?;
    proof {
        crate::session::lemma_acts_as(privilege(s.ctx), refreshed(privilege(old(s).ctx)));
    }
    let r = mount_open_mapper(s, mapper_name.as_str(), mountpoint);
    proof {
        crate::session::lemma_two_steps(*old(s), opened_at, opened_at, *s);
    }
    r
}

/// Reads the header of a LUKS source, opens it as `mapper_name` and mounts it.
fn luks_open_and_mount(s: &mut Session, source: &str, mapper_name: &String, mountpoint: &str, passphrase: &Option<String>) -> (r: Step<()>)
    ensures
        carried(*old(s), *final(s)),
        same_plans(*old(s), *final(s)),
        follows(*old(s), *final(s), r, luks_open_mount_course(privilege(old(s).ctx), source@, mapper_name@, mountpoint@, *passphrase,
            journal(*old(s))), |u: ()| u),
{
    let perf = header_uses_twofish(s, source)?;
    let ghost dumped = *s;
    let r = luks_open_then_mount(s, source, mapper_name, mountpoint, perf, passphrase);
    proof { crate::session::lemma_two_steps(*old(s), dumped, dumped, *s); }
    r
}

/// Opens a LUKS source as its mapper (with the Twofish performance options when its header
/// uses Twofish) and mounts it. The mapper is closed again if mounting fails.
pub(crate) fn luks_mount_device(s: &mut Session, source: &str, mountpoint: &str, tag: &Option<String>, passphrase: &Option<String>) -> (r: Step<()>)
    ensures
        carried(*old(s), *final(s)),
        final(s).temp_file == old(s).temp_file,
        final(s).ctx.veracrypt_fallback_noticed == old(s).ctx.veracrypt_fallback_noticed,
        r is Ok ==> final(s).ctx.cleanup_mapper is None,
        follows(*old(s), *final(s), r, luks_mount_course(privilege(old(s).ctx), source@, mountpoint@, opt_text(*tag), *passphrase,
            journal(*old(s))), |u: ()| u),
{
    let mapper_name = prompt_and_name(s, source, tag, passphrase)?;
    let ghost named = *s;
    s.ctx.set_cleanup_mapper(mapper_name.clone());
    s.ctx.output.msg(concat2("Mounting source ", source).as_str());
    let ghost before = *s;
    let done_open = luks_open_and_mount(s, source, &mapper_name, mountpoint, passphrase);
    proof { crate::session::lemma_two_steps(*old(s), named, before, *s); }
    done_open?;
    let ghost mounted = *s;
    s.ctx.clear_cleanup_mapper();
    let mut done = owned("Mounted ");
    push_str(&mut done, source);
    push_str(&mut done, " at ");
    push_str(&mut done, mountpoint);
    s.ctx.output.success(done.as_str());
    s.ctx.output.msg2(concat2("Mapper name: ", mapper_name.as_str()).as_str());
    proof { crate::session::lemma_framed_step(*old(s), *old(s), mounted, *s); }
    Ok(())
}

/// Opens a VeraCrypt source with `cryptsetup` as `mapper_name` and mounts it.
#[verifier::rlimit(30)]
fn tcrypt_open_and_mount(s: &mut Session, source: &str, mapper_name: &String, mountpoint: &str, passphrase: &Option<String>) -> (r: Step<()>)
    ensures
        carried(*old(s), *final(s)),
        same_plans(*old(s), *final(s)),
        follows(*old(s), *final(s), r, tcrypt_open_mount_course(privilege(old(s).ctx), source@, mapper_name@, mountpoint@, *passphrase,
            journal(*old(s))), |u: ()| u),
{
    let mapper_path = crate::naming::mapper_device_path(mapper_name.as_str());
    s.ctx.output.msg2(concat3("Opening mapper ", mapper_path.as_str(), " with cryptsetup fallback").as_str());
    let ghost before_open = *s;
    let opened = tcrypt_open(s, source, mapper_name.as_str(), passphrase);
    let ghost opened_at = *s;
    proof {
        crate::session::lemma_framed_step(*old(s), before_open, opened_at, opened_at);
        let runs = crate::session::runs_since(before_open, opened_at);
        assert(runs + Seq::<crate::session::CommandRun>::empty() =~= runs);
    }
    opened?;
    proof {
        crate::session::lemma_acts_as(privilege(s.ctx), refreshed(privilege(old(s).ctx)));
    }
    let r = mount_open_mapper(s, mapper_name.as_str(), mountpoint);
    proof {
        crate::session::lemma_two_steps(*old(s), opened_at, opened_at, *s);
    }
    r
}

/// Opens a VeraCrypt source with `cryptsetup` and mounts it.
pub(crate) fn tcrypt_mount_device(s: &mut Session, source: &str, mountpoint: &str, passphrase: &Option<String>) -> (r: Step<()>)
    ensures
        carried(*old(s), *final(s)),
        final(s).temp_file == old(s).temp_file,
        final(s).ctx.veracrypt_fallback_noticed == old(s).ctx.veracrypt_fallback_noticed,
        r is Ok ==> final(s).ctx.cleanup_mapper is None,
        follows(*old(s), *final(s), r, tcrypt_mount_course(privilege(old(s).ctx), source@, mountpoint@, *passphrase, journal(*old(s))), |u: ()| u),
{
    let mapper_name = prompt_and_name(s, source, &None, passphrase)?;
    let ghost named = *s;
    s.ctx.set_cleanup_mapper(mapper_name.clone());
    s.ctx.output.msg(concat2("Mounting VeraCrypt source ", source).as_str());
    let ghost before = *s;
    let done_open = tcrypt_open_and_mount(s, source, &mapper_name, mountpoint, passphrase);
    proof { crate::session::lemma_two_steps(*old(s), named, before, *s); }
    done_open?;
    let ghost mounted = *s;
    s.ctx.clear_cleanup_mapper();
    let mut done = owned("Mounted ");
    push_str(&mut done, source);
    push_str(&mut done, " at ");
    push_str(&mut done, mountpoint);
    s.ctx.output.success(done.as_str());
    s.ctx.output.msg2(concat2("Mapper name: ", mapper_name.as_str()).as_str());
    proof { crate::session::lemma_framed_step(*old(s), *old(s), mounted, *s); }
    Ok(())
}

/// Mounts a VeraCrypt source with `veracrypt` itself.
#[verifier::rlimit(30)]
pub(crate) fn veracrypt_mount_device(s: &mut Session, source: &str, mountpoint: &str, passphrase: &Option<String>) -> (r: Step<()>)
    ensures
        carried(*old(s), *final(s)),
        same_plans(*old(s), *final(s)),
        r is Ok ==> old(s).ctx.tools.veracrypt is Some && succeeded_running(*old(s), *final(s), old(s).ctx, old(s).ctx.tools.veracrypt->0@,
            commands::veracrypt_mount_line(source@, mountpoint@, passphrase is Some), passphrase_streams(*passphrase, false)),
        follows(*old(s), *final(s), r, veracrypt_mount_course(privilege(old(s).ctx), source@, mountpoint@, *passphrase, journal(*old(s))), |u: ()| u),
{
    require_passphrase_tty(s, passphrase)?;
    let ghost prompted = *s;
    s.ctx.output.msg(concat2("Mounting VeraCrypt source ", source).as_str());
    let veracrypt = match s.ctx.veracrypt_path() {
        Ok(v) => v,
        Err(e) => {
            proof { crate::session::lemma_framed_step(*old(s), *old(s), prompted, *s); }
            return Err(Halt::Failed(e));
        },
    };
    let args = commands::veracrypt_mount_args(source, mountpoint, passphrase.is_some());
    let stdio = passphrase_stdio(passphrase, false);
    let ghost before_run = *s;
    let ran = s.run_status(veracrypt.as_str(), &args, true, stdio, "Failed to mount VeraCrypt container");
    proof { crate::session::lemma_two_steps(*old(s), prompted, before_run, *s); }
    ran?;
    let ghost after_run = *s;
    let mut done = owned("Mounted ");
    push_str(&mut done, source);
    push_str(&mut done, " at ");
    push_str(&mut done, mountpoint);
    s.ctx.output.success(done.as_str());
    assert(s.exchanges@ == after_run.exchanges@ && s.issued@ == after_run.issued@ && s.answered@ == after_run.answered@);
    proof { crate::session::lemma_framed_step(*old(s), *old(s), after_run, *s); }
    Ok(())
}

/// Closing the mapper `name` in `ctx`.
pub open spec fn close_course(ctx: Privilege, name: Seq<char>, js: Seq<Reply>) -> Course<()> {
    run_course(ctx, true, crate::session::privileged_argv(ctx, ctx.tools.cryptsetup@, seq!["close"@, name], true), StreamsView::Inherit, "Failed to close mapper"@, js)
}

/// Closing a resolved mapper: the filesystem at its mountpoint, if any, is unmounted first.
pub open spec fn close_resolved_course(ctx: Privilege, t: linux::ResolvedTargetView, js: Seq<Reply>) -> Course<()> {
    match t.mountpoint {
        None => close_course(ctx, t.mapper_name, js),
        Some(m) => if ctx.tools.umount is None {
            quietly(Outcome::Ends { result: Err(crate::system::missing_tool("umount"@)), used: 0 })
        } else {
            let unmount = run_course(ctx, true, crate::session::privileged_argv(ctx, ctx.tools.umount->0@, seq![m], true), StreamsView::Inherit,
                "Failed to unmount filesystem"@, js);
            match unmount.outcome {
                Outcome::Ends { result: Ok(()), used } => course_after(used, unmount.runs,
                    close_course(refreshed(ctx), t.mapper_name, js.skip(used as int))),
                _ => unmount,
            }
        },
    }
}

/// Closing the mapper behind an unmount target: the target is resolved, then its mapper is
/// closed (its filesystem unmounted first when it is mounted).
pub open spec fn dmcrypt_umount_course(ctx: Privilege, target: Seq<char>, tag: Option<Seq<char>>, js: Seq<Reply>) -> Course<()> {
    match linux::umount_target_outcome(target, tag, js) {
        Outcome::Short(w) => quietly(Outcome::Short(w)),
        Outcome::Ends { result: Err(m), used } => quietly(Outcome::Ends { result: Err(m), used }),
        Outcome::Ends { result: Ok(t), used } => course_after(used, Seq::empty(), close_resolved_course(ctx, t, js.skip(used as int))),
    }
}

/// Closes a resolved mapper, announcing it.
pub(crate) fn close_mapper_step(s: &mut Session, resolved: &linux::ResolvedUmountTarget) -> (r: Step<()>)
    ensures
        carried(*old(s), *final(s)),
        same_plans(*old(s), *final(s)),
        follows(*old(s), *final(s), r, close_course(privilege(old(s).ctx), resolved.mapper_name@, journal(*old(s))), |u: ()| u),
{
    s.ctx.output.msg2(concat2("Closing mapper ", resolved.mapper_path.as_str()).as_str());
    let ghost before = *s;
    let closed = crypt_close(s, resolved.mapper_name.as_str());
    let ghost after_close = *s;
    proof { crate::session::lemma_framed_step(*old(s), before, after_close, after_close); }
    closed?;
    s.ctx.output.success(concat2("Closed mapper ", resolved.mapper_name.as_str()).as_str());
    s.ctx.output.msg2(concat2("Resolved input kind: ", resolved.target_kind.as_str()).as_str());
    proof { crate::session::lemma_framed_step(*old(s), before, after_close, *s); }
    Ok(())
}

/// Closes a resolved mapper, unmounting its filesystem first when it is mounted.
#[verifier::rlimit(30)]
pub(crate) fn close_resolved(s: &mut Session, resolved: &linux::ResolvedUmountTarget) -> (r: Step<()>)
    ensures
        carried(*old(s), *final(s)),
        same_plans(*old(s), *final(s)),
        follows(*old(s), *final(s), r, close_resolved_course(privilege(old(s).ctx), resolved@, journal(*old(s))), |u: ()| u),
{
    match &resolved.mountpoint {
        Some(mountpoint) => {
            s.ctx.output.msg2(concat2("Unmounting filesystem at ", mountpoint.as_str()).as_str());
            let mut args: Vec<String> = Vec::new();
            args.push(mountpoint.clone());
            assert(strings_view(args@) =~= seq![mountpoint@]);
            let umount = match s.ctx.umount_path() {
                Ok(p) => p,
                Err(e) => {
                    assert(journal(*s).skip(0) =~= journal(*s));
                    proof { crate::session::lemma_no_requests(*old(s), *s); }
                    return Err(Halt::Failed(e));
                },
            };
            let ghost before = *s;
            let ran = s.run_command(umount.as_str(), &args, true, "Failed to unmount filesystem");
            let ghost unmounted = *s;
            proof { crate::session::lemma_framed_step(*old(s), before, unmounted, unmounted); }
            ran?;
            proof {
                crate::session::lemma_launch_refreshed(privilege(s.ctx), privilege(old(s).ctx), true, "Failed to close mapper"@, journal(*s));
            }
            let closed = close_mapper_step(s, resolved);
            proof {
                crate::session::lemma_two_steps(before, unmounted, unmounted, *s);
                crate::session::lemma_framed_step(*old(s), before, *s, *s);
            }
            closed
        },
        None => {
            s.ctx.output.msg2(concat2("No mounted filesystem detected for ", resolved.mapper_path.as_str()).as_str());
            let ghost before = *s;
            let closed = close_mapper_step(s, resolved);
            proof { crate::session::lemma_framed_step(*old(s), before, *s, *s); }
            closed
        },
    }
}

/// Closes the mapper behind an unmount target, unmounting its filesystem first when it is
/// mounted.
pub(crate) fn dmcrypt_umount_device(s: &mut Session, target: &str, tag: &Option<String>) -> (r: Step<()>)
    ensures
        carried(*old(s), *final(s)),
        same_plans(*old(s), *final(s)),
        follows(*old(s), *final(s), r, dmcrypt_umount_course(privilege(old(s).ctx), target@, opt_text(*tag), journal(*old(s))), |u: ()| u),
{
    let resolved = linux::resolve_umount_target(s, target, tag)?;
    let ghost resolved_at = *s;
    let mut heading = owned("Unmounting ");
    push_str(&mut heading, resolved.target_kind.as_str());
    push_str(&mut heading, " target ");
    push_str(&mut heading, resolved.origin.as_str());
    s.ctx.output.msg(heading.as_str());
    let ghost before = *s;
    let closed = close_resolved(s, &resolved);
    proof { crate::session::lemma_two_steps(*old(s), resolved_at, before, *s); }
    closed
}

/// What dismounting a VeraCrypt volume with `veracrypt` comes to: the name `veracrypt` knows it
/// by is found, then `veracrypt` dismounts it.
pub open spec fn veracrypt_umount_course(ctx: Privilege, target: Seq<char>, js: Seq<Reply>) -> Course<()> {
    let runs = crate::inspect::veracrypt_id_runs(ctx, target, js);
    match crate::inspect::veracrypt_id_outcome(ctx, target, js) {
        Outcome::Short(w) => Course { outcome: Outcome::Short(w), runs },
        Outcome::Ends { result: Err(m), used } => Course { outcome: Outcome::Ends { result: Err(m), used }, runs },
        Outcome::Ends { result: Ok(id), used } => if ctx.tools.veracrypt is None {
            Course { outcome: Outcome::Ends { result: Err(crate::system::missing_tool("veracrypt"@)), used }, runs }
        } else {
            let now = refreshed(ctx);
            course_after(used, runs, run_course(now, true,
                crate::session::privileged_argv(now, ctx.tools.veracrypt->0@, seq!["-t"@, "-u"@, id], true), StreamsView::Inherit,
                "Failed to unmount VeraCrypt target"@, js.skip(used as int)))
        },
    }
}

/// Dismounts a VeraCrypt volume with `veracrypt`: only what `veracrypt` lists as mounted.
#[verifier::rlimit(80)]
#[verifier::spinoff_prover]
pub(crate) fn veracrypt_umount_device(s: &mut Session, target: &str) -> (r: Step<()>)
    ensures
        carried(*old(s), *final(s)),
        same_plans(*old(s), *final(s)),
        follows(*old(s), *final(s), r, veracrypt_umount_course(privilege(old(s).ctx), target@, journal(*old(s))), |u: ()| u),
{
    let resolved = resolve_veracrypt_umount_identifier(s, target);
    let ghost resolved_at = *s;
    proof {
        let runs = crate::inspect::veracrypt_id_runs(privilege(old(s).ctx), target@, journal(*old(s)));
        assert(runs + Seq::<crate::session::CommandRun>::empty() =~= runs);
    }
    let identifier = resolved?;
    s.ctx.output.msg(concat2("Unmounting VeraCrypt target ", identifier.as_str()).as_str());
    let veracrypt = match s.ctx.veracrypt_path() {
        Ok(v) => v,
        Err(e) => {
            proof { crate::session::lemma_framed_step(*old(s), *old(s), resolved_at, *s); }
            return Err(Halt::Failed(e));
        },
    };
    let args = commands::veracrypt_umount_args(identifier.as_str());
    let ghost before_run = *s;
    let ran = s.run_command(veracrypt.as_str(), &args, true, "Failed to unmount VeraCrypt target");
    proof { crate::session::lemma_two_steps(*old(s), resolved_at, before_run, *s); }
    ran?;
    let ghost after_run = *s;
    s.ctx.output.success(concat2("Unmounted VeraCrypt target ", identifier.as_str()).as_str());
    proof { crate::session::lemma_framed_step(*old(s), *old(s), after_run, *s); }
    Ok(())
}

/// What warning that a tag is ignored comes to: nothing to ask without a tag or for a
/// `/dev/mapper` path; otherwise whether the target is a directory is asked.
pub open spec fn warn_outcome(target: Seq<char>, tag: Option<Seq<char>>, js: Seq<Reply>) -> Outcome<()> {
    if tag is None || crate::paths::under_mapper_dir(target) {
        Outcome::Ends { result: Ok(()), used: 0 }
    } else {
        match linux::kind_outcome(target, js, crate::session::FileKind::Dir) {
            Outcome::Ends { result: Ok(_), used } => Outcome::Ends { result: Ok(()), used },
            Outcome::Ends { result: Err(m), used } => Outcome::Ends { result: Err(m), used },
            Outcome::Short(w) => Outcome::Short(w),
        }
    }
}

/// Warns that a tag is ignored for a `/dev/mapper` path or a mountpoint.
pub(crate) fn warn_ignored_umount_tag(s: &mut Session, target: &str, tag: &Option<String>) -> (r: Step<()>)
    ensures
        carried(*old(s), *final(s)),
        same_plans(*old(s), *final(s)),
        ran_nothing(*old(s), *final(s)),
        tag is None ==> *final(s) == *old(s) && r is Ok,
        settles(*old(s), *final(s), r, warn_outcome(target@, opt_text(*tag), journal(*old(s))), |u: ()| u),
        crate::session::runs_since(*old(s), *final(s)) == Seq::<crate::session::CommandRun>::empty(),
        privilege(final(s).ctx) == privilege(old(s).ctx),
        tag is Some && !crate::paths::under_mapper_dir(target@) ==>
            crate::session::asked_at(*old(s), *final(s), 0, crate::session::QueryView::Metadata(target@)),
{
    if tag.is_none() {
        assert(journal(*s).skip(0) =~= journal(*s));
        proof { crate::session::lemma_no_requests(*old(s), *s); }
        return Ok(());
    }
    if crate::paths::is_under_mapper_dir(target) {
        s.ctx.output.warn("Ignoring -t for /dev/mapper input; the explicit mapper path takes precedence.");
        assert(journal(*s).skip(0) =~= journal(*s));
        proof { crate::session::lemma_no_requests(*old(s), *s); }
    } else {
        let dir = linux::is_dir(s, target);
        let ghost asked = *s;
        proof { crate::session::lemma_framed_step(*old(s), *old(s), asked, asked); }
        if dir? {
            s.ctx.output.warn("Ignoring -t for mountpoint input; the active mapper is resolved from the mounted filesystem.");
        }
        proof { crate::session::lemma_framed_step(*old(s), *old(s), asked, *s); }
    }
    Ok(())
}

/// What mounting a volume comes to once its type is known.
pub open spec fn typed_mount_course(ctx: Privilege, t: VolumeType, source: Seq<char>, mountpoint: Seq<char>, tag: Option<Seq<char>>,
    passphrase: Option<String>, js: Seq<Reply>) -> Course<()> {
    match t {
        VolumeType::Veracrypt => if tag is Some {
            quietly(Outcome::Ends { result: Err("Tags are not yet supported for VeraCrypt containers."@), used: 0 })
        } else if ctx.tools.veracrypt is Some {
            veracrypt_mount_course(ctx, source, mountpoint, passphrase, js)
        } else {
            tcrypt_mount_course(ctx, source, mountpoint, passphrase, js)
        },
        VolumeType::Luks => luks_mount_course(ctx, source, mountpoint, tag, passphrase, js),
        VolumeType::Auto => quietly(Outcome::Ends { result: Err("Unsupported volume type: auto"@), used: 0 }),
    }
}

/// What mounting a volume comes to: its type is detected (and checked against the requested
/// one), then it is mounted as that type.
pub open spec fn mount_course(ctx: Privilege, source: Seq<char>, mountpoint: Seq<char>, tag: Option<Seq<char>>, requested: VolumeType,
    passphrase: Option<String>, js: Seq<Reply>) -> Course<()> {
    let runs = crate::inspect::probe_runs(ctx, source, js);
    match crate::inspect::source_type_outcome(ctx, source, requested, js) {
        Outcome::Short(w) => Course { outcome: Outcome::Short(w), runs },
        Outcome::Ends { result: Err(m), used } => Course { outcome: Outcome::Ends { result: Err(m), used }, runs },
        Outcome::Ends { result: Ok(t), used } => course_after(used, runs,
            typed_mount_course(ctx, t, source, mountpoint, tag, passphrase, js.skip(used as int))),
    }
}

/// Mounts a volume of a known type.
#[verifier::rlimit(30)]
fn mount_typed(s: &mut Session, t: VolumeType, command: &MountCommand) -> (r: Step<()>)
    ensures
        carried(*old(s), *final(s)),
        final(s).temp_file == old(s).temp_file,
        r is Ok ==> final(s).ctx.cleanup_mapper == old(s).ctx.cleanup_mapper || final(s).ctx.cleanup_mapper is None,
        follows(*old(s), *final(s), r, typed_mount_course(privilege(old(s).ctx), t, command.source@, command.mountpoint@,
            opt_text(command.tag), command.passphrase, journal(*old(s))), |u: ()| u),
{
    match t {
        VolumeType::Veracrypt => {
            match require_supported_veracrypt_tag(&command.tag) {
                Ok(()) => {},
                Err(e) => {
                    assert(journal(*s).skip(0) =~= journal(*s));
                    proof { crate::session::lemma_no_requests(*old(s), *s); }
                    return Err(Halt::Failed(e));
                },
            }
            if s.ctx.have_veracrypt() {
                veracrypt_mount_device(s, command.source.as_str(), command.mountpoint.as_str(), &command.passphrase)
            } else {
                s.ctx.notice_veracrypt_fallback();
                let ghost noticed = *s;
                let r = tcrypt_mount_device(s, command.source.as_str(), command.mountpoint.as_str(), &command.passphrase);
                proof { crate::session::lemma_framed_step(*old(s), noticed, *s, *s); }
                r
            }
        },
        VolumeType::Luks => luks_mount_device(s, command.source.as_str(), command.mountpoint.as_str(), &command.tag, &command.passphrase),
        VolumeType::Auto => {
            assert(journal(*s).skip(0) =~= journal(*s));
            proof { crate::session::lemma_no_requests(*old(s), *s); }
            let m = owned("Unsupported volume type: auto");
            proof { reveal_strlit("Unsupported volume type: auto"); }
            Err(fail(m))
        },
    }
}

/// Mounts a volume after detecting its type: VeraCrypt (no tag allowed) with `veracrypt`, or
/// with `cryptsetup` when `veracrypt` is missing; LUKS with `cryptsetup`.
pub(crate) fn mount_device(s: &mut Session, command: &MountCommand) -> (r: Step<()>)
    ensures
        carried(*old(s), *final(s)),
        final(s).temp_file == old(s).temp_file,
        r is Ok ==> final(s).ctx.cleanup_mapper == old(s).ctx.cleanup_mapper || final(s).ctx.cleanup_mapper is None,
        follows(*old(s), *final(s), r, mount_course(privilege(old(s).ctx), command.source@, command.mountpoint@, opt_text(command.tag),
            command.volume_type, command.passphrase, journal(*old(s))), |u: ()| u),
        crate::inspect::probe_asks(*old(s), *final(s), command.source@),
{
    let detected = detect_source_volume_type(s, command.source.as_str(), command.volume_type);
    let ghost detected_at = *s;
    proof {
        let runs = crate::inspect::probe_runs(privilege(old(s).ctx), command.source@, journal(*old(s)));
        assert(runs + Seq::<crate::session::CommandRun>::empty() =~= runs);
    }
    let t = detected?;
    let r = mount_typed(s, t, command);
    proof {
        crate::session::lemma_runs_chain(*old(s), detected_at, *s);
        let n: int = old(s).issued@.len() as int;
        assert(s.issued@[n] == detected_at.issued@[n]);
        assert(s.issued@[n + 1] == detected_at.issued@[n + 1]);
    }
    r
}

/// What unmounting a volume comes to once its type is known, in what detecting it left.
pub open spec fn typed_unmount_course(ctx: Privilege, t: VolumeType, target: Seq<char>, tag: Option<Seq<char>>, js: Seq<Reply>) -> Course<()> {
    match t {
        VolumeType::Veracrypt => if tag is Some {
            quietly(Outcome::Ends { result: Err("Tags are not yet supported for VeraCrypt containers."@), used: 0 })
        } else if ctx.tools.veracrypt is Some {
            veracrypt_umount_course(ctx, target, js)
        } else {
            dmcrypt_umount_course(ctx, target, None, js)
        },
        VolumeType::Luks => dmcrypt_umount_course(ctx, target, tag, js),
        VolumeType::Auto => quietly(Outcome::Ends { result: Err("Unsupported volume type: auto"@), used: 0 }),
    }
}

/// What unmounting a volume comes to once the ignored tag was warned about: its type is
/// detected, then it is unmounted as that type.
pub open spec fn detected_unmount_course(ctx: Privilege, target: Seq<char>, tag: Option<Seq<char>>, requested: VolumeType, js: Seq<Reply>) -> Course<()> {
    let runs = crate::inspect::umount_type_runs(ctx, target, js);
    match crate::inspect::umount_type_outcome(ctx, target, requested, js) {
        Outcome::Short(w) => Course { outcome: Outcome::Short(w), runs },
        Outcome::Ends { result: Err(m), used } => Course { outcome: Outcome::Ends { result: Err(m), used }, runs },
        Outcome::Ends { result: Ok(t), used } => course_after(used, runs,
            typed_unmount_course(crate::inspect::umount_type_privilege(ctx, target, js), t, target, tag, js.skip(used as int))),
    }
}

/// What unmounting a volume comes to: an ignored tag is warned about, its type is detected,
/// then it is unmounted as that type.
pub open spec fn unmount_course(ctx: Privilege, target: Seq<char>, tag: Option<Seq<char>>, requested: VolumeType, js: Seq<Reply>) -> Course<()> {
    match warn_outcome(target, tag, js) {
        Outcome::Short(w) => quietly(Outcome::Short(w)),
        Outcome::Ends { result: Err(m), used } => quietly(Outcome::Ends { result: Err(m), used }),
        Outcome::Ends { result: Ok(()), used } => course_after(used, Seq::empty(),
            detected_unmount_course(ctx, target, tag, requested, js.skip(used as int))),
    }
}

/// Unmounts a volume of a known type.
#[verifier::rlimit(30)]
fn unmount_typed(s: &mut Session, t: VolumeType, command: &UnmountCommand) -> (r: Step<()>)
    ensures
        carried(*old(s), *final(s)),
        final(s).temp_file == old(s).temp_file,
        final(s).ctx.cleanup_mapper == old(s).ctx.cleanup_mapper,
        follows(*old(s), *final(s), r, typed_unmount_course(privilege(old(s).ctx), t, command.target@, opt_text(command.tag),
            journal(*old(s))), |u: ()| u),
{
    match t {
        VolumeType::Veracrypt => {
            match require_supported_veracrypt_tag(&command.tag) {
                Ok(()) => {},
                Err(e) => {
                    assert(journal(*s).skip(0) =~= journal(*s));
                    proof { crate::session::lemma_no_requests(*old(s), *s); }
                    return Err(Halt::Failed(e));
                },
            }
            if s.ctx.have_veracrypt() {
                veracrypt_umount_device(s, command.target.as_str())
            } else {
                s.ctx.notice_veracrypt_fallback();
                let ghost noticed = *s;
                let r = dmcrypt_umount_device(s, command.target.as_str(), &None);
                proof { crate::session::lemma_framed_step(*old(s), noticed, *s, *s); }
                r
            }
        },
        VolumeType::Luks => dmcrypt_umount_device(s, command.target.as_str(), &command.tag),
        VolumeType::Auto => {
            assert(journal(*s).skip(0) =~= journal(*s));
            proof { crate::session::lemma_no_requests(*old(s), *s); }
            let m = owned("Unsupported volume type: auto");
            proof { reveal_strlit("Unsupported volume type: auto"); }
            Err(fail(m))
        },
    }
}

/// Unmounts a volume after detecting its type: VeraCrypt (no tag allowed) with `veracrypt`, or
/// by closing its mapper when `veracrypt` is missing; LUKS by closing its mapper.
#[verifier::rlimit(40)]
#[verifier::spinoff_prover]
pub(crate) fn unmount_device(s: &mut Session, command: &UnmountCommand) -> (r: Step<()>)
    ensures
        carried(*old(s), *final(s)),
        final(s).temp_file == old(s).temp_file,
        final(s).ctx.cleanup_mapper == old(s).ctx.cleanup_mapper,
        follows(*old(s), *final(s), r, unmount_course(privilege(old(s).ctx), command.target@, opt_text(command.tag), command.volume_type,
            journal(*old(s))), |u: ()| u),
        !crate::paths::under_mapper_dir(command.target@) ==>
            crate::session::asked_at(*old(s), *final(s), 0, crate::session::QueryView::Metadata(command.target@)),
        command.tag is None ==> crate::inspect::umount_type_asks(*old(s), *final(s), command.target@),
{
    warn_ignored_umount_tag(s, command.target.as_str(), &command.tag)?;
    let ghost warned = *s;
    let detected = detect_umount_volume_type(s, command.target.as_str(), command.volume_type);
    let ghost detected_at = *s;
    proof {
        let runs = crate::inspect::umount_type_runs(privilege(warned.ctx), command.target@, journal(warned));
        assert(runs + Seq::<crate::session::CommandRun>::empty() =~= runs);
        crate::session::lemma_runs_chain(*old(s), warned, detected_at);
    }
    let t = detected?;
    let r = unmount_typed(s, t, command);
    proof {
        crate::session::lemma_runs_chain(*old(s), detected_at, *s);
        crate::session::lemma_runs_chain(warned, detected_at, *s);
        crate::session::lemma_asked_kept(*old(s), detected_at, *s);
    }
    r
}

} // verus!
