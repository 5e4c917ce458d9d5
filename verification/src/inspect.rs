//! What the workflows find out before they act: the type of a container or of an active
//! mapper, the filesystem on a device, and what `veracrypt` knows a mounted volume by.

use vstd::prelude::*;
use crate::commands;
use crate::cli::strings_view;
use crate::linux;
use crate::model::{SourceKind, VolumeType};
use crate::paths::under_mapper_dir;
use crate::session::{
    after, capture_outcome, fail, journal, refreshed, same_plans, settles, success_outcome, FileKind, Halt, Outcome, Reply,
    Session, StdioMode, Step, CommandRun, StreamsView,
};
use crate::session::{privilege, Privilege};
use crate::text::{lines, owned, concat2};
use crate::workflow::{carried, failed, mapper_type_from_status, mapper_type_in, resolve_volume_type, trim_stdout};

verus! {

broadcast use vstd::string::group_string_axioms, vstd::seq_lib::lemma_seq_skip_of_skip, crate::session::lemma_quiet_runs;

/// The command line that runs `program` of the tools with `args` under the privilege `ctx`.
pub open spec fn tool_line(ctx: Privilege, program: Seq<char>, args: Seq<Seq<char>>, privileged: bool) -> Seq<Seq<char>> {
    crate::session::privileged_argv(ctx, program, args, privileged)
}

/// What probing a resolved source `c` asks to run: `cryptsetup isLuks`, then, unless it
/// accepted the source, `cryptsetup tcryptDump`.
pub open spec fn probe_tools_runs(ctx: Privilege, c: Seq<char>, js: Seq<Reply>) -> Seq<CommandRun> {
    let luks = seq![(seq![ctx.tools.cryptsetup@, "isLuks"@, c], StreamsView::Null)];
    match success_outcome(ctx, false, "Failed to inspect source with cryptsetup isLuks"@, js) {
        Outcome::Ends { result: Ok(false), .. } => luks + seq![(seq![ctx.tools.cryptsetup@, "tcryptDump"@, "--type"@, "tcrypt"@, "--veracrypt"@, c], StreamsView::Null)],
        _ => luks,
    }
}

/// What probing the container at a source asks to run: the probes of its resolved form, once
/// it is resolved.
pub open spec fn probe_runs(ctx: Privilege, source: Seq<char>, js: Seq<Reply>) -> Seq<CommandRun> {
    match linux::kind_outcome(source, js, FileKind::Block) {
        Outcome::Ends { result: Ok(block), used } => {
            let resolved = if block {
                linux::canonical_outcome(source, js.skip(used as int))
            } else {
                linux::absolute_outcome(source, js.skip(used as int))
            };
            match resolved {
                Outcome::Ends { result: Ok(c), used: u2 } => probe_tools_runs(ctx, c, js.skip((used + u2) as int)),
                _ => Seq::empty(),
            }
        },
        _ => Seq::empty(),
    }
}

/// What asking for the status of the mapper `name` asks to run.
pub open spec fn status_runs(ctx: Privilege, name: Seq<char>, js: Seq<Reply>) -> Seq<CommandRun> {
    crate::session::launch_lines(ctx, true, tool_line(ctx, ctx.tools.cryptsetup@, seq!["status"@, name], true), StreamsView::Capture, js)
}

/// What probing the container at a resolved source with `cryptsetup` comes to: LUKS when
/// `isLuks` accepts it, VeraCrypt when `tcryptDump` does, none otherwise.
pub open spec fn probe_tools_outcome(ctx: Privilege, js: Seq<Reply>) -> Outcome<Option<VolumeType>> {
    match success_outcome(ctx, false, "Failed to inspect source with cryptsetup isLuks"@, js) {
        Outcome::Short(w) => Outcome::Short(w),
        Outcome::Ends { result: Err(m), used } => Outcome::Ends { result: Err(m), used },
        Outcome::Ends { result: Ok(true), used } => Outcome::Ends { result: Ok(Some(VolumeType::Luks)), used },
        Outcome::Ends { result: Ok(false), used } => match success_outcome(ctx, false, "Failed to inspect source with cryptsetup tcryptDump"@, js.skip(used as int)) {
            Outcome::Short(w) => Outcome::Short(w),
            Outcome::Ends { result: Err(m), used: u2 } => Outcome::Ends { result: Err(m), used: used + u2 },
            Outcome::Ends { result: Ok(b), used: u2 } => Outcome::Ends {
                result: Ok(if b { Some(VolumeType::Veracrypt) } else { None }),
                used: used + u2,
            },
        },
    }
}

/// What probing the container at a source comes to: the source is resolved (canonically for a
/// block device, to an absolute path otherwise), then probed.
pub open spec fn probe_outcome(ctx: Privilege, source: Seq<char>, js: Seq<Reply>) -> Outcome<Option<VolumeType>> {
    match linux::kind_outcome(source, js, FileKind::Block) {
        Outcome::Short(w) => Outcome::Short(w),
        Outcome::Ends { result: Err(m), used } => Outcome::Ends { result: Err(m), used },
        Outcome::Ends { result: Ok(block), used } => {
            let resolved = if block {
                linux::canonical_outcome(source, js.skip(used as int))
            } else {
                linux::absolute_outcome(source, js.skip(used as int))
            };
            match resolved {
                Outcome::Short(w) => Outcome::Short(w),
                Outcome::Ends { result: Err(m), used: u2 } => Outcome::Ends { result: Err(m), used: used + u2 },
                Outcome::Ends { result: Ok(_), used: u2 } => after(used + u2, probe_tools_outcome(ctx, js.skip((used + u2) as int))),
            }
        },
    }
}

/// What the type of an active mapper comes to: the type that `cryptsetup status` reports when
/// it succeeds, none when it fails.
pub open spec fn status_type_outcome(ctx: Privilege, js: Seq<Reply>) -> Outcome<Option<VolumeType>> {
    match capture_outcome(ctx, true, "Failed to inspect active mapper"@, js) {
        Outcome::Ends { result: Ok(ran), used } => Outcome::Ends {
            result: Ok(if ran.success { mapper_type_in(lines(crate::mountinfo::utf8_lossy(ran.stdout@))) } else { None }),
            used,
        },
        Outcome::Ends { result: Err(m), used } => Outcome::Ends { result: Err(m), used },
        Outcome::Short(w) => Outcome::Short(w),
    }
}

/// Whether `cryptsetup isLuks` accepts the source.
pub(crate) fn is_luks_source(s: &mut Session, source: &str) -> (r: Step<bool>)
    ensures
        carried(*old(s), *final(s)),
        same_plans(*old(s), *final(s)),
        settles(*old(s), *final(s), r, success_outcome(privilege(old(s).ctx), false, "Failed to inspect source with cryptsetup isLuks"@, journal(*old(s))), |b: bool| b),
        final(s).ctx == old(s).ctx,
        crate::session::runs_since(*old(s), *final(s)) == seq![(seq![old(s).ctx.tools.cryptsetup@, "isLuks"@, source@], StreamsView::Null)],
{
    let cryptsetup = s.ctx.cryptsetup_path();
    let args = commands::is_luks_args(source);
    assert(seq![cryptsetup@] + strings_view(args@) =~= seq![old(s).ctx.tools.cryptsetup@, "isLuks"@, source@]);
    s.command_success(cryptsetup.as_str(), &args, false, "Failed to inspect source with cryptsetup isLuks")
}

/// Whether `cryptsetup tcryptDump` accepts the source as VeraCrypt.
pub(crate) fn is_veracrypt_source(s: &mut Session, source: &str) -> (r: Step<bool>)
    ensures
        carried(*old(s), *final(s)),
        same_plans(*old(s), *final(s)),
        settles(*old(s), *final(s), r, success_outcome(privilege(old(s).ctx), false, "Failed to inspect source with cryptsetup tcryptDump"@, journal(*old(s))), |b: bool| b),
        final(s).ctx == old(s).ctx,
        crate::session::runs_since(*old(s), *final(s)) == seq![(seq![old(s).ctx.tools.cryptsetup@, "tcryptDump"@, "--type"@, "tcrypt"@, "--veracrypt"@, source@], StreamsView::Null)],
{
    let cryptsetup = s.ctx.cryptsetup_path();
    let args = commands::tcrypt_dump_args(source);
    assert(seq![cryptsetup@] + strings_view(args@) =~= seq![old(s).ctx.tools.cryptsetup@, "tcryptDump"@, "--type"@, "tcrypt"@, "--veracrypt"@, source@]);
    s.command_success(cryptsetup.as_str(), &args, false, "Failed to inspect source with cryptsetup tcryptDump")
}

/// The type of the container at a source path, as `cryptsetup` recognizes it.
pub(crate) fn probe_source_volume_type(s: &mut Session, source: &str) -> (r: Step<Option<VolumeType>>)
    ensures
        carried(*old(s), *final(s)),
        same_plans(*old(s), *final(s)),
        r matches Ok(Some(t)) ==> t != VolumeType::Auto,
        settles(*old(s), *final(s), r, probe_outcome(privilege(old(s).ctx), source@, journal(*old(s))), |t: Option<VolumeType>| t),
        crate::session::runs_since(*old(s), *final(s)) == probe_runs(privilege(old(s).ctx), source@, journal(*old(s))),
        final(s).ctx == old(s).ctx,
        probe_asks(*old(s), *final(s), source@),
{
    let block = linux::is_block_device_target(s, source)?;
    let ghost tested = *s;
    let canonical = if block {
        linux::canonical_device_path(s, source)?
    } else {
        linux::absolute_path(s, source)?
    };
    let ghost resolved = *s;
    proof { crate::session::lemma_quiet_chain(*old(s), tested, resolved); }
    let r = probe_resolved_source(s, canonical.as_str());
    proof {
        crate::session::lemma_runs_chain(*old(s), resolved, *s);
        let n: int = old(s).issued@.len() as int;
        assert(s.issued@[n] == resolved.issued@[n]);
        assert(s.issued@[n + 1] == resolved.issued@[n + 1]);
    }
    r
}

/// The requests with which probing the source `source` begins: whether it is a block device,
/// then its canonical path if it is one, or its absolute path if not.
pub open spec fn probe_asks(old: Session, new: Session, source: Seq<char>) -> bool {
    &&& crate::session::asked_at(old, new, 0, crate::session::QueryView::Metadata(source))
    &&& linux::kind_outcome(source, journal(old), FileKind::Block) matches Outcome::Ends { result: Ok(b), .. } ==>
        crate::session::asked_at(old, new, 1, if b {
            crate::session::QueryView::Canonicalize(source)
        } else {
            crate::session::QueryView::Metadata(source)
        })
}

/// The type of the container at a resolved source, as `cryptsetup` recognizes it.
fn probe_resolved_source(s: &mut Session, canonical: &str) -> (r: Step<Option<VolumeType>>)
    ensures
        carried(*old(s), *final(s)),
        same_plans(*old(s), *final(s)),
        r matches Ok(Some(t)) ==> t != VolumeType::Auto,
        settles(*old(s), *final(s), r, probe_tools_outcome(privilege(old(s).ctx), journal(*old(s))), |t: Option<VolumeType>| t),
        crate::session::runs_since(*old(s), *final(s)) == probe_tools_runs(privilege(old(s).ctx), canonical@, journal(*old(s))),
        final(s).ctx == old(s).ctx,
{
    if is_luks_source(s, canonical)? {
        return Ok(Some(VolumeType::Luks));
    }
    let ghost probed = *s;
    let r = is_veracrypt_source(s, canonical);
    proof { crate::session::lemma_runs_chain(*old(s), probed, *s); }
    if r? {
        return Ok(Some(VolumeType::Veracrypt));
    }
    Ok(None)
}

/// The type of an active mapper, from `cryptsetup status` (none when it fails).
pub(crate) fn active_mapper_volume_type(s: &mut Session, mapper_name: &str) -> (r: Step<Option<VolumeType>>)
    ensures
        carried(*old(s), *final(s)),
        same_plans(*old(s), *final(s)),
        r matches Ok(t) ==> match final(s).answered@.last() {
            Reply::Ran(Ok(ran)) => t == if ran.success { mapper_type_in(lines(crate::mountinfo::utf8_lossy(ran.stdout@))) } else { None },
            _ => false,
        },
        settles(*old(s), *final(s), r, status_type_outcome(privilege(old(s).ctx), journal(*old(s))), |t: Option<VolumeType>| t),
        r is Ok ==> final(s).ctx.is_root || final(s).ctx.sudo_ready,
        crate::session::runs_since(*old(s), *final(s)) == status_runs(privilege(old(s).ctx), mapper_name@, journal(*old(s))),
        r is Ok ==> privilege(final(s).ctx) == refreshed(privilege(old(s).ctx)),
{
    let cryptsetup = s.ctx.cryptsetup_path();
    let args = commands::status_args(mapper_name);
    let ran = s.capture_command(cryptsetup.as_str(), &args, true, "Failed to inspect active mapper")?;
    if !ran.success {
        return Ok(None);
    }
    let text = crate::mountinfo::lossy_text(&ran.stdout);
    Ok(mapper_type_from_status(text.as_str()))
}

/// What asking `veracrypt` whether it lists an identifier as mounted comes to in `ctx`: no
/// without `veracrypt`; otherwise whether the listing succeeded.
pub open spec fn listed_outcome(ctx: Privilege, js: Seq<Reply>) -> Outcome<bool> {
    if ctx.tools.veracrypt is None {
        Outcome::Ends { result: Ok(false), used: 0 }
    } else {
        crate::session::success_outcome(ctx, true, "Failed to inspect VeraCrypt mounts"@, js)
    }
}

/// The context after a `veracrypt` listing came back: sudo refreshed when `veracrypt` ran.
pub open spec fn after_listing(ctx: Privilege) -> Privilege {
    if ctx.tools.veracrypt is Some {
        refreshed(ctx)
    } else {
        ctx
    }
}

/// What `now` left a listing in: what it began with when nothing ran, a refreshed sudo when
/// `veracrypt` ran; the tools and the privilege kept.
pub open spec fn listing_left(ctx: Privilege, now: Privilege) -> bool {
    &&& now.tools == ctx.tools
    &&& now.is_root == ctx.is_root
    &&& ctx.tools.veracrypt is Some ==> now.is_root || now.sudo_ready
    &&& ctx.tools.veracrypt is None ==> now == ctx
}

/// Privileged steps taken in what a listing left come to what they come to in
/// `after_listing(ctx)`.
pub proof fn lemma_after_listing(now: Privilege, ctx: Privilege, context: Seq<char>, js: Seq<Reply>)
    requires
        listing_left(ctx, now),
    ensures
        listed_outcome(now, js) == listed_outcome(after_listing(ctx), js),
        crate::session::capture_outcome(now, true, context, js) == crate::session::capture_outcome(after_listing(ctx), true, context, js),
{
    if ctx.tools.veracrypt is Some {
        crate::session::lemma_launch_refreshed(now, ctx, true, context, js);
        crate::session::lemma_launch_refreshed(now, ctx, true, "Failed to inspect VeraCrypt mounts"@, js);
    }
}

/// Listings asked in what a listing left ask to run what they ask in `after_listing(ctx)`.
proof fn lemma_after_listing_runs(now: Privilege, ctx: Privilege, identifier: Seq<char>, js: Seq<Reply>)
    requires
        listing_left(ctx, now),
    ensures
        listed_runs(now, identifier, js) == listed_runs(after_listing(ctx), identifier, js),
{
    if ctx.tools.veracrypt is Some {
        crate::session::lemma_launch_refreshed(now, ctx, true, "Failed to inspect VeraCrypt mounts"@, js);
    }
}

/// The `veracrypt` command line that lists `identifier`.
pub open spec fn veracrypt_list_line(ctx: Privilege, identifier: Seq<char>) -> Seq<Seq<char>> {
    crate::session::privileged_argv(ctx, ctx.tools.veracrypt->0@, seq!["-t"@, "-l"@, identifier], true)
}

/// What asking `veracrypt` whether it lists `identifier` asks to run: its listing, when it is
/// there.
pub open spec fn listed_runs(ctx: Privilege, identifier: Seq<char>, js: Seq<Reply>) -> Seq<CommandRun> {
    if ctx.tools.veracrypt is None {
        Seq::empty()
    } else {
        crate::session::launch_lines(ctx, true, veracrypt_list_line(ctx, identifier), StreamsView::Null, js)
    }
}

/// Whether `veracrypt` lists `identifier` as mounted (never, without `veracrypt`).
pub fn veracrypt_target_is_mounted(s: &mut Session, identifier: &str) -> (r: Step<bool>)
    ensures
        carried(*old(s), *final(s)),
        same_plans(*old(s), *final(s)),
        old(s).ctx.tools.veracrypt is None ==> *final(s) == *old(s) && r == Ok::<bool, Halt>(false),
        r == Ok::<bool, Halt>(true) ==> old(s).ctx.tools.veracrypt is Some
            && crate::session::last_run_reported(*final(s), veracrypt_list_line(privilege(old(s).ctx), identifier@), StdioMode::Null, true),
        settles(*old(s), *final(s), r, listed_outcome(privilege(old(s).ctx), journal(*old(s))), |b: bool| b),
        r is Ok ==> listing_left(privilege(old(s).ctx), privilege(final(s).ctx)),
        r is Ok ==> privilege(final(s).ctx) == after_listing(privilege(old(s).ctx)),
        crate::session::runs_since(*old(s), *final(s)) == listed_runs(privilege(old(s).ctx), identifier@, journal(*old(s))),
{
    if !s.ctx.have_veracrypt() {
        assert(journal(*s).skip(0) =~= journal(*s));
        proof { crate::session::lemma_no_requests(*old(s), *s); }
        return Ok(false);
    }
    let veracrypt = failed(s.ctx.veracrypt_path())?;
    let args = commands::veracrypt_list_args(identifier);
    assert(crate::session::command_argv(s.ctx, veracrypt@, strings_view(args@), true) == veracrypt_list_line(privilege(old(s).ctx), identifier@));
    s.command_success(veracrypt.as_str(), &args, true, "Failed to inspect VeraCrypt mounts")
}


/// What finding the name `veracrypt` knows a source by comes to once it did not list the
/// source as given, in what that listing left of `ctx`: the source's resolved form
/// (canonical for a block device, absolute for a file) when that differs and `veracrypt`
/// lists it; otherwise an error.
pub open spec fn resolved_listed_outcome(ctx: Privilege, target: Seq<char>, block: bool, js: Seq<Reply>) -> Outcome<Seq<char>> {
    let missing = "VeraCrypt source is not mounted: "@ + target;
    let resolved = if block {
        linux::canonical_outcome(target, js)
    } else {
        linux::absolute_outcome(target, js)
    };
    match resolved {
        Outcome::Short(w) => Outcome::Short(w),
        Outcome::Ends { result: Err(m), used } => Outcome::Ends { result: Err(m), used },
        Outcome::Ends { result: Ok(c), used } => if crate::paths::same_path(c, target) {
            Outcome::Ends { result: Err(missing), used }
        } else {
            match listed_outcome(after_listing(ctx), js.skip(used as int)) {
                Outcome::Short(w) => Outcome::Short(w),
                Outcome::Ends { result: Err(m), used: u2 } => Outcome::Ends { result: Err(m), used: used + u2 },
                Outcome::Ends { result: Ok(b), used: u2 } => Outcome::Ends {
                    result: if b { Ok(c) } else { Err(missing) },
                    used: used + u2,
                },
            }
        },
    }
}

/// What finding the name `veracrypt` knows a source by asks to run once it did not list the
/// source as given: the listing of its resolved form, when that differs.
pub open spec fn resolved_listed_runs(ctx: Privilege, target: Seq<char>, block: bool, js: Seq<Reply>) -> Seq<CommandRun> {
    let resolved = if block {
        linux::canonical_outcome(target, js)
    } else {
        linux::absolute_outcome(target, js)
    };
    match resolved {
        Outcome::Ends { result: Ok(c), used } => if crate::paths::same_path(c, target) {
            Seq::empty()
        } else {
            listed_runs(after_listing(ctx), c, js.skip(used as int))
        },
        _ => Seq::empty(),
    }
}

/// What finding the name `veracrypt` knows a source by asks to run: the listing of the source
/// as given, then, unless it was listed, what `resolved_listed_runs` says.
pub open spec fn given_or_resolved_runs(ctx: Privilege, target: Seq<char>, block: bool, js: Seq<Reply>) -> Seq<CommandRun> {
    listed_runs(ctx, target, js) + match listed_outcome(ctx, js) {
        Outcome::Ends { result: Ok(false), used } => resolved_listed_runs(ctx, target, block, js.skip(used as int)),
        _ => Seq::empty(),
    }
}

/// What finding the name `veracrypt` dismounts for what is neither a `/dev/mapper` path nor
/// a directory asks to run.
pub open spec fn device_id_runs(ctx: Privilege, target: Seq<char>, js: Seq<Reply>) -> Seq<CommandRun> {
    match linux::kind_outcome(target, js, FileKind::Block) {
        Outcome::Ends { result: Ok(true), used } => given_or_resolved_runs(ctx, target, true, js.skip(used as int)),
        Outcome::Ends { result: Ok(false), used } => match linux::source_kind_outcome(target, js.skip(used as int)) {
            Outcome::Ends { result: Ok(Some(SourceKind::File)), used: u2 } => given_or_resolved_runs(ctx, target, false, js.skip((used + u2) as int)),
            _ => Seq::empty(),
        },
        _ => Seq::empty(),
    }
}

/// What finding the name `veracrypt` dismounts for an unmount target asks to run: the
/// listings that `veracrypt_id_outcome` consults.
pub open spec fn veracrypt_id_runs(ctx: Privilege, target: Seq<char>, js: Seq<Reply>) -> Seq<CommandRun> {
    if under_mapper_dir(target) {
        match linux::mountpoint_outcome(target, js) {
            Outcome::Ends { result: Ok(Some(mnt)), used } => listed_runs(ctx, mnt, js.skip(used as int)),
            _ => Seq::empty(),
        }
    } else {
        match linux::kind_outcome(target, js, FileKind::Dir) {
            Outcome::Ends { result: Ok(true), used } => match linux::absolute_outcome(target, js.skip(used as int)) {
                Outcome::Ends { result: Ok(c), used: u2 } => listed_runs(ctx, c, js.skip((used + u2) as int)),
                _ => Seq::empty(),
            },
            Outcome::Ends { result: Ok(false), used } => device_id_runs(ctx, target, js.skip(used as int)),
            _ => Seq::empty(),
        }
    }
}

/// What finding the name `veracrypt` knows a source by comes to: the source as given when
/// `veracrypt` lists it; otherwise as `resolved_listed_outcome` says.
pub open spec fn given_or_resolved_outcome(ctx: Privilege, target: Seq<char>, block: bool, js: Seq<Reply>) -> Outcome<Seq<char>> {
    match listed_outcome(ctx, js) {
        Outcome::Short(w) => Outcome::Short(w),
        Outcome::Ends { result: Err(m), used } => Outcome::Ends { result: Err(m), used },
        Outcome::Ends { result: Ok(true), used } => Outcome::Ends { result: Ok(target), used },
        Outcome::Ends { result: Ok(false), used } => after(used, resolved_listed_outcome(ctx, target, block, js.skip(used as int))),
    }
}

/// What finding the name `veracrypt` dismounts for a `/dev/mapper` path comes to: the mapper's
/// mountpoint, when `veracrypt` lists it.
pub open spec fn mapper_id_outcome(ctx: Privilege, target: Seq<char>, js: Seq<Reply>) -> Outcome<Seq<char>> {
    let missing = "VeraCrypt mapper is not mounted: "@ + target;
    match linux::mountpoint_outcome(target, js) {
        Outcome::Short(w) => Outcome::Short(w),
        Outcome::Ends { result: Err(m), used } => Outcome::Ends { result: Err(m), used },
        Outcome::Ends { result: Ok(None), used } => Outcome::Ends { result: Err(missing), used },
        Outcome::Ends { result: Ok(Some(mnt)), used } => match listed_outcome(ctx, js.skip(used as int)) {
            Outcome::Short(w) => Outcome::Short(w),
            Outcome::Ends { result: Err(m), used: u2 } => Outcome::Ends { result: Err(m), used: used + u2 },
            Outcome::Ends { result: Ok(b), used: u2 } => Outcome::Ends {
                result: if b { Ok(mnt) } else { Err(missing) },
                used: used + u2,
            },
        },
    }
}

/// What finding the name `veracrypt` dismounts for a directory comes to: its absolute path,
/// when `veracrypt` lists it.
pub open spec fn dir_id_outcome(ctx: Privilege, target: Seq<char>, js: Seq<Reply>) -> Outcome<Seq<char>> {
    match linux::absolute_outcome(target, js) {
        Outcome::Short(w) => Outcome::Short(w),
        Outcome::Ends { result: Err(m), used } => Outcome::Ends { result: Err(m), used },
        Outcome::Ends { result: Ok(c), used } => match listed_outcome(ctx, js.skip(used as int)) {
            Outcome::Short(w) => Outcome::Short(w),
            Outcome::Ends { result: Err(m), used: u2 } => Outcome::Ends { result: Err(m), used: used + u2 },
            Outcome::Ends { result: Ok(b), used: u2 } => Outcome::Ends {
                result: if b { Ok(c) } else { Err("Not a mounted VeraCrypt path: "@ + target) },
                used: used + u2,
            },
        },
    }
}

/// What finding the name `veracrypt` dismounts for what is neither a `/dev/mapper` path nor
/// a directory comes to: a block device, or else a container file, as given or resolved.
pub open spec fn device_id_outcome(ctx: Privilege, target: Seq<char>, js: Seq<Reply>) -> Outcome<Seq<char>> {
    match linux::kind_outcome(target, js, FileKind::Block) {
        Outcome::Short(w) => Outcome::Short(w),
        Outcome::Ends { result: Err(m), used } => Outcome::Ends { result: Err(m), used },
        Outcome::Ends { result: Ok(true), used } => after(used, given_or_resolved_outcome(ctx, target, true, js.skip(used as int))),
        Outcome::Ends { result: Ok(false), used } => match linux::source_kind_outcome(target, js.skip(used as int)) {
            Outcome::Short(w) => Outcome::Short(w),
            Outcome::Ends { result: Err(m), used: u2 } => Outcome::Ends { result: Err(m), used: used + u2 },
            Outcome::Ends { result: Ok(k), used: u2 } => if k != Some(SourceKind::File) {
                Outcome::Ends { result: Err("File does not exist or is not a regular file: "@ + target), used: used + u2 }
            } else {
                after(used + u2, given_or_resolved_outcome(ctx, target, false, js.skip((used + u2) as int)))
            },
        },
    }
}

/// What finding the name `veracrypt` dismounts for an unmount target comes to: the mountpoint
/// of a `/dev/mapper` path, or the absolute path of a directory, when `veracrypt` lists it;
/// a block device or container file as given or resolved.
pub open spec fn veracrypt_id_outcome(ctx: Privilege, target: Seq<char>, js: Seq<Reply>) -> Outcome<Seq<char>> {
    if under_mapper_dir(target) {
        mapper_id_outcome(ctx, target, js)
    } else {
        match linux::kind_outcome(target, js, FileKind::Dir) {
            Outcome::Short(w) => Outcome::Short(w),
            Outcome::Ends { result: Err(m), used } => Outcome::Ends { result: Err(m), used },
            Outcome::Ends { result: Ok(true), used } => after(used, dir_id_outcome(ctx, target, js.skip(used as int))),
            Outcome::Ends { result: Ok(false), used } => after(used, device_id_outcome(ctx, target, js.skip(used as int))),
        }
    }
}

/// The name `veracrypt` knows a block device (`block`) or container file by, once it did not
/// list it as given: its resolved form, if that differs and `veracrypt` lists it.
#[verifier::rlimit(30)]
fn veracrypt_resolved(s: &mut Session, target: &str, block: bool, Ghost(ctx): Ghost<Privilege>) -> (r: Step<String>)
    requires
        listing_left(ctx, privilege(old(s).ctx)),
    ensures
        carried(*old(s), *final(s)),
        same_plans(*old(s), *final(s)),
        settles(*old(s), *final(s), r, resolved_listed_outcome(ctx, target@, block, journal(*old(s))), |id: String| id@),
        r matches Ok(id) ==> ctx.tools.veracrypt is Some
            && crate::session::last_run_reported(*final(s), veracrypt_list_line(ctx, id@), StdioMode::Null, true),
        crate::session::runs_since(*old(s), *final(s)) == resolved_listed_runs(ctx, target@, block, journal(*old(s))),
        r is Ok ==> privilege(final(s).ctx) == refreshed(privilege(old(s).ctx)),
{
    let canonical_target = if block {
        linux::canonical_device_path(s, target)?
    } else {
        linux::absolute_path(s, target)?
    };
    if crate::paths::paths_equal(canonical_target.as_str(), target) {
        return Err(fail(concat2("VeraCrypt source is not mounted: ", target)));
    }
    proof {
        lemma_after_listing(privilege(s.ctx), ctx, "Failed to inspect VeraCrypt mounts"@, journal(*s));
        lemma_after_listing_runs(privilege(s.ctx), ctx, canonical_target@, journal(*s));
    }
    let ghost second = *s;
    let listed = veracrypt_target_is_mounted(s, canonical_target.as_str());
    proof { crate::session::lemma_runs_chain(*old(s), second, *s); }
    if listed? {
        assert(veracrypt_list_line(privilege(second.ctx), canonical_target@) == veracrypt_list_line(ctx, canonical_target@));
        return Ok(canonical_target);
    }
    Err(fail(concat2("VeraCrypt source is not mounted: ", target)))
}

/// The name `veracrypt` knows a block device (`block`) or container file by: as given, or
/// resolved, whichever it lists.
fn veracrypt_given_or_resolved(s: &mut Session, target: &str, block: bool) -> (r: Step<String>)
    ensures
        carried(*old(s), *final(s)),
        same_plans(*old(s), *final(s)),
        settles(*old(s), *final(s), r, given_or_resolved_outcome(privilege(old(s).ctx), target@, block, journal(*old(s))), |id: String| id@),
        r matches Ok(id) ==> old(s).ctx.tools.veracrypt is Some
            && crate::session::last_run_reported(*final(s), veracrypt_list_line(privilege(old(s).ctx), id@), StdioMode::Null, true),
        crate::session::runs_since(*old(s), *final(s)) == given_or_resolved_runs(privilege(old(s).ctx), target@, block, journal(*old(s))),
        r is Ok ==> privilege(final(s).ctx) == refreshed(privilege(old(s).ctx)),
{
    let listed = veracrypt_target_is_mounted(s, target);
    proof {
        if !(listed matches Ok(false)) {
            assert(listed_runs(privilege(old(s).ctx), target@, journal(*old(s))) + Seq::<CommandRun>::empty()
                =~= listed_runs(privilege(old(s).ctx), target@, journal(*old(s))));
        }
    }
    if listed? {
        return Ok(owned(target));
    }
    let ghost second = *s;
    let r = veracrypt_resolved(s, target, block, Ghost(privilege(old(s).ctx)));
    proof { crate::session::lemma_runs_chain(*old(s), second, *s); }
    r
}

/// Lists `identifier` after quiet steps from `start`: it is the answer when `veracrypt` lists
/// it; otherwise `missing` is the error.
#[verifier::rlimit(30)]
fn listed_or(s: &mut Session, identifier: String, missing: String, Ghost(start): Ghost<Session>) -> (r: Step<String>)
    requires
        crate::session::quiet(start, *old(s)),
    ensures
        carried(*old(s), *final(s)),
        same_plans(*old(s), *final(s)),
        match listed_outcome(privilege(old(s).ctx), journal(*old(s))) {
            Outcome::Short(w) => r matches Err(Halt::Pending) && crate::session::waits(*final(s), w),
            Outcome::Ends { result, used } => journal(*final(s)) == journal(*old(s)).skip(used as int) && match result {
                Ok(true) => r matches Ok(id) && id@ == identifier@,
                Ok(false) => r matches Err(Halt::Failed(e)) && e.message@ == missing@,
                Err(m) => r matches Err(Halt::Failed(e)) && e.message@ == m,
            },
        },
        r matches Ok(id) ==> old(s).ctx.tools.veracrypt is Some
            && crate::session::last_run_reported(*final(s), veracrypt_list_line(privilege(old(s).ctx), id@), StdioMode::Null, true),
        crate::session::runs_since(start, *final(s)) == listed_runs(privilege(old(s).ctx), identifier@, journal(*old(s))),
        r is Ok ==> privilege(final(s).ctx) == refreshed(privilege(old(s).ctx)),
{
    let ghost before = *s;
    let listed = veracrypt_target_is_mounted(s, identifier.as_str());
    proof { crate::session::lemma_runs_chain(start, before, *s); }
    if !listed? {
        return Err(fail(missing));
    }
    Ok(identifier)
}

/// What `veracrypt` dismounts for an unmount target: the mountpoint of a `/dev/mapper`
/// path, a mounted directory, or a block device or container file that `veracrypt` lists,
/// as given or resolved. Whatever comes back, `veracrypt -t -l` listed it just before.
#[verifier::rlimit(40)]
pub fn resolve_veracrypt_umount_identifier(s: &mut Session, target: &str) -> (r: Step<String>)
    ensures
        carried(*old(s), *final(s)),
        same_plans(*old(s), *final(s)),
        settles(*old(s), *final(s), r, veracrypt_id_outcome(privilege(old(s).ctx), target@, journal(*old(s))), |id: String| id@),
        r matches Ok(id) ==> old(s).ctx.tools.veracrypt is Some
            && crate::session::last_run_reported(*final(s), veracrypt_list_line(privilege(old(s).ctx), id@), StdioMode::Null, true),
        crate::session::runs_since(*old(s), *final(s)) == veracrypt_id_runs(privilege(old(s).ctx), target@, journal(*old(s))),
        r is Ok ==> privilege(final(s).ctx) == refreshed(privilege(old(s).ctx)),
        !under_mapper_dir(target@) ==> crate::session::asked_at(*old(s), *final(s), 0, crate::session::QueryView::Metadata(target@)),
        (!under_mapper_dir(target@) && (linux::kind_outcome(target@, journal(*old(s)), FileKind::Dir) is Ends
            && linux::kind_outcome(target@, journal(*old(s)), FileKind::Dir)->Ends_result is Ok)) ==>
            crate::session::asked_at(*old(s), *final(s), 1, crate::session::QueryView::Metadata(target@)),
{
    if crate::paths::is_under_mapper_dir(target) {
        let mountpoint = match linux::find_mountpoint_for_source(s, target)? {
            Some(m) => m,
            None => return Err(fail(concat2("VeraCrypt mapper is not mounted: ", target))),
        };
        return listed_or(s, mountpoint, concat2("VeraCrypt mapper is not mounted: ", target), Ghost(*old(s)));
    }

    let dir = linux::is_dir(s, target)?;
    let ghost tested = *s;
    if dir {
        let canonical_target = linux::absolute_path(s, target)?;
        proof { crate::session::lemma_quiet_chain(*old(s), tested, *s); }
        return listed_or(s, canonical_target, concat2("Not a mounted VeraCrypt path: ", target), Ghost(*old(s)));
    }

    let r = veracrypt_device_id(s, target);
    proof { crate::session::lemma_runs_chain(*old(s), tested, *s); }
    r
}

/// What `veracrypt` dismounts for a block device or container file: as given or resolved.
#[verifier::rlimit(30)]
fn veracrypt_device_id(s: &mut Session, target: &str) -> (r: Step<String>)
    ensures
        carried(*old(s), *final(s)),
        same_plans(*old(s), *final(s)),
        settles(*old(s), *final(s), r, device_id_outcome(privilege(old(s).ctx), target@, journal(*old(s))), |id: String| id@),
        r matches Ok(id) ==> old(s).ctx.tools.veracrypt is Some
            && crate::session::last_run_reported(*final(s), veracrypt_list_line(privilege(old(s).ctx), id@), StdioMode::Null, true),
        crate::session::runs_since(*old(s), *final(s)) == device_id_runs(privilege(old(s).ctx), target@, journal(*old(s))),
        r is Ok ==> privilege(final(s).ctx) == refreshed(privilege(old(s).ctx)),
        crate::session::asked_at(*old(s), *final(s), 0, crate::session::QueryView::Metadata(target@)),
{
    let block = linux::is_block_device_target(s, target)?;
    let ghost tested_block = *s;
    if block {
        let r = veracrypt_given_or_resolved(s, target, true);
        proof { crate::session::lemma_runs_chain(*old(s), tested_block, *s); }
        return r;
    }
    match linux::source_kind_for_path(s, target)? {
        Some(SourceKind::File) => {},
        _ => return Err(fail(concat2("File does not exist or is not a regular file: ", target))),
    }
    let ghost kinded = *s;
    proof { crate::session::lemma_quiet_chain(*old(s), tested_block, kinded); }
    let r = veracrypt_given_or_resolved(s, target, false);
    proof { crate::session::lemma_runs_chain(*old(s), kinded, *s); }
    r
}

/// What the type of the container at a mount source comes to: the probed type, checked
/// against the requested one.
pub open spec fn source_type_outcome(ctx: Privilege, source: Seq<char>, requested: VolumeType, js: Seq<Reply>) -> Outcome<VolumeType> {
    match probe_outcome(ctx, source, js) {
        Outcome::Short(w) => Outcome::Short(w),
        Outcome::Ends { result: Err(m), used } => Outcome::Ends { result: Err(m), used },
        Outcome::Ends { result: Ok(a), used } => Outcome::Ends {
            result: crate::workflow::spec_resolve_volume_type(requested, a, source, "source"@, false),
            used,
        },
    }
}

/// The type of the container at a mount source, checked against the requested type.
pub(crate) fn detect_source_volume_type(s: &mut Session, source: &str, requested: VolumeType) -> (r: Step<VolumeType>)
    ensures
        carried(*old(s), *final(s)),
        same_plans(*old(s), *final(s)),
        r matches Ok(t) ==> t != VolumeType::Auto,
        settles(*old(s), *final(s), r, source_type_outcome(privilege(old(s).ctx), source@, requested, journal(*old(s))), |t: VolumeType| t),
        crate::session::runs_since(*old(s), *final(s)) == probe_runs(privilege(old(s).ctx), source@, journal(*old(s))),
        final(s).ctx == old(s).ctx,
        probe_asks(*old(s), *final(s), source@),
{
    let actual = probe_source_volume_type(s, source)?;
    failed(resolve_volume_type(requested, actual, source, "source", false))
}

/// The type to go on with for an unmount target, given what was detected: with nothing
/// detected, `auto` means LUKS; otherwise the requested type is checked against it.
pub open spec fn settle_umount_type(requested: VolumeType, actual: Option<VolumeType>, target: Seq<char>) -> Result<VolumeType, Seq<char>> {
    if requested == VolumeType::Auto && actual is None {
        Ok(VolumeType::Luks)
    } else {
        crate::workflow::spec_resolve_volume_type(requested, actual, target, "target"@, true)
    }
}

/// An outcome that ends with `result` after `used` replies.
pub open spec fn ends<V>(result: Result<V, Seq<char>>, used: nat) -> Outcome<V> {
    Outcome::Ends { result, used }
}

/// What finding out whether `veracrypt` lists the mountpoint of the mapper a `/dev/mapper` path
/// names comes to: VeraCrypt when it does; none when it does not, or nothing is mounted there.
pub open spec fn listed_mapper_outcome(ctx: Privilege, target: Seq<char>, js: Seq<Reply>) -> Outcome<Option<VolumeType>> {
    match linux::mountpoint_outcome(target, js) {
        Outcome::Short(w) => Outcome::Short(w),
        Outcome::Ends { result: Err(m), used } => ends(Err(m), used),
        Outcome::Ends { result: Ok(None), used } => ends(Ok(None), used),
        Outcome::Ends { result: Ok(Some(_)), used } => match listed_outcome(ctx, js.skip(used as int)) {
            Outcome::Short(w) => Outcome::Short(w),
            Outcome::Ends { result: Err(m), used: u2 } => ends(Err(m), used + u2),
            Outcome::Ends { result: Ok(b), used: u2 } => ends(Ok(if b { Some(VolumeType::Veracrypt) } else { None }), used + u2),
        },
    }
}

/// What the type of an active mapper named by a `/dev/mapper` path comes to: its status;
/// failing that, with `veracrypt`, whether `veracrypt` lists the mapper's mountpoint.
pub open spec fn mapper_type_outcome(ctx: Privilege, target: Seq<char>, requested: VolumeType, js: Seq<Reply>) -> Outcome<VolumeType> {
    match status_type_outcome(ctx, js) {
        Outcome::Short(w) => Outcome::Short(w),
        Outcome::Ends { result: Err(m), used } => ends(Err(m), used),
        Outcome::Ends { result: Ok(a), used } => if a is None && ctx.tools.veracrypt is Some {
            match listed_mapper_outcome(refreshed(ctx), target, js.skip(used as int)) {
                Outcome::Short(w) => Outcome::Short(w),
                Outcome::Ends { result: Err(m), used: u2 } => ends(Err(m), used + u2),
                Outcome::Ends { result: Ok(b), used: u2 } => ends(settle_umount_type(requested, b, target), used + u2),
            }
        } else {
            ends(settle_umount_type(requested, a, target), used)
        },
    }
}

/// What the type of a mountpoint comes to by its source: the status of the mapper mounted
/// there, if a `/dev/mapper` path is; nothing detected otherwise.
pub open spec fn type_by_source_outcome(ctx: Privilege, target: Seq<char>, requested: VolumeType, source: Option<Seq<char>>, js: Seq<Reply>) -> Outcome<VolumeType> {
    if source matches Some(src) && under_mapper_dir(src) {
        match status_type_outcome(ctx, js) {
            Outcome::Short(w) => Outcome::Short(w),
            Outcome::Ends { result: Err(m), used } => ends(Err(m), used),
            Outcome::Ends { result: Ok(a), used } => ends(settle_umount_type(requested, a, target), used),
        }
    } else {
        ends(settle_umount_type(requested, None, target), 0)
    }
}

/// What the type of a mountpoint at `canonical`, with the source `source`, comes to: VeraCrypt
/// when `veracrypt` lists it; otherwise by its source.
pub open spec fn mounted_type_outcome(ctx: Privilege, target: Seq<char>, requested: VolumeType, source: Option<Seq<char>>, js: Seq<Reply>) -> Outcome<VolumeType> {
    if ctx.tools.veracrypt is Some {
        match listed_outcome(ctx, js) {
            Outcome::Short(w) => Outcome::Short(w),
            Outcome::Ends { result: Err(m), used } => ends(Err(m), used),
            Outcome::Ends { result: Ok(true), used } => ends(settle_umount_type(requested, Some(VolumeType::Veracrypt), target), used),
            Outcome::Ends { result: Ok(false), used } => after(used, type_by_source_outcome(refreshed(ctx), target, requested, source, js.skip(used as int))),
        }
    } else {
        type_by_source_outcome(ctx, target, requested, source, js)
    }
}

/// What the type of a directory given to unmount comes to: that of the mountpoint at its
/// absolute path, with the source mounted there.
pub open spec fn dir_type_outcome(ctx: Privilege, target: Seq<char>, requested: VolumeType, js: Seq<Reply>) -> Outcome<VolumeType> {
    match linux::absolute_outcome(target, js) {
        Outcome::Short(w) => Outcome::Short(w),
        Outcome::Ends { result: Err(m), used } => ends(Err(m), used),
        Outcome::Ends { result: Ok(c), used } => match linux::mount_source_outcome(c, js.skip(used as int)) {
            Outcome::Short(w) => Outcome::Short(w),
            Outcome::Ends { result: Err(m), used: u2 } => ends(Err(m), used + u2),
            Outcome::Ends { result: Ok(src), used: u2 } => after(used + u2, mounted_type_outcome(ctx, target, requested, src, js.skip((used + u2) as int))),
        },
    }
}

/// What the type of an unmount target comes to: that of the mapper a `/dev/mapper` path
/// names, of a mountpoint, or of the container, probed (with nothing detected an error).
#[verifier::opaque]
pub open spec fn umount_type_outcome(ctx: Privilege, target: Seq<char>, requested: VolumeType, js: Seq<Reply>) -> Outcome<VolumeType> {
    if under_mapper_dir(target) {
        mapper_type_outcome(ctx, target, requested, js)
    } else {
        match linux::kind_outcome(target, js, FileKind::Dir) {
            Outcome::Short(w) => Outcome::Short(w),
            Outcome::Ends { result: Err(m), used } => ends(Err(m), used),
            Outcome::Ends { result: Ok(true), used } => after(used, dir_type_outcome(ctx, target, requested, js.skip(used as int))),
            Outcome::Ends { result: Ok(false), used } => match probe_outcome(ctx, target, js.skip(used as int)) {
                Outcome::Short(w) => Outcome::Short(w),
                Outcome::Ends { result: Err(m), used: u2 } => ends(Err(m), used + u2),
                Outcome::Ends { result: Ok(a), used: u2 } => ends(
                    crate::workflow::spec_resolve_volume_type(requested, a, target, "target"@, false),
                    used + u2,
                ),
            },
        }
    }
}

/// The type to go on with for an unmount target, given what was detected.
fn settle_type(requested: VolumeType, actual: Option<VolumeType>, target: &str) -> (r: Step<VolumeType>)
    ensures
        match (r, settle_umount_type(requested, actual, target@)) {
            (Ok(t), Ok(u)) => t == u,
            (Err(Halt::Failed(e)), Err(m)) => e.message@ == m,
            _ => false,
        },
{
    if requested == VolumeType::Auto && actual.is_none() {
        return Ok(VolumeType::Luks);
    }
    failed(resolve_volume_type(requested, actual, target, "target", true))
}

/// What finding the type of the active mapper a `/dev/mapper` path names asks to run: its
/// status, then, when that tells nothing and `veracrypt` is there, the listing of its
/// mountpoint.
pub open spec fn mapper_type_runs(ctx: Privilege, target: Seq<char>, js: Seq<Reply>) -> Seq<CommandRun> {
    status_runs(ctx, crate::naming::spec_normalize_mapper_name(target), js) + match status_type_outcome(ctx, js) {
        Outcome::Ends { result: Ok(None), used } => if ctx.tools.veracrypt is Some {
            match linux::mountpoint_outcome(target, js.skip(used as int)) {
                Outcome::Ends { result: Ok(Some(mnt)), used: u2 } => listed_runs(refreshed(ctx), mnt, js.skip((used + u2) as int)),
                _ => Seq::empty(),
            }
        } else {
            Seq::empty()
        },
        _ => Seq::empty(),
    }
}

/// What finding the type of a mountpoint by its source asks to run: the status of the mapper
/// mounted there, if a `/dev/mapper` path is.
pub open spec fn type_by_source_runs(ctx: Privilege, source: Option<Seq<char>>, js: Seq<Reply>) -> Seq<CommandRun> {
    if source matches Some(src) && under_mapper_dir(src) {
        status_runs(ctx, crate::naming::spec_normalize_mapper_name(source->0), js)
    } else {
        Seq::empty()
    }
}

/// What finding the type of the mountpoint at `canonical` asks to run: its listing, when
/// `veracrypt` is there, then, unless it was listed, what finding it by its source asks.
pub open spec fn mounted_type_runs(ctx: Privilege, canonical: Seq<char>, source: Option<Seq<char>>, js: Seq<Reply>) -> Seq<CommandRun> {
    if ctx.tools.veracrypt is Some {
        listed_runs(ctx, canonical, js) + match listed_outcome(ctx, js) {
            Outcome::Ends { result: Ok(false), used } => type_by_source_runs(refreshed(ctx), source, js.skip(used as int)),
            _ => Seq::empty(),
        }
    } else {
        type_by_source_runs(ctx, source, js)
    }
}

/// The privilege that finding the type of a directory given to unmount leaves: sudo
/// refreshed when `veracrypt` is there (its listing runs), or when a mapper is mounted there
/// (its status is asked).
pub open spec fn dir_type_privilege(ctx: Privilege, target: Seq<char>, js: Seq<Reply>) -> Privilege {
    match linux::absolute_outcome(target, js) {
        Outcome::Ends { result: Ok(c), used } => match linux::mount_source_outcome(c, js.skip(used as int)) {
            Outcome::Ends { result: Ok(src), .. } => if ctx.tools.veracrypt is Some || (src matches Some(p) && under_mapper_dir(p)) {
                refreshed(ctx)
            } else {
                ctx
            },
            _ => ctx,
        },
        _ => ctx,
    }
}

/// The privilege that finding the type of an unmount target leaves: sudo refreshed when it ran
/// a privileged query (a mapper's status, or a `veracrypt` listing).
#[verifier::opaque]
pub open spec fn umount_type_privilege(ctx: Privilege, target: Seq<char>, js: Seq<Reply>) -> Privilege {
    if under_mapper_dir(target) {
        refreshed(ctx)
    } else {
        match linux::kind_outcome(target, js, FileKind::Dir) {
            Outcome::Ends { result: Ok(true), used } => dir_type_privilege(ctx, target, js.skip(used as int)),
            _ => ctx,
        }
    }
}

/// What finding the type of an unmount target asks to run.
#[verifier::opaque]
pub open spec fn umount_type_runs(ctx: Privilege, target: Seq<char>, js: Seq<Reply>) -> Seq<CommandRun> {
    if under_mapper_dir(target) {
        mapper_type_runs(ctx, target, js)
    } else {
        match linux::kind_outcome(target, js, FileKind::Dir) {
            Outcome::Ends { result: Ok(true), used } => match linux::absolute_outcome(target, js.skip(used as int)) {
                Outcome::Ends { result: Ok(c), used: u2 } => match linux::mount_source_outcome(c, js.skip((used + u2) as int)) {
                    Outcome::Ends { result: Ok(src), used: u3 } => mounted_type_runs(ctx, c, src, js.skip((used + u2 + u3) as int)),
                    _ => Seq::empty(),
                },
                _ => Seq::empty(),
            },
            Outcome::Ends { result: Ok(false), used } => probe_runs(ctx, target, js.skip(used as int)),
            _ => Seq::empty(),
        }
    }
}

/// The type VeraCrypt when `veracrypt` lists the mountpoint of the mapper a `/dev/mapper` path
/// names, none otherwise; asked in what the mapper's status left of `ctx`.
#[verifier::rlimit(30)]
fn listed_mapper_type(s: &mut Session, target: &str, Ghost(ctx): Ghost<Privilege>) -> (r: Step<Option<VolumeType>>)
    requires
        old(s).ctx.tools.veracrypt is Some,
        privilege(old(s).ctx).tools == ctx.tools,
        privilege(old(s).ctx).is_root == ctx.is_root,
        old(s).ctx.is_root || old(s).ctx.sudo_ready,
    ensures
        carried(*old(s), *final(s)),
        same_plans(*old(s), *final(s)),
        settles(*old(s), *final(s), r, listed_mapper_outcome(refreshed(ctx), target@, journal(*old(s))), |t: Option<VolumeType>| t),
        crate::session::runs_since(*old(s), *final(s)) == match linux::mountpoint_outcome(target@, journal(*old(s))) {
            Outcome::Ends { result: Ok(Some(mnt)), used } => listed_runs(refreshed(ctx), mnt, journal(*old(s)).skip(used as int)),
            _ => Seq::empty(),
        },
        r is Ok ==> privilege(final(s).ctx) == privilege(old(s).ctx),
{
    match linux::find_mountpoint_for_source(s, target)? {
        Some(mountpoint) => {
            proof {
                crate::session::lemma_launch_refreshed(privilege(s.ctx), ctx, true, "Failed to inspect VeraCrypt mounts"@, journal(*s));
            }
            let ghost found = *s;
            let listed = veracrypt_target_is_mounted(s, mountpoint.as_str());
            proof { crate::session::lemma_runs_chain(*old(s), found, *s); }
            if listed? {
                Ok(Some(VolumeType::Veracrypt))
            } else {
                Ok(None)
            }
        },
        None => Ok(None),
    }
}

/// The type of the active mapper a `/dev/mapper` path names.
#[verifier::rlimit(30)]
fn detect_mapper_type(s: &mut Session, target: &str, requested: VolumeType) -> (r: Step<VolumeType>)
    ensures
        carried(*old(s), *final(s)),
        same_plans(*old(s), *final(s)),
        settles(*old(s), *final(s), r, mapper_type_outcome(privilege(old(s).ctx), target@, requested, journal(*old(s))), |t: VolumeType| t),
        crate::session::runs_since(*old(s), *final(s)) == mapper_type_runs(privilege(old(s).ctx), target@, journal(*old(s))),
        r is Ok ==> final(s).ctx.is_root || final(s).ctx.sudo_ready,
        r is Ok ==> privilege(final(s).ctx) == refreshed(privilege(old(s).ctx)),
{
    let mapper_name = crate::naming::normalize_mapper_name(target);
    let status = active_mapper_volume_type(s, mapper_name.as_str());
    proof {
        if !(status matches Ok(None) && old(s).ctx.tools.veracrypt is Some) {
            assert(status_runs(privilege(old(s).ctx), mapper_name@, journal(*old(s))) + Seq::<CommandRun>::empty()
                =~= status_runs(privilege(old(s).ctx), mapper_name@, journal(*old(s))));
        }
    }
    let mut actual = status?;
    if actual.is_none() && s.ctx.have_veracrypt() {
        let ghost asked = *s;
        let listed = listed_mapper_type(s, target, Ghost(privilege(old(s).ctx)));
        proof { crate::session::lemma_runs_chain(*old(s), asked, *s); }
        actual = listed?;
    }
    settle_type(requested, actual, target)
}

/// The type of a mountpoint by its source.
fn type_by_source(s: &mut Session, target: &str, requested: VolumeType, source: Option<String>) -> (r: Step<VolumeType>)
    ensures
        carried(*old(s), *final(s)),
        same_plans(*old(s), *final(s)),
        settles(*old(s), *final(s), r, type_by_source_outcome(privilege(old(s).ctx), target@, requested, crate::api::opt_text(source), journal(*old(s))),
            |t: VolumeType| t),
        crate::session::runs_since(*old(s), *final(s)) == type_by_source_runs(privilege(old(s).ctx), crate::api::opt_text(source), journal(*old(s))),
        r is Ok ==> if crate::api::opt_text(source) matches Some(p) && under_mapper_dir(p) {
            final(s).ctx.is_root || final(s).ctx.sudo_ready
        } else {
            final(s).ctx == old(s).ctx
        },
        r is Ok ==> privilege(final(s).ctx) == if crate::api::opt_text(source) matches Some(p) && under_mapper_dir(p) {
            refreshed(privilege(old(s).ctx))
        } else {
            privilege(old(s).ctx)
        },
{
    let mut actual: Option<VolumeType> = None;
    match source {
        Some(src) => {
            if crate::paths::is_under_mapper_dir(src.as_str()) {
                let mapper_name = crate::naming::normalize_mapper_name(src.as_str());
                actual = active_mapper_volume_type(s, mapper_name.as_str())?;
            } else {
                assert(journal(*s).skip(0) =~= journal(*s));
                proof { crate::session::lemma_no_requests(*old(s), *s); }
            }
        },
        None => {
            assert(journal(*s).skip(0) =~= journal(*s));
            proof { crate::session::lemma_no_requests(*old(s), *s); }
        },
    }
    settle_type(requested, actual, target)
}

/// The type of the mountpoint at `canonical`, with the source `source`.
#[verifier::rlimit(30)]
fn mounted_type(s: &mut Session, target: &str, requested: VolumeType, canonical: &str, source: Option<String>) -> (r: Step<VolumeType>)
    ensures
        carried(*old(s), *final(s)),
        same_plans(*old(s), *final(s)),
        settles(*old(s), *final(s), r, mounted_type_outcome(privilege(old(s).ctx), target@, requested, crate::api::opt_text(source), journal(*old(s))),
            |t: VolumeType| t),
        crate::session::runs_since(*old(s), *final(s)) == mounted_type_runs(privilege(old(s).ctx), canonical@, crate::api::opt_text(source), journal(*old(s))),
        r is Ok ==> if old(s).ctx.tools.veracrypt is Some || (crate::api::opt_text(source) matches Some(p) && under_mapper_dir(p)) {
            final(s).ctx.is_root || final(s).ctx.sudo_ready
        } else {
            final(s).ctx == old(s).ctx
        },
        r is Ok ==> privilege(final(s).ctx) == if old(s).ctx.tools.veracrypt is Some || (crate::api::opt_text(source) matches Some(p) && under_mapper_dir(p)) {
            refreshed(privilege(old(s).ctx))
        } else {
            privilege(old(s).ctx)
        },
{
    if s.ctx.have_veracrypt() {
        let listed = veracrypt_target_is_mounted(s, canonical);
        proof {
            if !(listed matches Ok(false)) {
                assert(listed_runs(privilege(old(s).ctx), canonical@, journal(*old(s))) + Seq::<CommandRun>::empty()
                    =~= listed_runs(privilege(old(s).ctx), canonical@, journal(*old(s))));
            }
        }
        if listed? {
            return settle_type(requested, Some(VolumeType::Veracrypt), target);
        }
        proof {
            crate::session::lemma_launch_refreshed(privilege(s.ctx), privilege(old(s).ctx), true, "Failed to inspect active mapper"@, journal(*s));
        }
        let ghost listed_at = *s;
        let r = type_by_source(s, target, requested, source);
        proof { crate::session::lemma_runs_chain(*old(s), listed_at, *s); }
        return r;
    }
    type_by_source(s, target, requested, source)
}

/// The type of a directory given to unmount: that of the mountpoint at its absolute path.
#[verifier::rlimit(30)]
fn detect_dir_type(s: &mut Session, target: &str, requested: VolumeType) -> (r: Step<VolumeType>)
    ensures
        carried(*old(s), *final(s)),
        same_plans(*old(s), *final(s)),
        settles(*old(s), *final(s), r, dir_type_outcome(privilege(old(s).ctx), target@, requested, journal(*old(s))), |t: VolumeType| t),
        crate::session::runs_since(*old(s), *final(s)) == match linux::absolute_outcome(target@, journal(*old(s))) {
            Outcome::Ends { result: Ok(c), used } => match linux::mount_source_outcome(c, journal(*old(s)).skip(used as int)) {
                Outcome::Ends { result: Ok(src), used: u2 } => mounted_type_runs(privilege(old(s).ctx), c, src, journal(*old(s)).skip((used + u2) as int)),
                _ => Seq::empty(),
            },
            _ => Seq::empty(),
        },
        r is Ok ==> privilege(final(s).ctx) == dir_type_privilege(privilege(old(s).ctx), target@, journal(*old(s))),
        crate::session::asked_at(*old(s), *final(s), 0, crate::session::QueryView::Metadata(target@)),
{
    let canonical_target = linux::absolute_path(s, target)?;
    let ghost resolved = *s;
    let source = linux::find_mount_source_for_mountpoint(s, canonical_target.as_str())?;
    let ghost found = *s;
    proof { crate::session::lemma_quiet_chain(*old(s), resolved, found); }
    let r = mounted_type(s, target, requested, canonical_target.as_str(), source);
    proof {
        crate::session::lemma_runs_chain(*old(s), found, *s);
        let n: int = old(s).issued@.len() as int;
        assert(s.issued@[n] == resolved.issued@[n]);
    }
    r
}

/// The type of what an unmount target holds: an active mapper (by its status, or by a
/// `veracrypt` listing of its mountpoint), a mountpoint (by `veracrypt`, or by the mapper
/// mounted there), or a container. Without a detection, `auto` means LUKS.
#[verifier::rlimit(30)]
pub(crate) fn detect_umount_volume_type(s: &mut Session, target: &str, requested: VolumeType) -> (r: Step<VolumeType>)
    ensures
        carried(*old(s), *final(s)),
        same_plans(*old(s), *final(s)),
        settles(*old(s), *final(s), r, umount_type_outcome(privilege(old(s).ctx), target@, requested, journal(*old(s))), |t: VolumeType| t),
        crate::session::runs_since(*old(s), *final(s)) == umount_type_runs(privilege(old(s).ctx), target@, journal(*old(s))),
        r is Ok ==> privilege(final(s).ctx) == umount_type_privilege(privilege(old(s).ctx), target@, journal(*old(s))),
        umount_type_asks(*old(s), *final(s), target@),
{
    proof {
        reveal(umount_type_outcome);
        reveal(umount_type_runs);
        reveal(umount_type_privilege);
    }
    if crate::paths::is_under_mapper_dir(target) {
        return detect_mapper_type(s, target, requested);
    }
    let dir = linux::is_dir(s, target)?;
    let ghost tested = *s;
    if dir {
        let r = detect_dir_type(s, target, requested);
        proof { crate::session::lemma_runs_chain(*old(s), tested, *s); }
        return r;
    }
    let probed = probe_source_volume_type(s, target);
    proof {
        crate::session::lemma_runs_chain(*old(s), tested, *s);
        let n: int = old(s).issued@.len() as int;
        assert(s.issued@[n] == tested.issued@[n]);
    }
    let actual = probed?;
    failed(resolve_volume_type(requested, actual, target, "target", false))
}

/// The requests with which detecting the type of the unmount target `target` begins, unless
/// it is a `/dev/mapper` path: whether it is a directory, then about the target again (its
/// absolute path, or whether it is a block device).
pub open spec fn umount_type_asks(old: Session, new: Session, target: Seq<char>) -> bool {
    !under_mapper_dir(target) ==> {
        &&& crate::session::asked_at(old, new, 0, crate::session::QueryView::Metadata(target))
        &&& linux::kind_outcome(target, journal(old), FileKind::Dir) matches Outcome::Ends { result: Ok(_), .. } ==>
            crate::session::asked_at(old, new, 1, crate::session::QueryView::Metadata(target))
    }
}

/// What a run reporting a filesystem says: its trimmed output, when it succeeded and that
/// is not empty.
pub open spec fn reported_filesystem(ran: crate::session::Ran) -> Option<Seq<char>> {
    let v = crate::text::trim(crate::mountinfo::utf8_lossy(ran.stdout@));
    if ran.success && v.len() > 0 {
        Some(v)
    } else {
        None
    }
}

/// What asking `lsblk` for the filesystem on a device comes to: what it reports, if it is
/// there.
pub open spec fn lsblk_filesystem_outcome(ctx: Privilege, js: Seq<Reply>) -> Outcome<Option<Seq<char>>> {
    if ctx.tools.lsblk is None {
        Outcome::Ends { result: Ok(None), used: 0 }
    } else {
        match capture_outcome(ctx, false, "Failed to inspect filesystem type with lsblk"@, js) {
            Outcome::Short(w) => Outcome::Short(w),
            Outcome::Ends { result: Err(m), used } => Outcome::Ends { result: Err(m), used },
            Outcome::Ends { result: Ok(ran), used } => Outcome::Ends { result: Ok(reported_filesystem(ran)), used },
        }
    }
}

/// What finding the filesystem on a device comes to: what `blkid` reports if it is there and
/// reports something, otherwise what `lsblk` reports.
pub open spec fn filesystem_outcome(ctx: Privilege, js: Seq<Reply>) -> Outcome<Option<Seq<char>>> {
    if ctx.tools.blkid is None {
        lsblk_filesystem_outcome(ctx, js)
    } else {
        match capture_outcome(ctx, true, "Failed to inspect filesystem type with blkid"@, js) {
            Outcome::Short(w) => Outcome::Short(w),
            Outcome::Ends { result: Err(m), used } => Outcome::Ends { result: Err(m), used },
            Outcome::Ends { result: Ok(ran), used } => if reported_filesystem(ran) is Some {
                Outcome::Ends { result: Ok(reported_filesystem(ran)), used }
            } else {
                after(used, lsblk_filesystem_outcome(ctx, js.skip(used as int)))
            },
        }
    }
}

/// What asking `lsblk` for the filesystem on `device` asks to run, if it is there.
pub open spec fn lsblk_filesystem_runs(ctx: Privilege, device: Seq<char>) -> Seq<CommandRun> {
    if ctx.tools.lsblk is None {
        Seq::empty()
    } else {
        seq![(seq![ctx.tools.lsblk->0@, "-ndo"@, "FSTYPE"@, "--"@, device], StreamsView::Capture)]
    }
}

/// What finding the filesystem on `device` asks to run: `blkid`, if it is there, then, unless
/// it reported something, `lsblk`.
pub open spec fn filesystem_runs(ctx: Privilege, device: Seq<char>, js: Seq<Reply>) -> Seq<CommandRun> {
    if ctx.tools.blkid is None {
        lsblk_filesystem_runs(ctx, device)
    } else {
        crate::session::launch_lines(ctx, true, tool_line(ctx, ctx.tools.blkid->0@, seq!["-o"@, "value"@, "-s"@, "TYPE"@, "--"@, device], true), StreamsView::Capture, js)
            + match capture_outcome(ctx, true, "Failed to inspect filesystem type with blkid"@, js) {
            Outcome::Ends { result: Ok(ran), .. } => if reported_filesystem(ran) is Some {
                Seq::empty()
            } else {
                lsblk_filesystem_runs(ctx, device)
            },
            _ => Seq::empty(),
        }
    }
}

/// The filesystem on a device: what `blkid` reports if it is there and says something,
/// otherwise what `lsblk` reports if it is there and says something.
pub(crate) fn detect_filesystem_type(s: &mut Session, device: &str) -> (r: Step<Option<String>>)
    ensures
        carried(*old(s), *final(s)),
        same_plans(*old(s), *final(s)),
        r matches Ok(Some(f)) ==> f@.len() > 0,
        settles(*old(s), *final(s), r, filesystem_outcome(privilege(old(s).ctx), journal(*old(s))), |o: Option<String>| crate::api::opt_text(o)),
        crate::session::runs_since(*old(s), *final(s)) == filesystem_runs(privilege(old(s).ctx), device@, journal(*old(s))),
        r is Ok ==> privilege(final(s).ctx) == if old(s).ctx.tools.blkid is Some { refreshed(privilege(old(s).ctx)) } else { privilege(old(s).ctx) },
{
    match s.ctx.blkid_path() {
        Some(blkid) => {
            let args = commands::blkid_type_args(device);
            let captured = s.capture_command(blkid.as_str(), &args, true, "Failed to inspect filesystem type with blkid");
            let ghost ran_at = *s;
            proof {
                let ls = crate::session::launch_lines(privilege(old(s).ctx), true, tool_line(privilege(old(s).ctx), old(s).ctx.tools.blkid->0@,
                    seq!["-o"@, "value"@, "-s"@, "TYPE"@, "--"@, device@], true), StreamsView::Capture, journal(*old(s)));
                assert(ls + Seq::<CommandRun>::empty() =~= ls);
            }
            let ran = captured?;
            if ran.success {
                let value = trim_stdout(&ran.stdout);
                if value.as_str().unicode_len() > 0 {
                    return Ok(Some(value));
                }
            }
            let r = lsblk_filesystem(s, device);
            proof { crate::session::lemma_runs_chain(*old(s), ran_at, *s); }
            r
        },
        None => lsblk_filesystem(s, device),
    }
}

/// The filesystem on a device as `lsblk` reports it, if it is there and says something.
#[verifier::rlimit(30)]
fn lsblk_filesystem(s: &mut Session, device: &str) -> (r: Step<Option<String>>)
    ensures
        carried(*old(s), *final(s)),
        same_plans(*old(s), *final(s)),
        r matches Ok(Some(f)) ==> f@.len() > 0,
        settles(*old(s), *final(s), r, lsblk_filesystem_outcome(privilege(old(s).ctx), journal(*old(s))), |o: Option<String>| crate::api::opt_text(o)),
        crate::session::runs_since(*old(s), *final(s)) == lsblk_filesystem_runs(privilege(old(s).ctx), device@),
        final(s).ctx == old(s).ctx,
{
    match s.ctx.lsblk_path() {
        Ok(lsblk) => {
            let args = commands::lsblk_column_args("FSTYPE", device);
            proof { reveal_strlit("FSTYPE"); }
            assert(seq![lsblk@] + strings_view(args@) =~= seq![old(s).ctx.tools.lsblk->0@, "-ndo"@, "FSTYPE"@, "--"@, device@]);
            let ran = s.capture_command(lsblk.as_str(), &args, false, "Failed to inspect filesystem type with lsblk")?;
            if ran.success {
                let value = trim_stdout(&ran.stdout);
                if value.as_str().unicode_len() > 0 {
                    return Ok(Some(value));
                }
            }
            Ok(None)
        },
        Err(_) => {
            assert(journal(*s).skip(0) =~= journal(*s));
            proof { crate::session::lemma_no_requests(*old(s), *s); }
            Ok(None)
        },
    }
}


} // verus!
