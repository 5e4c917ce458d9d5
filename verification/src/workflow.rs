//! The create, mount and unmount workflows, and the rules they follow.

use vstd::prelude::*;
use crate::api::{opt_text, CommandAction, CreateCommand};
use crate::cli::strings_view;
use crate::commands;
use crate::error::{io_message, AppError, AppResult};
use crate::mounting::{close_course, mount_device, unmount_device};
use crate::linux;
use crate::model::{volume_type_name, CreateCipher, SourceKind, VolumeType};
use crate::paths::{file_name, parent, under_mapper_dir};
use crate::session::{
    after, and_then, extends, fail, follows, io_error, journal, lemma_and_then, lemma_and_then_stops, lemma_quietly, privilege,
    privileged_argv, quiet, quietly, ran_nothing, refreshed, run_course, same_plans, same_setup, settles, Course, Effect, FileKind,
    FillStage, Halt, IoFailure, Outcome, Privilege, QueryView, Reply, Session, StdioMode, Step, StreamsView, asked_at, asked_since,
    lemma_asked_within,
};
use crate::text::{
    ascii_lowercase, char_vec, chars_contain, chars_lowercase, chars_skip, chars_start_with, chars_trim, concat2,
    concat3, contains_text, decimal, decimal_string, decimal_string_wide, has_prefix, lines, owned, path_join,
    push_str, split_lines, string_from_chars, trim, TrimSet,
};

verus! {

broadcast use vstd::string::group_string_axioms, crate::session::lemma_runs_chain, crate::session::lemma_quiet_runs;

/// VeraCrypt volumes take no tag.
pub open spec fn spec_veracrypt_tag_rule(tag: Option<Seq<char>>) -> Result<(), Seq<char>> {
    if tag is Some {
        Err("Tags are not yet supported for VeraCrypt containers."@)
    } else {
        Ok(())
    }
}

/// Refuses a tag for a VeraCrypt volume.
pub fn require_supported_veracrypt_tag(tag: &Option<String>) -> (r: AppResult<()>)
    ensures
        match (r, spec_veracrypt_tag_rule(opt_text(*tag))) {
            (Ok(()), Ok(())) => true,
            (Err(e), Err(m)) => e.message@ == m && e.exit_code == 1,
            _ => false,
        },
{
    if tag.is_some() {
        Err(AppError::new(owned("Tags are not yet supported for VeraCrypt containers.")))
    } else {
        Ok(())
    }
}

/// The volume type a workflow goes on with: the detected type, unless it contradicts an
/// explicit request; without a detection, an explicit request where an unverified type is
/// allowed; otherwise an error that names the subject.
pub open spec fn spec_resolve_volume_type(
    requested: VolumeType,
    actual: Option<VolumeType>,
    subject: Seq<char>,
    subject_kind: Seq<char>,
    allow_unknown_explicit: bool,
) -> Result<VolumeType, Seq<char>> {
    match actual {
        Some(a) => if requested != VolumeType::Auto && requested != a {
            Err("Requested --type "@ + volume_type_name(requested) + " but detected "@ + volume_type_name(a)
                + " container for "@ + subject_kind + ": "@ + subject)
        } else {
            Ok(a)
        },
        None => if requested != VolumeType::Auto {
            if allow_unknown_explicit {
                Ok(requested)
            } else {
                Err("Requested --type "@ + volume_type_name(requested) + " but could not verify that "@ + subject_kind
                    + " as a "@ + volume_type_name(requested) + " container: "@ + subject)
            }
        } else {
            Err("Unsupported or unrecognized encrypted "@ + subject_kind + ": "@ + subject)
        },
    }
}

/// The volume type to go on with, or why there is none.
pub fn resolve_volume_type(
    requested: VolumeType,
    actual: Option<VolumeType>,
    subject: &str,
    subject_kind: &str,
    allow_unknown_explicit: bool,
) -> (r: AppResult<VolumeType>)
    ensures
        match (r, spec_resolve_volume_type(requested, actual, subject@, subject_kind@, allow_unknown_explicit)) {
            (Ok(t), Ok(u)) => t == u,
            (Err(e), Err(m)) => e.message@ == m && e.exit_code == 1,
            _ => false,
        },
{
    match actual {
        Some(a) => {
            if requested != VolumeType::Auto && requested != a {
                let mut m = owned("Requested --type ");
                push_str(&mut m, requested.as_str());
                push_str(&mut m, " but detected ");
                push_str(&mut m, a.as_str());
                push_str(&mut m, " container for ");
                push_str(&mut m, subject_kind);
                push_str(&mut m, ": ");
                push_str(&mut m, subject);
                return Err(AppError::new(m));
            }
            Ok(a)
        },
        None => {
            if requested != VolumeType::Auto {
                if allow_unknown_explicit {
                    return Ok(requested);
                }
                let mut m = owned("Requested --type ");
                push_str(&mut m, requested.as_str());
                push_str(&mut m, " but could not verify that ");
                push_str(&mut m, subject_kind);
                push_str(&mut m, " as a ");
                push_str(&mut m, requested.as_str());
                push_str(&mut m, " container: ");
                push_str(&mut m, subject);
                return Err(AppError::new(m));
            }
            let mut m = owned("Unsupported or unrecognized encrypted ");
            push_str(&mut m, subject_kind);
            push_str(&mut m, ": ");
            push_str(&mut m, subject);
            Err(AppError::new(m))
        },
    }
}

/// The volume type an active mapper reports in `cryptsetup status`: the first `type:` line
/// whose value (trimmed, lowercased) starts with `luks`, `tcrypt` or `veracrypt` decides.
pub open spec fn mapper_type_in(ls: Seq<Seq<char>>) -> Option<VolumeType>
    decreases ls.len(),
{
    if ls.len() == 0 {
        None
    } else {
        let line = trim(ls[0]);
        if has_prefix(line, "type:"@) {
            let value = ascii_lowercase(trim(line.skip(5)));
            if has_prefix(value, "luks"@) {
                Some(VolumeType::Luks)
            } else if has_prefix(value, "tcrypt"@) || has_prefix(value, "veracrypt"@) {
                Some(VolumeType::Veracrypt)
            } else {
                mapper_type_in(ls.drop_first())
            }
        } else {
            mapper_type_in(ls.drop_first())
        }
    }
}

/// The volume type in the text of `cryptsetup status`.
pub fn mapper_type_from_status(text: &str) -> (r: Option<VolumeType>)
    ensures
        r == mapper_type_in(lines(text@)),
{
    let all = split_lines(text);
    let key = char_vec("type:");
    let luks = char_vec("luks");
    let tcrypt = char_vec("tcrypt");
    let veracrypt = char_vec("veracrypt");
    proof {
        reveal_strlit("type:");
        reveal_strlit("luks");
        reveal_strlit("tcrypt");
        reveal_strlit("veracrypt");
    }
    let ghost ls = lines(text@);
    assert(ls.skip(0) =~= ls);
    let mut i: usize = 0;
    while i < all.len()
        invariant
            i <= all.len(),
            all@.len() == ls.len(),
            forall|j: int| 0 <= j < all@.len() ==> #[trigger] all@[j]@ == ls[j],
            ls == lines(text@),
            key@ == "type:"@,
            "type:"@.len() == 5,
            luks@ == "luks"@,
            tcrypt@ == "tcrypt"@,
            veracrypt@ == "veracrypt"@,
            mapper_type_in(ls) == mapper_type_in(ls.skip(i as int)),
        decreases all.len() - i,
    {
        assert(ls.skip(i as int).drop_first() =~= ls.skip(i + 1));
        assert(ls.skip(i as int)[0] == ls[i as int]);
        let line = chars_trim(TrimSet::Space, &all[i]);
        assert(line@ == trim(ls[i as int]));
        if chars_start_with(&line, &key) {
            let rest = chars_skip(&line, 5);
            let value = chars_lowercase(&chars_trim(TrimSet::Space, &rest));
            assert(value@ == ascii_lowercase(trim(trim(ls[i as int]).skip(5))));
            if chars_start_with(&value, &luks) {
                return Some(VolumeType::Luks);
            }
            if chars_start_with(&value, &tcrypt) || chars_start_with(&value, &veracrypt) {
                return Some(VolumeType::Veracrypt);
            }
        }
        i = i + 1;
    }
    None
}

/// Whether any line of `lsblk` output names a mountpoint (is not blank).
pub open spec fn names_a_mount(ls: Seq<Seq<char>>) -> bool {
    exists|i: int| 0 <= i < ls.len() && trim(#[trigger] ls[i]).len() > 0
}

/// Whether the output of `lsblk -o MOUNTPOINT` lists a mountpoint.
pub fn lists_a_mount(text: &str) -> (r: bool)
    ensures
        r == names_a_mount(lines(text@)),
{
    let all = split_lines(text);
    let mut i: usize = 0;
    while i < all.len()
        invariant
            i <= all.len(),
            all@.len() == lines(text@).len(),
            forall|j: int| 0 <= j < all@.len() ==> #[trigger] all@[j]@ == lines(text@)[j],
            forall|j: int| 0 <= j < i ==> trim(#[trigger] lines(text@)[j]).len() == 0,
        decreases all.len() - i,
    {
        let t = chars_trim(TrimSet::Space, &all[i]);
        if t.len() > 0 {
            assert(trim(lines(text@)[i as int]).len() > 0);
            return true;
        }
        i = i + 1;
    }
    false
}

/// Whether a `cryptsetup luksDump` text shows a Twofish cipher: a `cipher:` line (any case)
/// that mentions `twofish`.
pub open spec fn dump_shows_twofish(ls: Seq<Seq<char>>) -> bool {
    exists|i: int| 0 <= i < ls.len() && has_prefix(ascii_lowercase(trim(#[trigger] ls[i])), "cipher:"@)
        && contains_text(ascii_lowercase(trim(ls[i])), "twofish"@)
}

/// Whether a LUKS header dump shows a Twofish cipher.
pub fn header_is_twofish(text: &str) -> (r: bool)
    ensures
        r == dump_shows_twofish(lines(text@)),
{
    let all = split_lines(text);
    let key = char_vec("cipher:");
    let name = char_vec("twofish");
    let mut i: usize = 0;
    while i < all.len()
        invariant
            i <= all.len(),
            all@.len() == lines(text@).len(),
            forall|j: int| 0 <= j < all@.len() ==> #[trigger] all@[j]@ == lines(text@)[j],
            key@ == "cipher:"@,
            name@ == "twofish"@,
            forall|j: int| 0 <= j < i ==> !(has_prefix(ascii_lowercase(trim(#[trigger] lines(text@)[j])), "cipher:"@)
                && contains_text(ascii_lowercase(trim(lines(text@)[j])), "twofish"@)),
        decreases all.len() - i,
    {
        let l = chars_lowercase(&chars_trim(TrimSet::Space, &all[i]));
        if chars_start_with(&l, &key) && chars_contain(&l, &name) {
            return true;
        }
        i = i + 1;
    }
    false
}

/// The text a command printed, decoded and trimmed.
pub fn trim_stdout(stdout: &Vec<u8>) -> (r: String)
    ensures
        r@ == trim(crate::mountinfo::utf8_lossy(stdout@)),
{
    let text = crate::mountinfo::lossy_text(stdout);
    let t = crate::text::str_trim(text.as_str());
    string_from_chars(&t)
}

/// The name of the temporary file a file container is built in before it takes its place:
/// a hidden file in the same directory, named after the target, the process, the time and
/// the attempt.
pub open spec fn temp_name(target: Seq<char>, pid: u32, nanos: u128, attempt: u32) -> Seq<char> {
    let dir = match parent(target) {
        Some(d) => d,
        None => "."@,
    };
    let base = match file_name(target) {
        Some(b) => if b.len() > 0 { b } else { "volume"@ },
        None => "volume"@,
    };
    path_join(dir, "."@ + base + ".lurker-tmp-"@ + decimal(pid as nat) + "-"@ + decimal(nanos as nat) + "-"@ + decimal(attempt as nat))
}

/// The temporary path for an attempt.
pub fn temp_candidate(target: &str, pid: u32, nanos: u128, attempt: u32) -> (r: String)
    ensures
        r@ == temp_name(target@, pid, nanos, attempt),
{
    let dir = match crate::paths::path_parent(target) {
        Some(d) => d,
        None => owned("."),
    };
    let base = match crate::paths::path_file_name(target) {
        Some(b) => if b.len() > 0 { string_from_chars(&b) } else { owned("volume") },
        None => owned("volume"),
    };
    let mut name = owned(".");
    push_str(&mut name, base.as_str());
    push_str(&mut name, ".lurker-tmp-");
    push_str(&mut name, decimal_string(pid as u64).as_str());
    push_str(&mut name, "-");
    push_str(&mut name, decimal_string_wide(nanos).as_str());
    push_str(&mut name, "-");
    push_str(&mut name, decimal_string(attempt as u64).as_str());
    crate::text::join_path(dir.as_str(), name.as_str())
}

/// The temporary file of a container is a hidden file in the directory of the container.
pub proof fn temp_file_stays_in_the_directory(target: Seq<char>, pid: u32, nanos: u128, attempt: u32)
    ensures
        ({
            let dir = match parent(target) { Some(d) => d, None => "."@ };
            let leaf = temp_name(target, pid, nanos, attempt).skip(temp_name(target, pid, nanos, attempt).len() - (
                "."@ + match file_name(target) { Some(b) => if b.len() > 0 { b } else { "volume"@ }, None => "volume"@ }
                + ".lurker-tmp-"@ + decimal(pid as nat) + "-"@ + decimal(nanos as nat) + "-"@ + decimal(attempt as nat)).len());
            &&& temp_name(target, pid, nanos, attempt) == path_join(dir, leaf)
            &&& leaf[0] == '.'
        }),
{
    reveal_strlit(".");
    let dir = match parent(target) { Some(d) => d, None => "."@ };
    let base = match file_name(target) { Some(b) => if b.len() > 0 { b } else { "volume"@ }, None => "volume"@ };
    let leaf = "."@ + base + ".lurker-tmp-"@ + decimal(pid as nat) + "-"@ + decimal(nanos as nat) + "-"@ + decimal(attempt as nat);
    let whole = temp_name(target, pid, nanos, attempt);
    assert(whole == path_join(dir, leaf));
    assert(leaf[0] == '.');
    assert(leaf.len() > 0 && leaf[0] != '/');
    assert(whole.skip(whole.len() - leaf.len()) =~= leaf);
}

/// The number of bytes in `size_mib` MiB, when it fits in 64 bits.
pub open spec fn fill_bytes(size_mib: u64) -> Option<u64> {
    if size_mib * 1048576 <= u64::MAX {
        Some((size_mib * 1048576) as u64)
    } else {
        None
    }
}

/// The percentage of a fill that is done (100 when there is nothing to write).
pub open spec fn spec_fill_percent(written: u64, total: u64) -> u32 {
    if total == 0 || written * 100 > u64::MAX {
        100
    } else {
        ((written * 100) / (total as int)) as u32
    }
}

/// The percentage of a fill that is done.
pub fn fill_percent(written: u64, total: u64) -> (r: u32)
    requires
        written <= total,
    ensures
        r == spec_fill_percent(written, total),
        r <= 100,
{
    if total == 0 {
        return 100;
    }
    match written.checked_mul(100) {
        Some(w) => {
            let p = w / total;
            assert(p <= 100) by (nonlinear_arith)
                requires w == written * 100, written <= total, total > 0, p == w / total;
            p as u32
        },
        None => 100,
    }
}

/// The progress line of a fill: the percentage right-aligned in three columns.
pub open spec fn fill_progress_text(percent: u32) -> Seq<char> {
    let digits = decimal(percent as nat);
    "  -> Writing random data: "@ + (if digits.len() >= 3 { Seq::empty() } else { Seq::new((3 - digits.len()) as nat, |_i: int| ' ') })
        + digits + "%"@
}

/// The progress line of a fill.
pub fn fill_progress_line(percent: u32) -> (r: String)
    ensures
        r@ == fill_progress_text(percent),
{
    let digits = decimal_string(percent as u64);
    let dv = char_vec(digits.as_str());
    let mut line = owned("  -> Writing random data: ");
    let mut pad: Vec<char> = Vec::new();
    if dv.len() < 3 {
        while pad.len() < 3 - dv.len()
            invariant
                dv.len() < 3,
                pad@.len() <= 3 - dv.len(),
                forall|j: int| 0 <= j < pad@.len() ==> pad@[j] == ' ',
            decreases 3 - dv.len() - pad.len(),
        {
            pad.push(' ');
        }
    }
    proof {
        let d = decimal(percent as nat);
        if d.len() >= 3 {
            assert(pad@ =~= Seq::<char>::empty());
        } else {
            assert(pad@ =~= Seq::new((3 - d.len()) as nat, |_i: int| ' '));
        }
    }
    let pad_text = string_from_chars(&pad);
    push_str(&mut line, pad_text.as_str());
    push_str(&mut line, digits.as_str());
    push_str(&mut line, "%");
    line
}


/// `new` went on from `old` keeping its tools, privilege, output kind and plans.
pub open spec fn carried(old: Session, new: Session) -> bool {
    extends(old, new) && same_setup(old.ctx, new.ctx)
}

/// An application error as a workflow failure.
pub fn failed<T>(r: AppResult<T>) -> (out: Step<T>)
    ensures
        match (r, out) {
            (Ok(a), Ok(b)) => a == b,
            (Err(e), Err(Halt::Failed(f))) => e == f,
            _ => false,
        },
{
    match r {
        Ok(v) => Ok(v),
        Err(e) => Err(Halt::Failed(e)),
    }
}

/// What requiring a terminal for the passphrase prompt comes to: nothing to ask when the
/// passphrase was handed over; otherwise standard input must be a terminal.
pub open spec fn tty_outcome(passphrase: Option<String>, js: Seq<Reply>) -> Outcome<()> {
    if passphrase is Some {
        Outcome::Ends { result: Ok(()), used: 0 }
    } else if js.len() == 0 {
        Outcome::Short(Some(QueryView::StdinIsTty))
    } else {
        match js[0] {
            Reply::Tty(true) => Outcome::Ends { result: Ok(()), used: 1 },
            Reply::Tty(false) => Outcome::Ends {
                result: Err("This action requires an interactive TTY for the passphrase prompt."@),
                used: 1,
            },
            _ => Outcome::Ends { result: Err(crate::session::mismatch_message()), used: 1 },
        }
    }
}

/// Requires a terminal for the passphrase prompt, unless the passphrase was handed over.
pub fn require_passphrase_tty(s: &mut Session, passphrase: &Option<String>) -> (r: Step<()>)
    ensures
        quiet(*old(s), *final(s)),
        passphrase is Some ==> *final(s) == *old(s) && r is Ok,
        settles(*old(s), *final(s), r, tty_outcome(*passphrase, journal(*old(s))), |u: ()| u),
{
    if passphrase.is_some() {
        assert(journal(*s).skip(0) =~= journal(*s));
        return Ok(());
    }
    let ghost before = *s;
    let answer = s.ask_tty(Effect::StdinIsTty);
    proof { crate::session::lemma_asked_journal(before, *s, Effect::StdinIsTty); }
    if answer? {
        Ok(())
    } else {
        let m = owned("This action requires an interactive TTY for the passphrase prompt.");
        proof { reveal_strlit("This action requires an interactive TTY for the passphrase prompt."); }
        Err(fail(m))
    }
}

/// How the standard streams of a command that needs the passphrase are connected: the
/// passphrase written to its input when it was handed over, the terminal otherwise.
pub fn passphrase_stdio(passphrase: &Option<String>, quiet_stdout: bool) -> (r: StdioMode)
    ensures
        r == match *passphrase {
            Some(p) => StdioMode::Feed(p),
            None => if quiet_stdout { StdioMode::QuietStdout } else { StdioMode::Inherit },
        },
{
    match passphrase {
        Some(p) => StdioMode::Feed(p.clone()),
        None => if quiet_stdout { StdioMode::QuietStdout } else { StdioMode::Inherit },
    }
}

/// What reading one column of `lsblk` for `device` alone comes to: `lsblk` must be known,
/// then it runs unprivileged and its output, trimmed, is the column.
pub open spec fn column_course(ctx: Privilege, column: Seq<char>, device: Seq<char>, context: Seq<char>, js: Seq<Reply>) -> Course<Seq<char>> {
    if ctx.tools.lsblk is None {
        quietly(Outcome::Ends { result: Err(crate::system::missing_tool("lsblk"@)), used: 0 })
    } else {
        Course {
            outcome: match crate::session::capture_outcome(ctx, false, context, js) {
                Outcome::Ends { result: Ok(ran), used } => Outcome::Ends { result: Ok(trim(crate::mountinfo::utf8_lossy(ran.stdout@))), used },
                Outcome::Ends { result: Err(m), used } => Outcome::Ends { result: Err(m), used },
                Outcome::Short(w) => Outcome::Short(w),
            },
            runs: crate::session::launch_lines(ctx, false, privileged_argv(ctx, ctx.tools.lsblk->0@, seq!["-ndo"@, column, "--"@, device], false),
                StreamsView::Capture, js),
        }
    }
}

/// One column of `lsblk` for a device alone, trimmed.
fn lsblk_column(s: &mut Session, column: &str, device: &str, context: &str) -> (r: Step<String>)
    ensures
        carried(*old(s), *final(s)),
        same_plans(*old(s), *final(s)),
        final(s).ctx == old(s).ctx,
        follows(*old(s), *final(s), r, column_course(privilege(old(s).ctx), column@, device@, context@, journal(*old(s))), |t: String| t@),
{
    let lsblk = match s.ctx.lsblk_path() {
        Ok(l) => l,
        Err(e) => {
            assert(journal(*s).skip(0) =~= journal(*s));
            proof { crate::session::lemma_no_requests(*old(s), *s); }
            return Err(Halt::Failed(e));
        },
    };
    let args = commands::lsblk_column_args(column, device);
    let ran = s.capture_command(lsblk.as_str(), &args, false, context)?;
    Ok(trim_stdout(&ran.stdout))
}

/// What asking `lsblk` whether anything on `device` is mounted comes to: `lsblk` must be known,
/// then it runs unprivileged and lists the mountpoints of the device and all under it.
pub open spec fn tree_course(ctx: Privilege, device: Seq<char>, js: Seq<Reply>) -> Course<bool> {
    if ctx.tools.lsblk is None {
        quietly(Outcome::Ends { result: Err(crate::system::missing_tool("lsblk"@)), used: 0 })
    } else {
        Course {
            outcome: match crate::session::capture_outcome(ctx, false, "Failed to inspect block device tree"@, js) {
                Outcome::Ends { result: Ok(ran), used } => Outcome::Ends {
                    result: Ok(names_a_mount(lines(crate::mountinfo::utf8_lossy(ran.stdout@)))),
                    used,
                },
                Outcome::Ends { result: Err(m), used } => Outcome::Ends { result: Err(m), used },
                Outcome::Short(w) => Outcome::Short(w),
            },
            runs: crate::session::launch_lines(ctx, false,
                privileged_argv(ctx, ctx.tools.lsblk->0@, seq!["-nrpo"@, "MOUNTPOINT"@, "--"@, device], false), StreamsView::Capture, js),
        }
    }
}

/// Whether a device or any device under it is mounted, by `lsblk`.
fn block_device_tree_has_mounts(s: &mut Session, device: &str) -> (r: Step<bool>)
    ensures
        carried(*old(s), *final(s)),
        same_plans(*old(s), *final(s)),
        final(s).ctx == old(s).ctx,
        follows(*old(s), *final(s), r, tree_course(privilege(old(s).ctx), device@, journal(*old(s))), |b: bool| b),
{
    let lsblk = match s.ctx.lsblk_path() {
        Ok(l) => l,
        Err(e) => {
            assert(journal(*s).skip(0) =~= journal(*s));
            proof { crate::session::lemma_no_requests(*old(s), *s); }
            return Err(Halt::Failed(e));
        },
    };
    let args = commands::lsblk_tree_mounts_args(device);
    let ran = s.capture_command(lsblk.as_str(), &args, false, "Failed to inspect block device tree")?;
    let text = crate::mountinfo::lossy_text(&ran.stdout);
    Ok(lists_a_mount(text.as_str()))
}


/// The metadata of a path itself, links not followed.
fn symlink_metadata(s: &mut Session, path: &str) -> (r: Step<Result<crate::session::FileFacts, IoFailure>>)
    ensures
        quiet(*old(s), *final(s)),
        linux::one_more_answer(*old(s), *final(s), r),
        r matches Ok(x) ==> final(s).answered@.last() == Reply::Facts(x),
        settles(*old(s), *final(s), r, linux::facts_outcome(crate::session::QueryView::SymlinkMetadata(path@), journal(*old(s))), |x: Result<crate::session::FileFacts, IoFailure>| x),
        crate::session::asked_at(*old(s), *final(s), 0, crate::session::QueryView::SymlinkMetadata(path@)),
{
    let e = Effect::SymlinkMetadata { path: owned(path) };
    let ghost asked_for = e;
    let r = s.ask_facts(e);
    proof { crate::session::lemma_asked_journal(*old(s), *s, asked_for); }
    r
}

/// The directory a path lies in (`.` when it names none).
pub open spec fn dir_of(path: Seq<char>) -> Seq<char> {
    match parent(path) {
        Some(d) => d,
        None => "."@,
    }
}

/// What checking the entry at a file target comes to, links not followed: it must be absent
/// or, with `force`, a regular file.
pub open spec fn file_entry_check(path: Seq<char>, force: bool, js: Seq<Reply>) -> Outcome<()> {
    match linux::facts_outcome(crate::session::QueryView::SymlinkMetadata(path), js) {
        Outcome::Short(w) => Outcome::Short(w),
        Outcome::Ends { result: Err(m), used } => Outcome::Ends { result: Err(m), used },
        Outcome::Ends { result: Ok(Ok(t)), used } => Outcome::Ends {
            result: if t.kind == FileKind::Symlink {
                Err("Refusing to create on symlink target: "@ + path)
            } else if t.kind != FileKind::File {
                Err("Target exists and is not a regular file: "@ + path)
            } else if !force {
                Err("Target file already exists. Re-run with -F to overwrite it."@)
            } else {
                Ok(())
            },
            used,
        },
        Outcome::Ends { result: Ok(Err(f)), used } => Outcome::Ends {
            result: if f.not_found { Ok(()) } else { Err(io_message("Failed to inspect "@ + path, f.message@)) },
            used,
        },
    }
}

/// What checking a file target comes to: its directory must be a writable directory, then
/// the entry is checked.
pub open spec fn file_target_check(path: Seq<char>, force: bool, js: Seq<Reply>) -> Outcome<()> {
    let dir = dir_of(path);
    match linux::facts_outcome(crate::session::QueryView::Metadata(dir), js) {
        Outcome::Short(w) => Outcome::Short(w),
        Outcome::Ends { result: Err(m), used } => Outcome::Ends { result: Err(m), used },
        Outcome::Ends { result: Ok(Err(f)), used } => Outcome::Ends { result: Err(io_message("Directory does not exist: "@ + dir, f.message@)), used },
        Outcome::Ends { result: Ok(Ok(d)), used } => if d.kind != FileKind::Dir {
            Outcome::Ends { result: Err("Directory does not exist: "@ + dir), used }
        } else if d.readonly {
            Outcome::Ends { result: Err("Directory is not writable: "@ + dir), used }
        } else {
            after(used, file_entry_check(path, force, js.skip(used as int)))
        },
    }
}

/// Checks that a container file may be created at `path`.
fn assert_create_file_target(s: &mut Session, path: &str, force: bool) -> (r: Step<()>)
    ensures
        quiet(*old(s), *final(s)),
        settles(*old(s), *final(s), r, file_target_check(path@, force, journal(*old(s))), |u: ()| u),
        file_target_asks(*old(s), *final(s), path@),
{
    let dir = match crate::paths::path_parent(path) {
        Some(d) => d,
        None => owned("."),
    };
    assert(dir@ == dir_of(path@));
    let facts = linux::metadata(s, dir.as_str())?;
    let ghost first = *s;
    let d = match facts {
        Ok(d) => d,
        Err(f) => return Err(io_error(concat2("Directory does not exist: ", dir.as_str()).as_str(), &f)),
    };
    if d.kind != FileKind::Dir {
        return Err(fail(concat2("Directory does not exist: ", dir.as_str())));
    }
    if d.readonly {
        return Err(fail(concat2("Directory is not writable: ", dir.as_str())));
    }
    let link = symlink_metadata(s, path);
    proof {
        crate::session::lemma_quiet_chain(*old(s), first, *s);
        vstd::seq_lib::lemma_seq_skip_of_skip(journal(*old(s)), 1, if link is Err && link->Err_0 is Pending { 0 } else { 1 });
    }
    match link? {
        Ok(t) => {
            if t.kind == FileKind::Symlink {
                return Err(fail(concat2("Refusing to create on symlink target: ", path)));
            }
            if t.kind != FileKind::File {
                return Err(fail(concat2("Target exists and is not a regular file: ", path)));
            }
            if !force {
                let m = owned("Target file already exists. Re-run with -F to overwrite it.");
                proof { reveal_strlit("Target file already exists. Re-run with -F to overwrite it."); }
                return Err(fail(m));
            }
        },
        Err(f) => {
            if !f.not_found {
                return Err(io_error(concat2("Failed to inspect ", path).as_str(), &f));
            }
        },
    }
    Ok(())
}

/// Whether a device type is one that may be formatted.
pub open spec fn formattable(t: Seq<char>) -> bool {
    t == "disk"@ || t == "part"@ || t == "loop"@
}

/// A check that ends in `message` before asking anything more.
pub open spec fn refused<V>(message: Seq<char>) -> Course<V> {
    quietly(Outcome::Ends { result: Err(message), used: 0 })
}

/// The end of a block check once its filesystem column was read: an existing signature is
/// only warned about.
pub open spec fn signature_next() -> spec_fn(Seq<char>, Seq<Reply>) -> Course<()> {
    |signature: Seq<char>, js: Seq<Reply>| quietly(Outcome::Ends { result: Ok(()), used: 0 })
}

/// The rest of a block check once it is known whether anything on the device is mounted.
pub open spec fn tree_next(ctx: Privilege, path: Seq<char>) -> spec_fn(bool, Seq<Reply>) -> Course<()> {
    |mounted: bool, js: Seq<Reply>| if mounted {
        refused("Block device or one of its children is mounted: "@ + path)
    } else {
        and_then(column_course(ctx, "FSTYPE"@, path, "Failed to inspect block device"@, js), js, signature_next())
    }
}

/// The rest of a block check once `lsblk` named the type of the device.
pub open spec fn type_next(ctx: Privilege, path: Seq<char>) -> spec_fn(Seq<char>, Seq<Reply>) -> Course<()> {
    |t: Seq<char>, js: Seq<Reply>| if !formattable(t) {
        if t.len() == 0 {
            refused("Failed to inspect block device: "@ + path)
        } else {
            refused("Unsupported block device type for create: "@ + path + " ("@ + t + ")"@)
        }
    } else {
        and_then(tree_course(ctx, path, js), js, tree_next(ctx, path))
    }
}

/// The rest of a block check once the entry itself, links not followed, is known.
pub open spec fn link_next(ctx: Privilege, path: Seq<char>, force: bool) -> spec_fn(Result<crate::session::FileFacts, IoFailure>, Seq<Reply>) -> Course<()> {
    |link: Result<crate::session::FileFacts, IoFailure>, js: Seq<Reply>| match link {
        Err(f) => refused(io_message("Failed to inspect "@ + path, f.message@)),
        Ok(l) => if l.kind == FileKind::Symlink {
            refused("Refusing to create on symlink target: "@ + path)
        } else if under_mapper_dir(path) {
            refused("Refusing to create on an active mapper device: "@ + path)
        } else if !force {
            refused("Block-device create is destructive. Re-run with -F to continue: "@ + path)
        } else {
            and_then(column_course(ctx, "TYPE"@, path, "Failed to inspect block device"@, js), js, type_next(ctx, path))
        },
    }
}

/// The rest of a block check once it is known whether the path is a block device.
pub open spec fn block_next(ctx: Privilege, path: Seq<char>, force: bool) -> spec_fn(bool, Seq<Reply>) -> Course<()> {
    |is_block: bool, js: Seq<Reply>| if !is_block {
        refused("Block device does not exist: "@ + path)
    } else {
        and_then(quietly(linux::facts_outcome(crate::session::QueryView::SymlinkMetadata(path), js)), js, link_next(ctx, path, force))
    }
}

/// What checking a block target comes to: the path is a block device and not a link, not a
/// mapper, `force` was given, `lsblk` reports a disk, partition or loop device and no
/// mountpoint under it, and its filesystem column can be read.
pub open spec fn block_target_course(ctx: Privilege, path: Seq<char>, force: bool, js: Seq<Reply>) -> Course<()> {
    and_then(quietly(linux::kind_outcome(path, js, FileKind::Block)), js, block_next(ctx, path, force))
}

/// A step that stopped with the message `m` before asking anything more followed
/// `refused(m)`.
proof fn lemma_refused(s: Session, r: Step<()>, m: Seq<char>)
    requires
        r matches Err(Halt::Failed(e)) && e.message@ == m,
    ensures
        follows(s, s, r, refused::<()>(m), |u: ()| u),
{
    assert(journal(s).skip(0) =~= journal(s));
    crate::session::lemma_no_requests(s, s);
}

/// Reads the filesystem column of a device that may be formatted; an existing signature is
/// only warned about.
fn block_check_signature(s: &mut Session, path: &str) -> (r: Step<()>)
    ensures
        carried(*old(s), *final(s)),
        same_plans(*old(s), *final(s)),
        privilege(final(s).ctx) == privilege(old(s).ctx),
        follows(*old(s), *final(s), r, and_then(column_course(privilege(old(s).ctx), "FSTYPE"@, path@, "Failed to inspect block device"@,
            journal(*old(s))), journal(*old(s)), signature_next()), |u: ()| u),
{
    let ghost first = column_course(privilege(old(s).ctx), "FSTYPE"@, path@, "Failed to inspect block device"@, journal(*old(s)));
    let read = lsblk_column(s, "FSTYPE", path, "Failed to inspect block device");
    let ghost read_at = *s;
    proof {
        if read is Err {
            lemma_and_then_stops::<String, Seq<char>, (), ()>(*old(s), read_at, read, first, |t: String| t@, signature_next(), |u: ()| u);
        }
    }
    let signature = read?;
    if signature.as_str().unicode_len() > 0 {
        let mut m = owned("Existing on-disk signature detected on ");
        push_str(&mut m, path);
        push_str(&mut m, ": ");
        push_str(&mut m, signature.as_str());
        s.ctx.output.warn(m.as_str());
    }
    proof {
        assert(journal(*s).skip(0) =~= journal(*s));
        crate::session::lemma_no_requests(*s, *s);
        lemma_and_then(*old(s), read_at, *s, *s, read, first, |t: String| t@, Ok::<(), Halt>(()), signature_next(), |u: ()| u);
    }
    Ok(())
}

/// Checks that nothing on a device of a type that may be formatted is mounted, then reads its
/// filesystem column.
fn block_check_tree(s: &mut Session, path: &str) -> (r: Step<()>)
    ensures
        carried(*old(s), *final(s)),
        same_plans(*old(s), *final(s)),
        privilege(final(s).ctx) == privilege(old(s).ctx),
        follows(*old(s), *final(s), r, and_then(tree_course(privilege(old(s).ctx), path@, journal(*old(s))), journal(*old(s)),
            tree_next(privilege(old(s).ctx), path@)), |u: ()| u),
{
    let ghost first = tree_course(privilege(old(s).ctx), path@, journal(*old(s)));
    let ghost next = tree_next(privilege(old(s).ctx), path@);
    let asked = block_device_tree_has_mounts(s, path);
    let ghost asked_at = *s;
    proof {
        if asked is Err {
            lemma_and_then_stops::<bool, bool, (), ()>(*old(s), asked_at, asked, first, |b: bool| b, next, |u: ()| u);
        }
    }
    if asked? {
        let r = Err(fail(concat2("Block device or one of its children is mounted: ", path)));
        proof {
            lemma_refused(*s, r, "Block device or one of its children is mounted: "@ + path@);
            lemma_and_then(*old(s), asked_at, *s, *s, asked, first, |b: bool| b, r, next, |u: ()| u);
        }
        return r;
    }
    let rest = block_check_signature(s, path);
    proof {
        lemma_and_then(*old(s), asked_at, asked_at, *s, asked, first, |b: bool| b, rest, next, |u: ()| u);
    }
    rest
}

/// Checks that `lsblk` calls the device a disk, partition or loop device, then the rest of the
/// block check.
fn block_check_type(s: &mut Session, path: &str) -> (r: Step<()>)
    ensures
        carried(*old(s), *final(s)),
        same_plans(*old(s), *final(s)),
        privilege(final(s).ctx) == privilege(old(s).ctx),
        follows(*old(s), *final(s), r, and_then(column_course(privilege(old(s).ctx), "TYPE"@, path@, "Failed to inspect block device"@,
            journal(*old(s))), journal(*old(s)), type_next(privilege(old(s).ctx), path@)), |u: ()| u),
{
    let ghost first = column_course(privilege(old(s).ctx), "TYPE"@, path@, "Failed to inspect block device"@, journal(*old(s)));
    let ghost next = type_next(privilege(old(s).ctx), path@);
    let read = lsblk_column(s, "TYPE", path, "Failed to inspect block device");
    let ghost read_at = *s;
    proof {
        if read is Err {
            lemma_and_then_stops::<String, Seq<char>, (), ()>(*old(s), read_at, read, first, |t: String| t@, next, |u: ()| u);
        }
    }
    let device_type = read?;
    let tv = char_vec(device_type.as_str());
    let supported = crate::text::str_eq(device_type.as_str(), "disk")
        || crate::text::str_eq(device_type.as_str(), "part")
        || crate::text::str_eq(device_type.as_str(), "loop");
    if !supported {
        if tv.len() == 0 {
            let r = Err(fail(concat2("Failed to inspect block device: ", path)));
            proof {
                lemma_refused(*s, r, "Failed to inspect block device: "@ + path@);
                lemma_and_then(*old(s), read_at, *s, *s, read, first, |t: String| t@, r, next, |u: ()| u);
            }
            return r;
        }
        let mut m = owned("Unsupported block device type for create: ");
        push_str(&mut m, path);
        push_str(&mut m, " (");
        push_str(&mut m, device_type.as_str());
        push_str(&mut m, ")");
        let r = Err(fail(m));
        proof {
            lemma_refused(*s, r, "Unsupported block device type for create: "@ + path@ + " ("@ + device_type@ + ")"@);
            lemma_and_then(*old(s), read_at, *s, *s, read, first, |t: String| t@, r, next, |u: ()| u);
        }
        return r;
    }
    let rest = block_check_tree(s, path);
    proof {
        lemma_and_then(*old(s), read_at, read_at, *s, read, first, |t: String| t@, rest, next, |u: ()| u);
    }
    rest
}

/// Checks the entry itself, links not followed: not a link, not a mapper, and `force` given;
/// then the rest of the block check. Without `force`, or on a mapper, nothing is run.
fn block_check_link(s: &mut Session, path: &str, force: bool) -> (r: Step<()>)
    ensures
        carried(*old(s), *final(s)),
        same_plans(*old(s), *final(s)),
        privilege(final(s).ctx) == privilege(old(s).ctx),
        !force || under_mapper_dir(path@) ==> quiet(*old(s), *final(s)) && r is Err,
        r is Ok ==> force && !under_mapper_dir(path@),
        follows(*old(s), *final(s), r, and_then(quietly(linux::facts_outcome(crate::session::QueryView::SymlinkMetadata(path@), journal(*old(s)))), journal(*old(s)),
            link_next(privilege(old(s).ctx), path@, force)), |u: ()| u),
        crate::session::asked_at(*old(s), *final(s), 0, crate::session::QueryView::SymlinkMetadata(path@)),
{
    let ghost first = quietly(linux::facts_outcome(crate::session::QueryView::SymlinkMetadata(path@), journal(*old(s))));
    let ghost next = link_next(privilege(old(s).ctx), path@, force);
    let got = symlink_metadata(s, path);
    let ghost got_at = *s;
    proof {
        lemma_quietly(*old(s), got_at, got, linux::facts_outcome(crate::session::QueryView::SymlinkMetadata(path@), journal(*old(s))), |x: Result<crate::session::FileFacts, IoFailure>| x);
        if got is Err {
            lemma_and_then_stops::<Result<crate::session::FileFacts, IoFailure>, Result<crate::session::FileFacts, IoFailure>, (), ()>(
                *old(s), got_at, got, first, |x: Result<crate::session::FileFacts, IoFailure>| x, next, |u: ()| u);
        }
    }
    let link_reply = got?;
    let link = match link_reply {
        Ok(m) => m,
        Err(f) => {
            let r = Err(io_error(concat2("Failed to inspect ", path).as_str(), &f));
            proof {
                lemma_refused(*s, r, io_message("Failed to inspect "@ + path@, f.message@));
                lemma_and_then(*old(s), got_at, *s, *s, got, first, |x: Result<crate::session::FileFacts, IoFailure>| x, r, next, |u: ()| u);
            }
            return r;
        },
    };
    let r: Step<()>;
    if link.kind == FileKind::Symlink {
        r = Err(fail(concat2("Refusing to create on symlink target: ", path)));
        proof { lemma_refused(*s, r, "Refusing to create on symlink target: "@ + path@); }
    } else if crate::paths::is_under_mapper_dir(path) {
        r = Err(fail(concat2("Refusing to create on an active mapper device: ", path)));
        proof { lemma_refused(*s, r, "Refusing to create on an active mapper device: "@ + path@); }
    } else if !force {
        r = Err(fail(concat2("Block-device create is destructive. Re-run with -F to continue: ", path)));
        proof { lemma_refused(*s, r, "Block-device create is destructive. Re-run with -F to continue: "@ + path@); }
    } else {
        let rest = block_check_type(s, path);
        proof {
            lemma_and_then(*old(s), got_at, got_at, *s, got, first, |x: Result<crate::session::FileFacts, IoFailure>| x, rest, next, |u: ()| u);
        }
        return rest;
    }
    proof {
        lemma_and_then(*old(s), got_at, *s, *s, got, first, |x: Result<crate::session::FileFacts, IoFailure>| x, r, next, |u: ()| u);
    }
    r
}

/// Checks that a block device may be formatted: it is a block device, not a link, not a
/// mapper, `force` was given, `lsblk` calls it a disk, partition or loop device, and nothing on
/// it is mounted. An existing signature is only warned about. Without `force`, or on a
/// mapper, nothing is run at all.
fn assert_create_block_target(s: &mut Session, path: &str, force: bool) -> (r: Step<()>)
    ensures
        carried(*old(s), *final(s)),
        same_plans(*old(s), *final(s)),
        privilege(final(s).ctx) == privilege(old(s).ctx),
        !force || under_mapper_dir(path@) ==> ran_nothing(*old(s), *final(s)) && r is Err,
        r is Ok ==> force && !under_mapper_dir(path@),
        follows(*old(s), *final(s), r, block_target_course(privilege(old(s).ctx), path@, force, journal(*old(s))), |u: ()| u),
        block_target_asks(*old(s), *final(s), path@),
{
    let ghost first = quietly(linux::kind_outcome(path@, journal(*old(s)), FileKind::Block));
    let ghost next = block_next(privilege(old(s).ctx), path@, force);
    let got = linux::is_block_device_target(s, path);
    let ghost got_at = *s;
    proof {
        lemma_quietly(*old(s), got_at, got, linux::kind_outcome(path@, journal(*old(s)), FileKind::Block), |b: bool| b);
        if got is Err {
            lemma_and_then_stops::<bool, bool, (), ()>(*old(s), got_at, got, first, |b: bool| b, next, |u: ()| u);
        }
    }
    if !got? {
        let r = Err(fail(concat2("Block device does not exist: ", path)));
        proof {
            lemma_refused(*s, r, "Block device does not exist: "@ + path@);
            lemma_and_then(*old(s), got_at, *s, *s, got, first, |b: bool| b, r, next, |u: ()| u);
        }
        return r;
    }
    let rest = block_check_link(s, path, force);
    proof {
        lemma_and_then(*old(s), got_at, got_at, *s, got, first, |b: bool| b, rest, next, |u: ()| u);
        if !force || under_mapper_dir(path@) {
            crate::session::lemma_quiet_chain(*old(s), got_at, *s);
        }
    }
    rest
}

/// The requests of a block check that run no program: whether the path is a block device,
/// then, for one, the entry itself with links not followed.
pub open spec fn block_target_asks(old: Session, new: Session, path: Seq<char>) -> bool {
    &&& crate::session::asked_at(old, new, 0, crate::session::QueryView::Metadata(path))
    &&& linux::kind_outcome(path, journal(old), FileKind::Block) matches Outcome::Ends { result: Ok(true), .. } ==>
        crate::session::asked_at(old, new, 1, crate::session::QueryView::SymlinkMetadata(path))
}

/// The requests of a file check: the directory of the path, then, for a writable directory,
/// the entry itself with links not followed.
pub open spec fn file_target_asks(old: Session, new: Session, path: Seq<char>) -> bool {
    &&& crate::session::asked_at(old, new, 0, crate::session::QueryView::Metadata(dir_of(path)))
    &&& (linux::facts_outcome(crate::session::QueryView::Metadata(dir_of(path)), journal(old)) matches Outcome::Ends { result: Ok(Ok(d)), .. } && d.kind == FileKind::Dir && !d.readonly) ==>
        crate::session::asked_at(old, new, 1, crate::session::QueryView::SymlinkMetadata(path))
}

/// What the target check of a create asks of the system beyond the programs it runs.
pub open spec fn target_asks(old: Session, new: Session, command: CreateCommand) -> bool {
    match command.source_kind {
        SourceKind::File => file_target_asks(old, new, command.target@),
        SourceKind::Block => block_target_asks(old, new, command.target@),
    }
}

/// What checking the target of a create comes to.
pub open spec fn target_course(ctx: Privilege, command: CreateCommand, js: Seq<Reply>) -> Course<()> {
    match command.source_kind {
        SourceKind::File => quietly(file_target_check(command.target@, command.force, js)),
        SourceKind::Block => block_target_course(ctx, command.target@, command.force, js),
    }
}

/// Checks the target of a create.
fn assert_create_target(s: &mut Session, command: &CreateCommand) -> (r: Step<()>)
    ensures
        carried(*old(s), *final(s)),
        same_plans(*old(s), *final(s)),
        privilege(final(s).ctx) == privilege(old(s).ctx),
        command.source_kind == SourceKind::Block && (!command.force || under_mapper_dir(command.target@)) ==>
            ran_nothing(*old(s), *final(s)) && r is Err,
        follows(*old(s), *final(s), r, target_course(privilege(old(s).ctx), *command, journal(*old(s))), |u: ()| u),
        target_asks(*old(s), *final(s), *command),
{
    match command.source_kind {
        SourceKind::File => {
            let r = assert_create_file_target(s, command.target.as_str(), command.force);
            proof { lemma_quietly(*old(s), *s, r, file_target_check(command.target@, command.force, journal(*old(s))), |u: ()| u); }
            r
        },
        SourceKind::Block => assert_create_block_target(s, command.target.as_str(), command.force),
    }
}


/// How the streams of a command that needs the passphrase are connected.
pub open spec fn passphrase_streams(passphrase: Option<String>, quiet_stdout: bool) -> StdioMode {
    match passphrase {
        Some(p) => StdioMode::Feed(p),
        None => if quiet_stdout { StdioMode::QuietStdout } else { StdioMode::Inherit },
    }
}

/// The last request of `s`, made after `old`, ran `program` with `args` (behind sudo or not)
/// and it succeeded.
pub open spec fn succeeded_running(old: Session, s: Session, ctx: crate::system::AppContext, program: Seq<char>, args: Seq<Seq<char>>, stdio: StdioMode) -> bool {
    ||| crate::session::last_run_succeeded(s, crate::session::command_argv(ctx, program, args, true), stdio)
        && crate::session::just_ran_ok(old, s, crate::session::command_argv(ctx, program, args, true))
    ||| crate::session::last_run_succeeded(s, crate::session::command_argv(ctx, program, args, false), stdio)
        && crate::session::just_ran_ok(old, s, crate::session::command_argv(ctx, program, args, false))
}

/// Running the format of `target` as LUKS2 with the profile of `cipher`, behind sudo when
/// `target` is a block device.
pub open spec fn format_run(ctx: Privilege, cipher: CreateCipher, target: Seq<char>, passphrase: Option<String>) -> spec_fn(bool, Seq<Reply>) -> Course<()> {
    |block: bool, js: Seq<Reply>| run_course(ctx, block,
        privileged_argv(ctx, ctx.tools.cryptsetup@, commands::luks_format_line(cipher, target, passphrase is Some), block),
        passphrase_streams(passphrase, true)@, "Failed to format LUKS container"@, js)
}

/// What formatting `target` as LUKS2 comes to: whether it is a block device is asked first.
pub open spec fn format_course(ctx: Privilege, cipher: CreateCipher, target: Seq<char>, passphrase: Option<String>, js: Seq<Reply>) -> Course<()> {
    and_then(quietly(linux::kind_outcome(target, js, FileKind::Block)), js, format_run(ctx, cipher, target, passphrase))
}

/// The privilege once a format that began on `js` succeeded: refreshed when it ran behind
/// sudo, for a block device.
pub open spec fn formatted_privilege(ctx: Privilege, target: Seq<char>, js: Seq<Reply>) -> Privilege {
    if linux::kind_outcome(target, js, FileKind::Block) matches Outcome::Ends { result: Ok(true), .. } {
        refreshed(ctx)
    } else {
        ctx
    }
}

/// Formats `target` as LUKS2 with the profile of `cipher` (behind sudo for a block device).
fn luks_format(s: &mut Session, cipher: CreateCipher, target: &str, passphrase: &Option<String>) -> (r: Step<()>)
    ensures
        carried(*old(s), *final(s)),
        same_plans(*old(s), *final(s)),
        r is Ok ==> succeeded_running(*old(s), *final(s), old(s).ctx, old(s).ctx.tools.cryptsetup@,
            commands::luks_format_line(cipher, target@, passphrase is Some), passphrase_streams(*passphrase, true)),
        follows(*old(s), *final(s), r, format_course(privilege(old(s).ctx), cipher, target@, *passphrase, journal(*old(s))), |u: ()| u),
        r is Ok ==> privilege(final(s).ctx) == formatted_privilege(privilege(old(s).ctx), target@, journal(*old(s))),
{
    let ghost start = *s;
    let ghost first = quietly(linux::kind_outcome(target@, journal(*old(s)), FileKind::Block));
    let ghost next = format_run(privilege(old(s).ctx), cipher, target@, *passphrase);
    let got = linux::is_block_device_target(s, target);
    proof {
        lemma_quietly(start, *s, got, linux::kind_outcome(target@, journal(start), FileKind::Block), |b: bool| b);
        if got is Err {
            lemma_and_then_stops::<bool, bool, (), ()>(start, *s, got, first, |b: bool| b, next, |u: ()| u);
        }
    }
    let ghost asked = *s;
    let privileged = got?;
    let args = commands::luks_format_args(cipher, target, passphrase.is_some());
    let cryptsetup = s.ctx.cryptsetup_path();
    let stdio = passphrase_stdio(passphrase, true);
    let r = s.run_status(cryptsetup.as_str(), &args, privileged, stdio, "Failed to format LUKS container");
    proof {
        lemma_and_then(start, asked, asked, *s, got, first, |b: bool| b, r, next, |u: ()| u);
    }
    r
}

/// Opens a LUKS volume as `mapper_name`.
pub(crate) fn luks_open(s: &mut Session, source: &str, mapper_name: &str, perf: bool, passphrase: &Option<String>) -> (r: Step<()>)
    ensures
        carried(*old(s), *final(s)),
        same_plans(*old(s), *final(s)),
        r is Ok ==> succeeded_running(*old(s), *final(s), old(s).ctx, old(s).ctx.tools.cryptsetup@,
            commands::luks_open_line(source@, mapper_name@, perf, passphrase is Some), passphrase_streams(*passphrase, false)),
        follows(*old(s), *final(s), r, run_course(privilege(old(s).ctx), true, crate::session::privileged_argv(privilege(old(s).ctx),
            old(s).ctx.tools.cryptsetup@, commands::luks_open_line(source@, mapper_name@, perf, passphrase is Some), true),
            passphrase_streams(*passphrase, false)@, "Failed to open LUKS mapper"@, journal(*old(s))), |u: ()| u),
        r is Ok ==> final(s).ctx.is_root || final(s).ctx.sudo_ready,
        r is Ok ==> privilege(final(s).ctx) == refreshed(privilege(old(s).ctx)),
{
    let args = commands::luks_open_args(source, mapper_name, perf, passphrase.is_some());
    let cryptsetup = s.ctx.cryptsetup_path();
    let stdio = passphrase_stdio(passphrase, false);
    s.run_status(cryptsetup.as_str(), &args, true, stdio, "Failed to open LUKS mapper")
}

/// Closes a mapper.
pub(crate) fn crypt_close(s: &mut Session, mapper_name: &str) -> (r: Step<()>)
    ensures
        carried(*old(s), *final(s)),
        same_plans(*old(s), *final(s)),
        r is Ok ==> succeeded_running(*old(s), *final(s), old(s).ctx, old(s).ctx.tools.cryptsetup@, seq!["close"@, mapper_name@], StdioMode::Inherit),
        r is Ok ==> final(s).ctx.is_root || final(s).ctx.sudo_ready,
        follows(*old(s), *final(s), r, close_course(privilege(old(s).ctx), mapper_name@, journal(*old(s))), |u: ()| u),
{
    let args = commands::close_args(mapper_name);
    let cryptsetup = s.ctx.cryptsetup_path();
    s.run_command(cryptsetup.as_str(), &args, true, "Failed to close mapper")
}

/// Opens a VeraCrypt volume with `cryptsetup` as `mapper_name`.
pub(crate) fn tcrypt_open(s: &mut Session, source: &str, mapper_name: &str, passphrase: &Option<String>) -> (r: Step<()>)
    ensures
        carried(*old(s), *final(s)),
        same_plans(*old(s), *final(s)),
        r is Ok ==> succeeded_running(*old(s), *final(s), old(s).ctx, old(s).ctx.tools.cryptsetup@,
            commands::tcrypt_open_line(source@, mapper_name@, passphrase is Some), passphrase_streams(*passphrase, false)),
        follows(*old(s), *final(s), r, run_course(privilege(old(s).ctx), true, crate::session::privileged_argv(privilege(old(s).ctx),
            old(s).ctx.tools.cryptsetup@, commands::tcrypt_open_line(source@, mapper_name@, passphrase is Some), true),
            passphrase_streams(*passphrase, false)@, "Failed to open VeraCrypt mapper with cryptsetup"@, journal(*old(s))), |u: ()| u),
        r is Ok ==> final(s).ctx.is_root || final(s).ctx.sudo_ready,
        r is Ok ==> privilege(final(s).ctx) == refreshed(privilege(old(s).ctx)),
{
    let args = commands::tcrypt_open_args(source, mapper_name, passphrase.is_some());
    let cryptsetup = s.ctx.cryptsetup_path();
    let stdio = passphrase_stdio(passphrase, false);
    s.run_status(cryptsetup.as_str(), &args, true, stdio, "Failed to open VeraCrypt mapper with cryptsetup")
}

/// What writing a VeraCrypt header on `path` comes to: `veracrypt` must be known, then it runs,
/// behind sudo for a block device.
pub open spec fn header_step(ctx: Privilege, path: Seq<char>, kind: SourceKind, size: u64, cipher: CreateCipher, passphrase: Option<String>, js: Seq<Reply>) -> Course<()> {
    if ctx.tools.veracrypt is None {
        quietly(Outcome::Ends { result: Err(crate::system::missing_tool("veracrypt"@)), used: 0 })
    } else {
        run_course(ctx, kind == SourceKind::Block,
            privileged_argv(ctx, ctx.tools.veracrypt->0@, commands::veracrypt_create_line(cipher, kind, size, path, passphrase is Some), kind == SourceKind::Block),
            passphrase_streams(passphrase, false)@, "Failed to create VeraCrypt container"@, js)
    }
}

/// Creates a VeraCrypt header on `path` (behind sudo for a block device).
fn veracrypt_create(s: &mut Session, path: &str, kind: SourceKind, size_mib: Option<u64>, cipher: CreateCipher, passphrase: &Option<String>) -> (r: Step<()>)
    ensures
        carried(*old(s), *final(s)),
        same_plans(*old(s), *final(s)),
        kind == SourceKind::File && size_mib is None ==> (r matches Err(Halt::Failed(e)) && e.message@ == "Missing file container size."@),
        r is Ok ==> old(s).ctx.tools.veracrypt is Some && succeeded_running(*old(s), *final(s), old(s).ctx, old(s).ctx.tools.veracrypt->0@,
            commands::veracrypt_create_line(cipher, kind, match size_mib { Some(m) => m, None => 0 }, path@, passphrase is Some),
            passphrase_streams(*passphrase, false)),
        kind == SourceKind::Block || size_mib is Some ==> follows(*old(s), *final(s), r, header_step(privilege(old(s).ctx), path@, kind,
            match size_mib { Some(m) => m, None => 0 }, cipher, *passphrase, journal(*old(s))), |u: ()| u),
        r is Ok ==> privilege(final(s).ctx) == if kind == SourceKind::Block { refreshed(privilege(old(s).ctx)) } else { privilege(old(s).ctx) },
{
    let size = match kind {
        SourceKind::File => match size_mib {
            Some(m) => m,
            None => return Err(fail(owned("Missing file container size."))),
        },
        SourceKind::Block => 0,
    };
    let args = commands::veracrypt_create_args(cipher, kind, size, path, passphrase.is_some());
    proof {
        if kind == SourceKind::Block {
            assert(commands::veracrypt_create_line(cipher, kind, size, path@, passphrase is Some)
                =~= commands::veracrypt_create_line(cipher, kind, match size_mib { Some(m) => m, None => 0 }, path@, passphrase is Some));
        }
    }
    let veracrypt = match s.ctx.veracrypt_path() {
        Ok(v) => v,
        Err(e) => {
            assert(journal(*s).skip(0) =~= journal(*s));
            proof { crate::session::lemma_no_requests(*old(s), *s); }
            return Err(Halt::Failed(e));
        },
    };
    let stdio = passphrase_stdio(passphrase, false);
    s.run_status(veracrypt.as_str(), &args, kind == SourceKind::Block, stdio, "Failed to create VeraCrypt container")
}

/// What creating a Btrfs filesystem on `device` comes to: `mkfs.btrfs` must be known, then it
/// runs behind sudo.
pub open spec fn mkfs_step(ctx: Privilege, device: Seq<char>, js: Seq<Reply>) -> Course<()> {
    if ctx.tools.mkfs_btrfs is None {
        quietly(Outcome::Ends { result: Err(crate::system::missing_tool("mkfs.btrfs"@)), used: 0 })
    } else {
        run_course(ctx, true, privileged_argv(ctx, ctx.tools.mkfs_btrfs->0@, seq!["-q"@, device], true), StreamsView::Inherit,
            "Failed to create Btrfs filesystem"@, js)
    }
}

/// Creates a Btrfs filesystem on a device.
fn mkfs_btrfs(s: &mut Session, device: &str) -> (r: Step<()>)
    ensures
        carried(*old(s), *final(s)),
        same_plans(*old(s), *final(s)),
        r is Ok ==> old(s).ctx.tools.mkfs_btrfs is Some && crate::session::just_ran_ok(*old(s), *final(s),
            crate::session::command_argv(old(s).ctx, old(s).ctx.tools.mkfs_btrfs->0@, seq!["-q"@, device@], true)),
        follows(*old(s), *final(s), r, mkfs_step(privilege(old(s).ctx), device@, journal(*old(s))), |u: ()| u),
        r is Ok ==> privilege(final(s).ctx) == refreshed(privilege(old(s).ctx)),
{
    let args = commands::mkfs_args(device);
    let mkfs = match s.ctx.mkfs_btrfs_path() {
        Ok(m) => m,
        Err(e) => {
            assert(journal(*s).skip(0) =~= journal(*s));
            proof { crate::session::lemma_no_requests(*old(s), *s); }
            return Err(Halt::Failed(e));
        },
    };
    s.run_command(mkfs.as_str(), &args, true, "Failed to create Btrfs filesystem")
}


/// A fresh temporary path next to `target`, built from the process id, the time and an attempt
/// number; the first of 1024 attempts that does not exist.
#[verifier::loop_isolation(false)]
#[verifier::rlimit(50)]
fn temp_container_path(s: &mut Session, target: &str) -> (r: Step<String>)
    ensures
        quiet(*old(s), *final(s)),
        r matches Ok(p) ==> exists|pid: u32, nanos: u128, attempt: u32| p@ == #[trigger] temp_name(target@, pid, nanos, attempt),
        settles(*old(s), *final(s), r, temp_path_outcome(target@, journal(*old(s))), |p: String| p@),
{
    let (pid, nanos) = s.ask_clock()?;
    let ghost clocked = *s;
    let mut attempt: u32 = 0;
    assert(journal(*s).skip(0) =~= journal(*s));
    while attempt < 1024
        invariant
            attempt <= 1024,
            quiet(*old(s), *s),
            quiet(clocked, *s),
            journal(*s).len() <= journal(clocked).len(),
            journal(*s) == journal(clocked).skip(journal(clocked).len() - journal(*s).len()),
            temp_search(target@, pid, nanos, 0, journal(clocked))
                == after((journal(clocked).len() - journal(*s).len()) as nat, temp_search(target@, pid, nanos, attempt as nat, journal(*s))),
            temp_path_outcome(target@, journal(*old(s))) == after(1, temp_search(target@, pid, nanos, 0, journal(clocked))),
            journal(clocked) == journal(*old(s)).skip(1),
            journal(*old(s)).len() >= 1,
        decreases 1024 - attempt,
    {
        let candidate = temp_candidate(target, pid, nanos, attempt);
        let ghost before = *s;
        let there = match linux::path_exists(s, candidate.as_str()) {
            Ok(b) => b,
            Err(h) => {
                proof {
                    broadcast use vstd::seq_lib::lemma_seq_skip_of_skip;
                    assert(journal(before) == journal(*old(s)).skip(1).skip(journal(clocked).len() - journal(before).len()));
                }
                return Err(h);
            },
        };
        if !there {
            proof {
                broadcast use vstd::seq_lib::lemma_seq_skip_of_skip;
                assert(journal(before) == journal(*old(s)).skip(1).skip(journal(clocked).len() - journal(before).len()));
            }
            return Ok(candidate);
        }
        assert(journal(*s) == journal(clocked).skip(journal(clocked).len() - journal(*s).len()));
        attempt = attempt + 1;
    }
    proof {
        broadcast use vstd::seq_lib::lemma_seq_skip_of_skip;
        assert(journal(*s) == journal(*old(s)).skip(1).skip(journal(clocked).len() - journal(*s).len()));
    }
    Err(fail(concat2("Failed to create a temporary path for ", target)))
}

/// Looking for a free temporary path for `target`, from attempt `attempt` on: the first
/// candidate that does not exist, the existence of each taken from `js`; an error after
/// 1024 attempts.
pub open spec fn temp_search(target: Seq<char>, pid: u32, nanos: u128, attempt: nat, js: Seq<Reply>) -> Outcome<Seq<char>>
    decreases 1024 - attempt,
{
    if attempt >= 1024 {
        Outcome::Ends { result: Err("Failed to create a temporary path for "@ + target), used: 0 }
    } else {
        match linux::exists_outcome(temp_name(target, pid, nanos, attempt as u32), js) {
            Outcome::Short(w) => Outcome::Short(w),
            Outcome::Ends { result: Err(m), used } => Outcome::Ends { result: Err(m), used },
            Outcome::Ends { result: Ok(false), used } => Outcome::Ends { result: Ok(temp_name(target, pid, nanos, attempt as u32)), used },
            Outcome::Ends { result: Ok(true), used } => after(used, temp_search(target, pid, nanos, attempt + 1, js.skip(used as int))),
        }
    }
}

/// What finding a temporary path for a container at `target` comes to: the process id and
/// the time name the candidates, tried in turn.
pub open spec fn temp_path_outcome(target: Seq<char>, js: Seq<Reply>) -> Outcome<Seq<char>> {
    match crate::session::clock_outcome(js) {
        Outcome::Short(w) => Outcome::Short(w),
        Outcome::Ends { result: Err(m), used } => Outcome::Ends { result: Err(m), used },
        Outcome::Ends { result: Ok((pid, nanos)), used } => after(used, temp_search(target, pid, nanos, 0, js.skip(used as int))),
    }
}

/// The message for a fill that failed at `stage`.
pub open spec fn fill_message(stage: FillStage, path: Seq<char>, failure: Seq<char>) -> Seq<char> {
    match stage {
        FillStage::OpenRandom => io_message("Failed to open /dev/urandom"@, failure),
        FillStage::Create => io_message("Failed to create "@ + path, failure),
        FillStage::Read => io_message("Failed to read from /dev/urandom"@, failure),
        FillStage::Write => io_message("Failed to write "@ + path, failure),
        FillStage::Sync => io_message("Failed to sync "@ + path, failure),
    }
}

/// What filling a new file at `path` with `size_mib` MiB of random data comes to: a size
/// whose bytes do not fit is refused; otherwise the reply to the fill says how it went.
pub open spec fn fill_outcome(path: Seq<char>, size_mib: u64, js: Seq<Reply>) -> Outcome<()> {
    if fill_bytes(size_mib) is None {
        Outcome::Ends { result: Err("Size is too large."@), used: 0 }
    } else if js.len() == 0 {
        Outcome::Short(Some(QueryView::FillRandom(path, size_mib)))
    } else {
        match js[0] {
            Reply::Filled(Ok(())) => Outcome::Ends { result: Ok(()), used: 1 },
            Reply::Filled(Err((stage, f))) => Outcome::Ends { result: Err(fill_message(stage, path, f.message@)), used: 1 },
            _ => Outcome::Ends { result: Err(crate::session::mismatch_message()), used: 1 },
        }
    }
}

/// What moving the finished container onto `to` comes to: the reply to the rename says.
pub open spec fn rename_outcome(from: Seq<char>, to: Seq<char>, js: Seq<Reply>) -> Outcome<()> {
    if js.len() == 0 {
        Outcome::Short(Some(QueryView::Rename(from, to)))
    } else {
        match js[0] {
            Reply::Done(Ok(())) => Outcome::Ends { result: Ok(()), used: 1 },
            Reply::Done(Err(f)) => Outcome::Ends { result: Err(io_message("Failed to move "@ + to, f.message@)), used: 1 },
            _ => Outcome::Ends { result: Err(crate::session::mismatch_message()), used: 1 },
        }
    }
}

/// The message for a failed fill.
fn fill_error(stage: FillStage, path: &str, failure: &IoFailure) -> (r: Halt)
    ensures
        r matches Halt::Failed(e) && e.message@ == fill_message(stage, path@, failure.message@),
{
    match stage {
        FillStage::OpenRandom => io_error("Failed to open /dev/urandom", failure),
        FillStage::Create => io_error(concat2("Failed to create ", path).as_str(), failure),
        FillStage::Read => io_error("Failed to read from /dev/urandom", failure),
        FillStage::Write => io_error(concat2("Failed to write ", path).as_str(), failure),
        FillStage::Sync => io_error(concat2("Failed to sync ", path).as_str(), failure),
    }
}

/// Writes `size_mib` MiB of random data to a new file, with a progress line on a terminal.
fn write_random_file(s: &mut Session, path: &str, size_mib: u64) -> (r: Step<()>)
    ensures
        carried(*old(s), *final(s)),
        same_plans(*old(s), *final(s)),
        ran_nothing(*old(s), *final(s)),
        fill_bytes(size_mib) is None ==> (r matches Err(Halt::Failed(e)) && e.message@ == "Size is too large."@),
        settles(*old(s), *final(s), r, fill_outcome(path@, size_mib, journal(*old(s))), |u: ()| u),
        crate::session::runs_since(*old(s), *final(s)) == Seq::<crate::session::CommandRun>::empty(),
        privilege(final(s).ctx) == privilege(old(s).ctx),
        r is Ok ==> asked_at(*old(s), *final(s), 0, QueryView::FillRandom(path@, size_mib)),
{
    if size_mib.checked_mul(1048576).is_none() {
        assert(journal(*s).skip(0) =~= journal(*s));
        proof { crate::session::lemma_no_requests(*old(s), *s); }
        let m = owned("Size is too large.");
        proof { reveal_strlit("Size is too large."); }
        return Err(fail(m));
    }
    let show_progress = s.ctx.output.stderr_is_tty();
    if show_progress {
        let line = fill_progress_line(0);
        s.ctx.output.progress(line.as_str());
    } else {
        s.ctx.output.msg2("Writing random data");
    }
    let e = Effect::FillRandom { path: owned(path), size_mib, show_progress };
    let ghost asked_for = e;
    let ghost before = *s;
    let filled = s.ask_filled(e);
    proof {
        crate::session::lemma_asked_journal(before, *s, asked_for);
        assert(crate::session::issued_since(before, *s) =~= seq![asked_for]);
        crate::session::lemma_one_request(asked_for);
        crate::session::lemma_framed_step(*old(s), before, *s, *s);
    }
    match filled? {
        Ok(()) => {},
        Err((stage, failure)) => return Err(fill_error(stage, path, &failure)),
    }
    let ghost done_at = *s;
    if show_progress {
        let line = fill_progress_line(100);
        s.ctx.output.progress(line.as_str());
        s.ctx.output.finish_progress();
    }
    proof { crate::session::lemma_framed_step(*old(s), before, done_at, *s); }
    assert(asked_at(*old(s), *s, 0, QueryView::FillRandom(path@, size_mib)));
    Ok(())
}


/// An exchange that created a Btrfs filesystem on a device, and succeeded.
pub open spec fn made_btrfs(ctx: crate::system::AppContext, x: (Effect, Reply)) -> bool {
    &&& x.0 matches Effect::Exec { argv, .. } && strings_view(argv@).len() > 0
    &&& ctx.tools.mkfs_btrfs is Some
    &&& crate::session::ran_ok(x, crate::session::command_argv(ctx, ctx.tools.mkfs_btrfs->0@,
            seq!["-q"@, strings_view(x.0->Exec_argv@).last()], true))
}

/// An exchange that formatted a target as LUKS2 with the profile of `cipher`, and succeeded.
pub open spec fn formatted_luks(ctx: crate::system::AppContext, cipher: CreateCipher, keyed: bool, x: (Effect, Reply)) -> bool {
    &&& x.0 matches Effect::Exec { argv, .. } && strings_view(argv@).len() > 0
    &&& {
        let target = strings_view(x.0->Exec_argv@).last();
        ||| crate::session::ran_ok(x, crate::session::command_argv(ctx, ctx.tools.cryptsetup@, commands::luks_format_line(cipher, target, keyed), true))
        ||| crate::session::ran_ok(x, crate::session::command_argv(ctx, ctx.tools.cryptsetup@, commands::luks_format_line(cipher, target, keyed), false))
    }
}

/// An exchange that created a VeraCrypt header with `cipher`, and succeeded.
pub open spec fn created_veracrypt(ctx: crate::system::AppContext, cipher: CreateCipher, keyed: bool, x: (Effect, Reply)) -> bool {
    &&& x.0 matches Effect::Exec { argv, .. } && strings_view(argv@).len() > 0
    &&& ctx.tools.veracrypt is Some
    &&& exists|kind: SourceKind, size: u64, p: bool| #[trigger] crate::session::ran_ok(x, crate::session::command_argv(ctx, ctx.tools.veracrypt->0@,
            commands::veracrypt_create_line(cipher, kind, size, strings_view(x.0->Exec_argv@).last(), keyed), p))
}

/// Since `old`, `new` created a Btrfs filesystem.
pub open spec fn made_btrfs_since(old: Session, new: Session) -> bool {
    exists|i: int| old.exchanges@.len() <= i < new.exchanges@.len() && #[trigger] made_btrfs(old.ctx, new.exchanges@[i])
}

/// Since `old`, `new` formatted a target as LUKS2 with the profile of `cipher`.
pub open spec fn formatted_luks_since(old: Session, new: Session, cipher: CreateCipher, keyed: bool) -> bool {
    exists|i: int| old.exchanges@.len() <= i < new.exchanges@.len() && #[trigger] formatted_luks(old.ctx, cipher, keyed, new.exchanges@[i])
}

/// Since `old`, `new` created a VeraCrypt header with `cipher`.
pub open spec fn created_veracrypt_since(old: Session, new: Session, cipher: CreateCipher, keyed: bool) -> bool {
    exists|i: int| old.exchanges@.len() <= i < new.exchanges@.len() && #[trigger] created_veracrypt(old.ctx, cipher, keyed, new.exchanges@[i])
}

/// The last request of `s` moved a temporary file of the directory of `target` onto `target`.
pub open spec fn renamed_into_place(s: Session, target: Seq<char>) -> bool {
    &&& s.issued@.len() > 0
    &&& s.issued@.last() matches Effect::Rename { from: f, to: t } && t@ == target
        && exists|pid: u32, nanos: u128, attempt: u32| f@ == #[trigger] temp_name(target, pid, nanos, attempt)
}

/// The last request of `s` moved `temp` onto `target`.
pub open spec fn moved_from(s: Session, temp: Seq<char>, target: Seq<char>) -> bool {
    &&& s.issued@.len() > 0
    &&& s.issued@.last() matches Effect::Rename { from: f, to: t } && f@ == temp && t@ == target
}

/// The container file `temp` built since `old` for `target`: made private first where
/// `secured`, filled with random data of the size in MiB that `filled` gives, and moved onto
/// `target` by the last request of `new`.
pub open spec fn placed_from(old: Session, new: Session, temp: Seq<char>, target: Seq<char>, secured: bool, filled: Option<u64>) -> bool {
    &&& moved_from(new, temp, target)
    &&& secured ==> asked_since(old, new, QueryView::SetPrivate(temp))
    &&& filled matches Some(m) ==> asked_since(old, new, QueryView::FillRandom(temp, m))
}

/// Since `old`, `new` built the container file for `target` in a temporary file next to it
/// and moved that very file onto `target` last.
pub open spec fn placed_since(old: Session, new: Session, target: Seq<char>, secured: bool, filled: Option<u64>) -> bool {
    exists|pid: u32, nanos: u128, attempt: u32|
        #[trigger] placed_from(old, new, temp_name(target, pid, nanos, attempt), target, secured, filled)
}

/// How a create builds its container file: a LUKS one is filled with random data of the
/// requested size; a VeraCrypt one, whose header `veracrypt` writes, is made private.
pub open spec fn created_in_place(old: Session, new: Session, command: CreateCommand) -> bool {
    match command.volume_type {
        VolumeType::Luks => (crate::size::spec_size_mib(size_text(command.size_gb)) matches Ok(m)
            && placed_since(old, new, command.target@, false, Some(m))),
        _ => placed_since(old, new, command.target@, true, None),
    }
}

/// A container file placed between `b` and `c` was placed between any `a` before `b` and a
/// `d` that made no request after `c`.
proof fn lemma_placed_widen(a: Session, b: Session, c: Session, d: Session, target: Seq<char>, secured: bool, filled: Option<u64>)
    requires
        crate::session::prefix_of(a.issued@, b.issued@),
        d.issued@ == c.issued@,
        placed_since(b, c, target, secured, filled),
    ensures
        placed_since(a, d, target, secured, filled),
{
    let (pid, nanos, attempt) = choose|pid: u32, nanos: u128, attempt: u32|
        #[trigger] placed_from(b, c, temp_name(target, pid, nanos, attempt), target, secured, filled);
    let t = temp_name(target, pid, nanos, attempt);
    if secured {
        lemma_asked_within(a, b, c, d, QueryView::SetPrivate(t));
    }
    if filled is Some {
        lemma_asked_within(a, b, c, d, QueryView::FillRandom(t, filled->0));
    }
    assert(placed_from(a, d, t, target, secured, filled));
}

/// What a failed create of a container file at `target` leaves recorded for cleanup: the
/// temporary file found for it, once the size was read and one was found; otherwise the
/// record as it was.
pub open spec fn failed_file_record(old: Session, new: Session, target: Seq<char>, size_gb: Seq<char>) -> bool {
    if crate::size::spec_size_mib(size_gb) is Ok && temp_path_outcome(target, journal(old)) matches Outcome::Ends { result: Ok(_), .. } {
        new.temp_file matches Some(p) && p@ == temp_path_outcome(target, journal(old))->Ends_result->Ok_0
    } else {
        new.temp_file == old.temp_file
    }
}

/// What a create leaves recorded for cleanup: the record as it was, or a temporary file next
/// to `target`.
pub open spec fn temp_recorded(old: Session, new: Session, target: Seq<char>) -> bool {
    ||| new.temp_file == old.temp_file
    ||| exists|pid: u32, nanos: u128, attempt: u32|
        new.temp_file is Some && new.temp_file->Some_0@ == #[trigger] temp_name(target, pid, nanos, attempt)
}

/// Moves the finished container into place.
fn rename_into_place(s: &mut Session, from: &str, to: &str) -> (r: Step<()>)
    ensures
        quiet(*old(s), *final(s)),
        r is Ok ==> final(s).issued@.len() > 0 && (final(s).issued@.last() matches Effect::Rename { from: f, to: t } && f@ == from@ && t@ == to@),
        settles(*old(s), *final(s), r, rename_outcome(from@, to@, journal(*old(s))), |u: ()| u),
{
    let e = Effect::Rename { from: owned(from), to: owned(to) };
    let ghost asked_for = e;
    let done = s.ask_done(e);
    proof { crate::session::lemma_asked_journal(*old(s), *s, asked_for); }
    match done? {
        Ok(()) => Ok(()),
        Err(f) => Err(io_error(concat2("Failed to move ", to).as_str(), &f)),
    }
}

/// Closing the mapper `name` once its filesystem is made.
pub open spec fn close_next(ctx: Privilege, name: Seq<char>) -> spec_fn((), Seq<Reply>) -> Course<()> {
    |u: (), js: Seq<Reply>| close_course(ctx, name, js)
}

/// What making a Btrfs filesystem on the mapper `name` and closing it comes to.
pub open spec fn mkfs_course(ctx: Privilege, name: Seq<char>, js: Seq<Reply>) -> Course<()> {
    and_then(mkfs_step(ctx, path_join("/dev/mapper"@, name), js), js, close_next(refreshed(ctx), name))
}

/// Making the filesystem on the mapper `name` once it is open.
pub open spec fn mkfs_next(ctx: Privilege, name: Seq<char>) -> spec_fn((), Seq<Reply>) -> Course<()> {
    |u: (), js: Seq<Reply>| mkfs_course(ctx, name, js)
}

/// Opening `source` as the mapper `name`: with `cryptsetup`'s VeraCrypt support or as LUKS.
pub open spec fn open_run(ctx: Privilege, source: Seq<char>, name: Seq<char>, veracrypt: bool, passphrase: Option<String>, js: Seq<Reply>) -> Course<()> {
    if veracrypt {
        run_course(ctx, true, privileged_argv(ctx, ctx.tools.cryptsetup@, commands::tcrypt_open_line(source, name, passphrase is Some), true),
            passphrase_streams(passphrase, false)@, "Failed to open VeraCrypt mapper with cryptsetup"@, js)
    } else {
        run_course(ctx, true, privileged_argv(ctx, ctx.tools.cryptsetup@, commands::luks_open_line(source, name, false, passphrase is Some), true),
            passphrase_streams(passphrase, false)@, "Failed to open LUKS mapper"@, js)
    }
}

/// What giving a new container a Btrfs filesystem comes to: its mapper is opened, the
/// filesystem made, the mapper closed.
pub open spec fn btrfs_course(ctx: Privilege, source: Seq<char>, name: Seq<char>, veracrypt: bool, passphrase: Option<String>, js: Seq<Reply>) -> Course<()> {
    and_then(open_run(ctx, source, name, veracrypt, passphrase, js), js, mkfs_next(refreshed(ctx), name))
}

/// Creates Btrfs on the open mapper `mapper_name`, then closes it (no longer to be cleaned up).
fn make_btrfs_and_close(s: &mut Session, mapper_name: &str) -> (r: Step<()>)
    ensures
        carried(*old(s), *final(s)),
        final(s).temp_file == old(s).temp_file,
        final(s).ctx.veracrypt_fallback_noticed == old(s).ctx.veracrypt_fallback_noticed,
        r is Ok ==> final(s).ctx.cleanup_mapper is None,
        r is Ok ==> made_btrfs_since(*old(s), *final(s)),
        follows(*old(s), *final(s), r, mkfs_course(privilege(old(s).ctx), mapper_name@, journal(*old(s))), |u: ()| u),
{
    let mapper_path = crate::naming::mapper_device_path(mapper_name);
    s.ctx.output.msg2("Creating Btrfs filesystem");
    let ghost before_mkfs = *s;
    let ghost first = mkfs_step(privilege(old(s).ctx), mapper_path@, journal(*old(s)));
    let ghost next = close_next(refreshed(privilege(old(s).ctx)), mapper_name@);
    let made = mkfs_btrfs(s, mapper_path.as_str());
    let ghost made_at = *s;
    proof {
        crate::session::lemma_framed_step(*old(s), before_mkfs, made_at, made_at);
        if made is Err {
            lemma_and_then_stops::<(), (), (), ()>(*old(s), made_at, made, first, |u: ()| u, next, |u: ()| u);
        }
    }
    made?;
    let ghost k = s.exchanges@.len() - 1;
    proof {
        let argv = crate::session::command_argv(old(s).ctx, old(s).ctx.tools.mkfs_btrfs->0@, seq!["-q"@, mapper_path@], true);
        assert(argv.last() == mapper_path@);
        assert(strings_view(s.exchanges@[k].0->Exec_argv@) == argv);
    }
    assert(made_btrfs(old(s).ctx, s.exchanges@[k]));
    s.ctx.output.msg2(concat2("Closing mapper ", mapper_path.as_str()).as_str());
    let ghost before_close = *s;
    let closed = crypt_close(s, mapper_name);
    proof {
        lemma_and_then(*old(s), made_at, before_close, *s, made, first, |u: ()| u, closed, next, |u: ()| u);
    }
    closed?;
    let ghost closed_at = *s;
    s.ctx.clear_cleanup_mapper();
    assert(s.exchanges@[k] == before_close.exchanges@[k]);
    assert(made_btrfs(old(s).ctx, s.exchanges@[k]));
    proof { crate::session::lemma_framed_step(*old(s), *old(s), closed_at, *s); }
    Ok(())
}

/// The progress messages and steps shared by both creates once the header is written: open
/// the mapper (remembered for cleanup), create Btrfs on it, close it.
fn fill_mapper_with_btrfs(s: &mut Session, source: &str, mapper_name: &str, veracrypt: bool, passphrase: &Option<String>) -> (r: Step<()>)
    ensures
        carried(*old(s), *final(s)),
        final(s).temp_file == old(s).temp_file,
        final(s).ctx.veracrypt_fallback_noticed == old(s).ctx.veracrypt_fallback_noticed,
        r is Ok ==> final(s).ctx.cleanup_mapper is None,
        r is Ok ==> made_btrfs_since(*old(s), *final(s)),
        follows(*old(s), *final(s), r, btrfs_course(privilege(old(s).ctx), source@, mapper_name@, veracrypt, *passphrase,
            journal(*old(s))), |u: ()| u),
{
    let ghost first = open_run(privilege(old(s).ctx), source@, mapper_name@, veracrypt, *passphrase, journal(*old(s)));
    let ghost next = mkfs_next(refreshed(privilege(old(s).ctx)), mapper_name@);
    let mapper_path = crate::naming::mapper_device_path(mapper_name);
    s.ctx.set_cleanup_mapper(owned(mapper_name));
    let opened;
    let ghost before_open;
    if veracrypt {
        s.ctx.output.msg2(concat3("Opening mapper ", mapper_path.as_str(), " with cryptsetup").as_str());
        proof { before_open = *s; }
        opened = tcrypt_open(s, source, mapper_name, passphrase);
    } else {
        s.ctx.output.msg2(concat2("Opening mapper ", mapper_path.as_str()).as_str());
        proof { before_open = *s; }
        opened = luks_open(s, source, mapper_name, false, passphrase);
    }
    let ghost opened_at = *s;
    proof {
        crate::session::lemma_framed_step(*old(s), before_open, opened_at, opened_at);
        if opened is Err {
            lemma_and_then_stops::<(), (), (), ()>(*old(s), opened_at, opened, first, |u: ()| u, next, |u: ()| u);
        }
    }
    opened?;
    let ghost old_len = s.exchanges@.len();
    let made = make_btrfs_and_close(s, mapper_name);
    proof {
        lemma_and_then(*old(s), opened_at, opened_at, *s, opened, first, |u: ()| u, made, next, |u: ()| u);
    }
    made?;
    proof {
        let i = choose|i: int| opened_at.exchanges@.len() <= i < s.exchanges@.len() && #[trigger] made_btrfs(opened_at.ctx, s.exchanges@[i]);
        let argv_now = crate::session::command_argv(opened_at.ctx, opened_at.ctx.tools.mkfs_btrfs->0@,
            seq!["-q"@, strings_view(s.exchanges@[i].0->Exec_argv@).last()], true);
        assert(argv_now == crate::session::command_argv(old(s).ctx, old(s).ctx.tools.mkfs_btrfs->0@,
            seq!["-q"@, strings_view(s.exchanges@[i].0->Exec_argv@).last()], true));
        assert(made_btrfs(old(s).ctx, s.exchanges@[i]));
    }
    Ok(())
}


/// Whether an exchange made a Btrfs filesystem or formatted LUKS2 depends only on the tools
/// and on whether the process is root.
proof fn lemma_exchange_ctx(c1: crate::system::AppContext, c2: crate::system::AppContext, cipher: CreateCipher, keyed: bool, x: (Effect, Reply))
    requires
        c1.tools == c2.tools,
        c1.is_root == c2.is_root,
    ensures
        made_btrfs(c1, x) == made_btrfs(c2, x),
        formatted_luks(c1, cipher, keyed, x) == formatted_luks(c2, cipher, keyed, x),
{
    let target = strings_view(x.0->Exec_argv@).last();
    assert(crate::session::command_argv(c1, c1.tools.mkfs_btrfs->0@, seq!["-q"@, target], true)
        == crate::session::command_argv(c2, c2.tools.mkfs_btrfs->0@, seq!["-q"@, target], true));
    assert(crate::session::command_argv(c1, c1.tools.cryptsetup@, commands::luks_format_line(cipher, target, keyed), true)
        == crate::session::command_argv(c2, c2.tools.cryptsetup@, commands::luks_format_line(cipher, target, keyed), true));
    assert(crate::session::command_argv(c1, c1.tools.cryptsetup@, commands::luks_format_line(cipher, target, keyed), false)
        == crate::session::command_argv(c2, c2.tools.cryptsetup@, commands::luks_format_line(cipher, target, keyed), false));
}

/// What a span of exchanges made stays made in any span around it, for a context with the
/// same tools and privilege.
proof fn lemma_since_widen(a: Session, b: Session, c: Session, d: Session, cipher: CreateCipher, keyed: bool)
    requires
        a.exchanges@.len() <= b.exchanges@.len(),
        crate::session::prefix_of(c.exchanges@, d.exchanges@),
        a.ctx.tools == b.ctx.tools,
        a.ctx.is_root == b.ctx.is_root,
    ensures
        made_btrfs_since(b, c) ==> made_btrfs_since(a, d),
        formatted_luks_since(b, c, cipher, keyed) ==> formatted_luks_since(a, d, cipher, keyed),
        created_veracrypt_since(b, c, cipher, keyed) ==> created_veracrypt_since(a, d, cipher, keyed),
{
    if created_veracrypt_since(b, c, cipher, keyed) {
        let i = choose|i: int| b.exchanges@.len() <= i < c.exchanges@.len() && #[trigger] created_veracrypt(b.ctx, cipher, keyed, c.exchanges@[i]);
        lemma_created_veracrypt_ctx(b.ctx, a.ctx, cipher, keyed, c.exchanges@[i]);
        assert(d.exchanges@[i] == c.exchanges@[i]);
        assert(created_veracrypt(a.ctx, cipher, keyed, d.exchanges@[i]));
    }
    if made_btrfs_since(b, c) {
        let i = choose|i: int| b.exchanges@.len() <= i < c.exchanges@.len() && #[trigger] made_btrfs(b.ctx, c.exchanges@[i]);
        lemma_exchange_ctx(b.ctx, a.ctx, cipher, keyed, c.exchanges@[i]);
        assert(d.exchanges@[i] == c.exchanges@[i]);
        assert(made_btrfs(a.ctx, d.exchanges@[i]));
    }
    if formatted_luks_since(b, c, cipher, keyed) {
        let i = choose|i: int| b.exchanges@.len() <= i < c.exchanges@.len() && #[trigger] formatted_luks(b.ctx, cipher, keyed, c.exchanges@[i]);
        lemma_exchange_ctx(b.ctx, a.ctx, cipher, keyed, c.exchanges@[i]);
        assert(d.exchanges@[i] == c.exchanges@[i]);
        assert(formatted_luks(a.ctx, cipher, keyed, d.exchanges@[i]));
    }
}

/// Moving the finished container onto `target`.
pub open spec fn rename_next(temp: Seq<char>, target: Seq<char>) -> spec_fn((), Seq<Reply>) -> Course<()> {
    |u: (), js: Seq<Reply>| quietly(rename_outcome(temp, target, js))
}

/// Giving the container with its header at `temp` its filesystem, then moving it onto
/// `target`.
pub open spec fn fill_next(ctx: Privilege, temp: Seq<char>, name: Seq<char>, veracrypt: bool, passphrase: Option<String>, target: Seq<char>) -> spec_fn((), Seq<Reply>) -> Course<()> {
    |u: (), js: Seq<Reply>| and_then(btrfs_course(ctx, temp, name, veracrypt, passphrase, js), js, rename_next(temp, target))
}

/// Formatting the container filled at `temp`, then the rest.
pub open spec fn luks_format_next(ctx: Privilege, cipher: CreateCipher, temp: Seq<char>, name: Seq<char>, passphrase: Option<String>, target: Seq<char>) -> spec_fn((), Seq<Reply>) -> Course<()> {
    |u: (), js: Seq<Reply>| and_then(format_course(ctx, cipher, temp, passphrase, js), js,
        fill_next(formatted_privilege(ctx, temp, js), temp, name, false, passphrase, target))
}

/// Filling the temporary file found for the container with `mib` MiB of random data, then
/// the rest.
pub open spec fn luks_temp_next(ctx: Privilege, cipher: CreateCipher, mib: u64, name: Seq<char>, passphrase: Option<String>, target: Seq<char>) -> spec_fn(Seq<char>, Seq<Reply>) -> Course<()> {
    |temp: Seq<char>, js: Seq<Reply>| and_then(quietly(fill_outcome(temp, mib, js)), js,
        luks_format_next(ctx, cipher, temp, name, passphrase, target))
}

/// The size text of a create, empty when none was given.
pub open spec fn size_text(size_gb: Option<String>) -> Seq<char> {
    match size_gb {
        Some(g) => g@,
        None => Seq::empty(),
    }
}

/// What creating a LUKS container file at `target` comes to once its mapper is named: the size
/// is read, a temporary path found, filled, formatted, given Btrfs and moved onto `target`.
pub open spec fn luks_file_course(ctx: Privilege, cipher: CreateCipher, target: Seq<char>, size_gb: Seq<char>, passphrase: Option<String>, name: Seq<char>, js: Seq<Reply>) -> Course<()> {
    match crate::size::spec_size_mib(size_gb) {
        Err(m) => quietly(Outcome::Ends { result: Err(m), used: 0 }),
        Ok(mib) => and_then(quietly(temp_path_outcome(target, js)), js, luks_temp_next(ctx, cipher, mib, name, passphrase, target)),
    }
}

/// What creating LUKS on the block device `target` comes to once its mapper is named: it is
/// formatted in place and given Btrfs.
pub open spec fn luks_block_course(ctx: Privilege, cipher: CreateCipher, target: Seq<char>, passphrase: Option<String>, name: Seq<char>, js: Seq<Reply>) -> Course<()> {
    and_then(format_course(ctx, cipher, target, passphrase, js), js, luks_block_next(formatted_privilege(ctx, target, js), target, name, passphrase))
}

/// Giving the formatted block device `target` its filesystem.
pub open spec fn luks_block_next(ctx: Privilege, target: Seq<char>, name: Seq<char>, passphrase: Option<String>) -> spec_fn((), Seq<Reply>) -> Course<()> {
    |u: (), js: Seq<Reply>| btrfs_course(ctx, target, name, false, passphrase, js)
}

/// Gives the container with its header at `temp` its filesystem and moves it onto the target.
fn fill_and_rename(s: &mut Session, command: &CreateCommand, mapper_name: &str, temp: &String, veracrypt: bool) -> (r: Step<()>)
    requires
        exists|pid: u32, nanos: u128, attempt: u32| temp@ == #[trigger] temp_name(command.target@, pid, nanos, attempt),
    ensures
        carried(*old(s), *final(s)),
        final(s).temp_file == old(s).temp_file,
        final(s).ctx.veracrypt_fallback_noticed == old(s).ctx.veracrypt_fallback_noticed,
        r is Ok ==> final(s).ctx.cleanup_mapper is None,
        r is Ok ==> made_btrfs_since(*old(s), *final(s)),
        r is Ok ==> renamed_into_place(*final(s), command.target@),
        r is Ok ==> moved_from(*final(s), temp@, command.target@),
        follows(*old(s), *final(s), r, fill_next(privilege(old(s).ctx), temp@, mapper_name@, veracrypt, command.passphrase,
            command.target@)((), journal(*old(s))), |u: ()| u),
{
    let ghost first = btrfs_course(privilege(old(s).ctx), temp@, mapper_name@, veracrypt, command.passphrase, journal(*old(s)));
    let ghost next = rename_next(temp@, command.target@);
    let filled = fill_mapper_with_btrfs(s, temp.as_str(), mapper_name, veracrypt, &command.passphrase);
    let ghost filled_at = *s;
    proof {
        if filled is Err {
            lemma_and_then_stops::<(), (), (), ()>(*old(s), filled_at, filled, first, |u: ()| u, next, |u: ()| u);
        }
    }
    filled?;
    let moved = rename_into_place(s, temp.as_str(), command.target.as_str());
    proof {
        lemma_quietly(filled_at, *s, moved, rename_outcome(temp@, command.target@, journal(filled_at)), |u: ()| u);
        lemma_and_then(*old(s), filled_at, filled_at, *s, filled, first, |u: ()| u, moved, next, |u: ()| u);
        lemma_since_widen(*old(s), *old(s), filled_at, *s, command.cipher, command.passphrase is Some);
    }
    moved?;
    assert(renamed_into_place(*s, command.target@));
    Ok(())
}

/// Formats the filled container at `temp`, gives it its filesystem and moves it onto the
/// target.
#[verifier::rlimit(30)]
#[verifier::spinoff_prover]
fn luks_format_and_fill(s: &mut Session, command: &CreateCommand, mapper_name: &str, temp: &String) -> (r: Step<()>)
    requires
        exists|pid: u32, nanos: u128, attempt: u32| temp@ == #[trigger] temp_name(command.target@, pid, nanos, attempt),
    ensures
        carried(*old(s), *final(s)),
        final(s).temp_file == old(s).temp_file,
        final(s).ctx.veracrypt_fallback_noticed == old(s).ctx.veracrypt_fallback_noticed,
        r is Ok ==> final(s).ctx.cleanup_mapper is None,
        r is Ok ==> formatted_luks_since(*old(s), *final(s), command.cipher, command.passphrase is Some),
        r is Ok ==> made_btrfs_since(*old(s), *final(s)),
        r is Ok ==> renamed_into_place(*final(s), command.target@),
        r is Ok ==> moved_from(*final(s), temp@, command.target@),
        follows(*old(s), *final(s), r, luks_format_next(privilege(old(s).ctx), command.cipher, temp@, mapper_name@,
            command.passphrase, command.target@)((), journal(*old(s))), |u: ()| u),
{
    let ghost first = format_course(privilege(old(s).ctx), command.cipher, temp@, command.passphrase, journal(*old(s)));
    let ghost next = fill_next(formatted_privilege(privilege(old(s).ctx), temp@, journal(*old(s))), temp@, mapper_name@, false,
        command.passphrase, command.target@);
    s.ctx.output.msg2("Formatting LUKS2 header");
    let ghost before_format = *s;
    let formatted = luks_format(s, command.cipher, temp.as_str(), &command.passphrase);
    let ghost formatted_at = *s;
    proof {
        crate::session::lemma_framed_step(*old(s), before_format, formatted_at, formatted_at);
        if formatted is Err {
            lemma_and_then_stops::<(), (), (), ()>(*old(s), formatted_at, formatted, first, |u: ()| u, next, |u: ()| u);
        }
    }
    formatted?;
    let ghost kf = s.exchanges@.len() - 1;
    assert(formatted_luks(old(s).ctx, command.cipher, command.passphrase is Some, s.exchanges@[kf]));
    let rest = fill_and_rename(s, command, mapper_name, temp, false);
    proof {
        lemma_and_then(*old(s), formatted_at, formatted_at, *s, formatted, first, |u: ()| u, rest, next, |u: ()| u);
        lemma_since_widen(*old(s), formatted_at, *s, *s, command.cipher, command.passphrase is Some);
    }
    rest?;
    assert(s.exchanges@[kf] == formatted_at.exchanges@[kf]);
    assert(formatted_luks_since(*old(s), *s, command.cipher, command.passphrase is Some));
    Ok(())
}

/// Fills the temporary file `temp` with random data, then formats it, gives it its
/// filesystem and moves it onto the target.
fn luks_fill_temp(s: &mut Session, command: &CreateCommand, mapper_name: &str, temp: &String, size_mib: u64) -> (r: Step<()>)
    requires
        exists|pid: u32, nanos: u128, attempt: u32| temp@ == #[trigger] temp_name(command.target@, pid, nanos, attempt),
    ensures
        carried(*old(s), *final(s)),
        final(s).temp_file == old(s).temp_file,
        final(s).ctx.veracrypt_fallback_noticed == old(s).ctx.veracrypt_fallback_noticed,
        r is Ok ==> final(s).ctx.cleanup_mapper is None,
        r is Ok ==> formatted_luks_since(*old(s), *final(s), command.cipher, command.passphrase is Some),
        r is Ok ==> made_btrfs_since(*old(s), *final(s)),
        r is Ok ==> renamed_into_place(*final(s), command.target@),
        r is Ok ==> placed_from(*old(s), *final(s), temp@, command.target@, false, Some(size_mib)),
        follows(*old(s), *final(s), r, luks_temp_next(privilege(old(s).ctx), command.cipher, size_mib, mapper_name@,
            command.passphrase, command.target@)(temp@, journal(*old(s))), |u: ()| u),
{
    let ghost first = quietly(fill_outcome(temp@, size_mib, journal(*old(s))));
    let ghost next = luks_format_next(privilege(old(s).ctx), command.cipher, temp@, mapper_name@, command.passphrase, command.target@);
    let filled = write_random_file(s, temp.as_str(), size_mib);
    let ghost filled_at = *s;
    proof {
        lemma_quietly(*old(s), filled_at, filled, fill_outcome(temp@, size_mib, journal(*old(s))), |u: ()| u);
        if filled is Err {
            lemma_and_then_stops::<(), (), (), ()>(*old(s), filled_at, filled, first, |u: ()| u, next, |u: ()| u);
        }
    }
    filled?;
    let rest = luks_format_and_fill(s, command, mapper_name, temp);
    proof {
        lemma_and_then(*old(s), filled_at, filled_at, *s, filled, first, |u: ()| u, rest, next, |u: ()| u);
        lemma_since_widen(*old(s), filled_at, *s, *s, command.cipher, command.passphrase is Some);
        assert(asked_at(*old(s), filled_at, 0, QueryView::FillRandom(temp@, size_mib)));
        lemma_asked_within(*old(s), *old(s), filled_at, *s, QueryView::FillRandom(temp@, size_mib));
    }
    rest
}

/// The file branch of a LUKS create: random data in a temporary file next to the target,
/// formatted, given a Btrfs filesystem through its mapper, then moved onto the target.
#[verifier::rlimit(50)]
fn luks_create_file(s: &mut Session, command: &CreateCommand, mapper_name: &str) -> (r: Step<()>)
    ensures
        carried(*old(s), *final(s)),
        final(s).ctx.veracrypt_fallback_noticed == old(s).ctx.veracrypt_fallback_noticed,
        r is Ok ==> final(s).ctx.cleanup_mapper is None && final(s).temp_file == old(s).temp_file,
        r is Ok ==> formatted_luks_since(*old(s), *final(s), command.cipher, command.passphrase is Some),
        r is Ok ==> made_btrfs_since(*old(s), *final(s)),
        r is Ok ==> renamed_into_place(*final(s), command.target@),
        r is Ok ==> (crate::size::spec_size_mib(size_text(command.size_gb)) matches Ok(m)
            && placed_since(*old(s), *final(s), command.target@, false, Some(m))),
        r is Err ==> failed_file_record(*old(s), *final(s), command.target@, size_text(command.size_gb)),
        temp_recorded(*old(s), *final(s), command.target@),
        follows(*old(s), *final(s), r, luks_file_course(privilege(old(s).ctx), command.cipher, command.target@, size_text(command.size_gb),
            command.passphrase, mapper_name@, journal(*old(s))), |u: ()| u),
{
    let size_gb = match &command.size_gb {
        Some(g) => g.clone(),
        None => String::new(),
    };
    assert(size_gb@ == size_text(command.size_gb));
    let size_mib = match crate::size::size_gb_to_mib(size_gb.as_str()) {
        Ok(m) => m,
        Err(e) => {
            assert(journal(*s).skip(0) =~= journal(*s));
            proof { crate::session::lemma_no_requests(*old(s), *s); }
            return Err(Halt::Failed(e));
        },
    };
    let ghost first = quietly(temp_path_outcome(command.target@, journal(*old(s))));
    let ghost next = luks_temp_next(privilege(old(s).ctx), command.cipher, size_mib, mapper_name@, command.passphrase, command.target@);
    let found = temp_container_path(s, command.target.as_str());
    let ghost found_at = *s;
    proof {
        lemma_quietly(*old(s), found_at, found, temp_path_outcome(command.target@, journal(*old(s))), |p: String| p@);
        if found is Err {
            lemma_and_then_stops::<String, Seq<char>, (), ()>(*old(s), found_at, found, first, |p: String| p@, next, |u: ()| u);
        }
    }
    let temp_path = found?;
    let previous_temp = s.temp_file.clone();
    s.temp_file = Some(temp_path.clone());

    s.ctx.output.msg(concat2("Creating LUKS container at ", command.target.as_str()).as_str());
    let mut size_line = owned("Target size: ");
    push_str(&mut size_line, size_gb.as_str());
    push_str(&mut size_line, " GB (");
    push_str(&mut size_line, decimal_string(size_mib).as_str());
    push_str(&mut size_line, " MiB)");
    s.ctx.output.msg2(size_line.as_str());
    let ghost before_fill = *s;
    let rest = luks_fill_temp(s, command, mapper_name, &temp_path, size_mib);
    proof {
        lemma_and_then(*old(s), found_at, before_fill, *s, found, first, |p: String| p@, rest, next, |u: ()| u);
    }
    rest?;
    let ghost done_at = *s;
    s.temp_file = previous_temp;
    proof {
        crate::session::lemma_framed_step(*old(s), *old(s), done_at, *s);
        lemma_since_widen(*old(s), before_fill, done_at, *s, command.cipher, command.passphrase is Some);
        lemma_asked_within(*old(s), before_fill, done_at, *s, QueryView::FillRandom(temp_path@, size_mib));
        let (pid, nanos, attempt) = choose|pid: u32, nanos: u128, attempt: u32|
            temp_path@ == #[trigger] temp_name(command.target@, pid, nanos, attempt);
        assert(placed_from(*old(s), *s, temp_name(command.target@, pid, nanos, attempt), command.target@, false, Some(size_mib)));
    }
    Ok(())
}

/// The block branch of a LUKS create: the device is formatted in place and given a Btrfs
/// filesystem through its mapper.
fn luks_create_block(s: &mut Session, command: &CreateCommand, mapper_name: &str) -> (r: Step<()>)
    ensures
        carried(*old(s), *final(s)),
        final(s).ctx.veracrypt_fallback_noticed == old(s).ctx.veracrypt_fallback_noticed,
        r is Ok ==> final(s).ctx.cleanup_mapper is None && final(s).temp_file == old(s).temp_file,
        r is Ok ==> formatted_luks_since(*old(s), *final(s), command.cipher, command.passphrase is Some),
        r is Ok ==> made_btrfs_since(*old(s), *final(s)),
        follows(*old(s), *final(s), r, luks_block_course(privilege(old(s).ctx), command.cipher, command.target@,
            command.passphrase, mapper_name@, journal(*old(s))), |u: ()| u),
{
    let ghost first = format_course(privilege(old(s).ctx), command.cipher, command.target@, command.passphrase, journal(*old(s)));
    let ghost next = luks_block_next(formatted_privilege(privilege(old(s).ctx), command.target@, journal(*old(s))), command.target@, mapper_name@,
        command.passphrase);
    s.ctx.output.msg(concat2("Creating LUKS volume on block device ", command.target.as_str()).as_str());
    s.ctx.output.msg2("Destructive mode enabled by --force");
    s.ctx.output.msg2("Formatting LUKS2 header");
    let ghost before_format = *s;
    let formatted = luks_format(s, command.cipher, command.target.as_str(), &command.passphrase);
    let ghost formatted_at = *s;
    proof {
        crate::session::lemma_framed_step(*old(s), before_format, formatted_at, formatted_at);
        if formatted is Err {
            lemma_and_then_stops::<(), (), (), ()>(*old(s), formatted_at, formatted, first, |u: ()| u, next, |u: ()| u);
        }
    }
    formatted?;
    let ghost kf = s.exchanges@.len() - 1;
    assert(formatted_luks(old(s).ctx, command.cipher, command.passphrase is Some, s.exchanges@[kf]));
    let filled = fill_mapper_with_btrfs(s, command.target.as_str(), mapper_name, false, &command.passphrase);
    proof {
        lemma_and_then(*old(s), formatted_at, formatted_at, *s, formatted, first, |u: ()| u, filled, next, |u: ()| u);
        lemma_since_widen(*old(s), formatted_at, *s, *s, command.cipher, command.passphrase is Some);
    }
    filled?;
    assert(s.exchanges@[kf] == formatted_at.exchanges@[kf]);
    assert(formatted_luks_since(*old(s), *s, command.cipher, command.passphrase is Some));
    Ok(())
}

/// The branch of a LUKS create for a file or a block device, once the mapper is named.
pub open spec fn luks_branch_next(ctx: Privilege, cipher: CreateCipher, kind: SourceKind, target: Seq<char>, size_gb: Seq<char>, passphrase: Option<String>) -> spec_fn(Seq<char>, Seq<Reply>) -> Course<()> {
    |name: Seq<char>, js: Seq<Reply>| match kind {
        SourceKind::File => luks_file_course(ctx, cipher, target, size_gb, passphrase, name, js),
        SourceKind::Block => luks_block_course(ctx, cipher, target, passphrase, name, js),
    }
}

/// What creating a LUKS2 volume with Btrfs comes to: a terminal for the passphrase unless it
/// was handed over, its mapper named by the path of the target, then the branch for a file or
/// a block device.
pub open spec fn luks_create_course(ctx: Privilege, command: CreateCommand, js: Seq<Reply>) -> Course<()> {
    and_then(quietly(crate::mounting::named_course(command.passphrase, command.target@, None, js)), js,
        luks_branch_next(ctx, command.cipher, command.source_kind, command.target@, size_text(command.size_gb), command.passphrase))
}

/// Creates a LUKS2 volume with a Btrfs filesystem: a file container is filled with random data
/// in a temporary file that replaces the target only at the end; a block device is formatted in
/// place. On success the target was formatted with the profile of the chosen cipher and a Btrfs
/// filesystem was created on its mapper, which is closed again.
fn luks_create_device(s: &mut Session, command: &CreateCommand) -> (r: Step<()>)
    ensures
        carried(*old(s), *final(s)),
        final(s).ctx.veracrypt_fallback_noticed == old(s).ctx.veracrypt_fallback_noticed,
        r is Ok ==> final(s).ctx.cleanup_mapper is None && final(s).temp_file == old(s).temp_file,
        r is Ok ==> formatted_luks_since(*old(s), *final(s), command.cipher, command.passphrase is Some),
        r is Ok ==> made_btrfs_since(*old(s), *final(s)),
        r is Ok && command.source_kind == SourceKind::File ==> renamed_into_place(*final(s), command.target@),
        r is Ok && command.source_kind == SourceKind::File ==> (crate::size::spec_size_mib(size_text(command.size_gb)) matches Ok(m)
            && placed_since(*old(s), *final(s), command.target@, false, Some(m))),
        follows(*old(s), *final(s), r, luks_create_course(privilege(old(s).ctx), *command, journal(*old(s))), |u: ()| u),
{
    let ghost first = quietly(crate::mounting::named_course(command.passphrase, command.target@, None, journal(*old(s))));
    let ghost next = luks_branch_next(privilege(old(s).ctx), command.cipher, command.source_kind, command.target@,
        size_text(command.size_gb), command.passphrase);
    let named = crate::mounting::prompt_and_name(s, command.target.as_str(), &None, &command.passphrase);
    let ghost named_at = *s;
    proof {
        lemma_quietly(*old(s), named_at, named, crate::mounting::named_course(command.passphrase, command.target@, None, journal(*old(s))),
            |n: String| n@);
        if named is Err {
            lemma_and_then_stops::<String, Seq<char>, (), ()>(*old(s), named_at, named, first, |n: String| n@, next, |u: ()| u);
        }
    }
    let mapper_name = named?;
    let made = match command.source_kind {
        SourceKind::File => luks_create_file(s, command, mapper_name.as_str()),
        SourceKind::Block => luks_create_block(s, command, mapper_name.as_str()),
    };
    proof {
        lemma_and_then(*old(s), named_at, named_at, *s, named, first, |n: String| n@, made, next, |u: ()| u);
    }
    made?;
    let ghost before_messages = *s;
    s.ctx.output.success(concat2("Created LUKS+Btrfs volume on ", command.target.as_str()).as_str());
    s.ctx.output.msg2(concat2("Mapper name: ", mapper_name.as_str()).as_str());
    assert(s.exchanges@ == before_messages.exchanges@);
    assert(s.issued@ == before_messages.issued@);
    proof {
        crate::session::lemma_framed_step(*old(s), *old(s), before_messages, *s);
        if command.source_kind == SourceKind::File {
            let m = crate::size::spec_size_mib(size_text(command.size_gb))->Ok_0;
            lemma_placed_widen(*old(s), named_at, before_messages, *s, command.target@, false, Some(m));
        }
    }
    Ok(())
}


/// Whether an exchange created a VeraCrypt header depends only on the tools and the privilege.
proof fn lemma_created_veracrypt_ctx(c1: crate::system::AppContext, c2: crate::system::AppContext, cipher: CreateCipher, keyed: bool, x: (Effect, Reply))
    requires
        c1.tools == c2.tools,
        c1.is_root == c2.is_root,
        created_veracrypt(c1, cipher, keyed, x),
    ensures
        created_veracrypt(c2, cipher, keyed, x),
{
    let (kind, size, p) = choose|kind: SourceKind, size: u64, p: bool| #[trigger] crate::session::ran_ok(x, crate::session::command_argv(c1, c1.tools.veracrypt->0@,
            commands::veracrypt_create_line(cipher, kind, size, strings_view(x.0->Exec_argv@).last(), keyed), p));
    let line = commands::veracrypt_create_line(cipher, kind, size, strings_view(x.0->Exec_argv@).last(), keyed);
    assert(crate::session::command_argv(c1, c1.tools.veracrypt->0@, line, p) == crate::session::command_argv(c2, c2.tools.veracrypt->0@, line, p));
    assert(crate::session::ran_ok(x, crate::session::command_argv(c2, c2.tools.veracrypt->0@, line, p)));
}

/// After `veracrypt_create` succeeded, its exchange created a VeraCrypt header with `cipher`.
proof fn lemma_created_veracrypt(before: Session, after: Session, ctx: crate::system::AppContext, cipher: CreateCipher,
    kind: SourceKind, size: u64, path: Seq<char>, keyed: bool, stdio: StdioMode)
    requires
        ctx.tools.veracrypt is Some,
        succeeded_running(before, after, ctx, ctx.tools.veracrypt->0@, commands::veracrypt_create_line(cipher, kind, size, path, keyed), stdio),
    ensures
        created_veracrypt(ctx, cipher, keyed, after.exchanges@.last()),
        after.exchanges@.len() > before.exchanges@.len(),
{
    let line = commands::veracrypt_create_line(cipher, kind, size, path, keyed);
    assert(line.last() == path);
    let x = after.exchanges@.last();
    if crate::session::just_ran_ok(before, after, crate::session::command_argv(ctx, ctx.tools.veracrypt->0@, line, true)) {
        assert(crate::session::command_argv(ctx, ctx.tools.veracrypt->0@, line, true).last() == path);
        assert(crate::session::ran_ok(x, crate::session::command_argv(ctx, ctx.tools.veracrypt->0@,
            commands::veracrypt_create_line(cipher, kind, size, strings_view(x.0->Exec_argv@).last(), keyed), true)));
    } else {
        assert(crate::session::command_argv(ctx, ctx.tools.veracrypt->0@, line, false).last() == path);
        assert(crate::session::ran_ok(x, crate::session::command_argv(ctx, ctx.tools.veracrypt->0@,
            commands::veracrypt_create_line(cipher, kind, size, strings_view(x.0->Exec_argv@).last(), keyed), false)));
    }
}

/// What making the temporary file `temp` private comes to: the reply says.
pub open spec fn secure_outcome(temp: Seq<char>, js: Seq<Reply>) -> Outcome<()> {
    if js.len() == 0 {
        Outcome::Short(Some(QueryView::SetPrivate(temp)))
    } else {
        match js[0] {
            Reply::Done(Ok(())) => Outcome::Ends { result: Ok(()), used: 1 },
            Reply::Done(Err(f)) => Outcome::Ends { result: Err(io_message("Failed to secure "@ + temp, f.message@)), used: 1 },
            _ => Outcome::Ends { result: Err(crate::session::mismatch_message()), used: 1 },
        }
    }
}

/// Makes the temporary container file private to its owner.
fn secure_temp_file(s: &mut Session, temp: &String) -> (r: Step<()>)
    ensures
        quiet(*old(s), *final(s)),
        settles(*old(s), *final(s), r, secure_outcome(temp@, journal(*old(s))), |u: ()| u),
        asked_at(*old(s), *final(s), 0, QueryView::SetPrivate(temp@)),
{
    let e = Effect::SetPrivate { path: temp.clone() };
    let ghost asked_for = e;
    let done = s.ask_done(e);
    proof { crate::session::lemma_asked_journal(*old(s), *s, asked_for); }
    match done? {
        Ok(()) => Ok(()),
        Err(f) => Err(io_error(concat2("Failed to secure ", temp.as_str()).as_str(), &f)),
    }
}

/// Making the temporary file `temp` private, then giving it its filesystem and moving it onto
/// `target`.
pub open spec fn secure_next(ctx: Privilege, temp: Seq<char>, name: Seq<char>, passphrase: Option<String>, target: Seq<char>) -> spec_fn((), Seq<Reply>) -> Course<()> {
    |u: (), js: Seq<Reply>| and_then(quietly(secure_outcome(temp, js)), js, fill_next(ctx, temp, name, true, passphrase, target))
}

/// Writing the VeraCrypt header on the temporary file `temp` of `mib` MiB, then the rest.
pub open spec fn header_next(ctx: Privilege, cipher: CreateCipher, mib: u64, name: Seq<char>, passphrase: Option<String>, target: Seq<char>) -> spec_fn(Seq<char>, Seq<Reply>) -> Course<()> {
    |temp: Seq<char>, js: Seq<Reply>| and_then(header_step(ctx, temp, SourceKind::File, mib, cipher, passphrase, js), js,
        secure_next(ctx, temp, name, passphrase, target))
}

/// What creating a VeraCrypt container file at `target` comes to once its mapper is named: the
/// size is read, a temporary path found, the header written on it by `veracrypt`, the file made
/// private, given Btrfs and moved onto `target`.
pub open spec fn veracrypt_file_course(ctx: Privilege, cipher: CreateCipher, target: Seq<char>, size_gb: Seq<char>, passphrase: Option<String>, name: Seq<char>, js: Seq<Reply>) -> Course<()> {
    match crate::size::spec_size_mib(size_gb) {
        Err(m) => quietly(Outcome::Ends { result: Err(m), used: 0 }),
        Ok(mib) => and_then(quietly(temp_path_outcome(target, js)), js, header_next(ctx, cipher, mib, name, passphrase, target)),
    }
}

/// Giving the block device `target`, with its VeraCrypt header, its filesystem.
pub open spec fn veracrypt_block_next(ctx: Privilege, target: Seq<char>, name: Seq<char>, passphrase: Option<String>) -> spec_fn((), Seq<Reply>) -> Course<()> {
    |u: (), js: Seq<Reply>| btrfs_course(ctx, target, name, true, passphrase, js)
}

/// What creating VeraCrypt on the block device `target` comes to once its mapper is named:
/// the header is written in place, behind sudo, then the device is given Btrfs.
pub open spec fn veracrypt_block_course(ctx: Privilege, cipher: CreateCipher, target: Seq<char>, passphrase: Option<String>, name: Seq<char>, js: Seq<Reply>) -> Course<()> {
    and_then(header_step(ctx, target, SourceKind::Block, 0, cipher, passphrase, js), js, veracrypt_block_next(refreshed(ctx), target, name, passphrase))
}

/// The branch of a VeraCrypt create for a file or a block device, once the mapper is named.
pub open spec fn veracrypt_branch_next(ctx: Privilege, cipher: CreateCipher, kind: SourceKind, target: Seq<char>, size_gb: Seq<char>, passphrase: Option<String>) -> spec_fn(Seq<char>, Seq<Reply>) -> Course<()> {
    |name: Seq<char>, js: Seq<Reply>| match kind {
        SourceKind::File => veracrypt_file_course(ctx, cipher, target, size_gb, passphrase, name, js),
        SourceKind::Block => veracrypt_block_course(ctx, cipher, target, passphrase, name, js),
    }
}

/// What creating a VeraCrypt volume with Btrfs comes to: a terminal for the passphrase unless
/// it was handed over, its mapper named by the path of the target, then the branch for a file
/// or a block device.
pub open spec fn veracrypt_create_course(ctx: Privilege, command: CreateCommand, js: Seq<Reply>) -> Course<()> {
    and_then(quietly(crate::mounting::named_course(command.passphrase, command.target@, None, js)), js,
        veracrypt_branch_next(ctx, command.cipher, command.source_kind, command.target@, size_text(command.size_gb), command.passphrase))
}

/// Makes the temporary file `temp` private, gives it its filesystem and moves it onto the
/// target.
fn secure_and_fill(s: &mut Session, command: &CreateCommand, mapper_name: &str, temp: &String) -> (r: Step<()>)
    requires
        exists|pid: u32, nanos: u128, attempt: u32| temp@ == #[trigger] temp_name(command.target@, pid, nanos, attempt),
    ensures
        carried(*old(s), *final(s)),
        final(s).temp_file == old(s).temp_file,
        final(s).ctx.veracrypt_fallback_noticed == old(s).ctx.veracrypt_fallback_noticed,
        r is Ok ==> final(s).ctx.cleanup_mapper is None,
        r is Ok ==> made_btrfs_since(*old(s), *final(s)),
        r is Ok ==> renamed_into_place(*final(s), command.target@),
        r is Ok ==> placed_from(*old(s), *final(s), temp@, command.target@, true, None),
        follows(*old(s), *final(s), r, secure_next(privilege(old(s).ctx), temp@, mapper_name@, command.passphrase,
            command.target@)((), journal(*old(s))), |u: ()| u),
{
    let ghost first = quietly(secure_outcome(temp@, journal(*old(s))));
    let ghost next = fill_next(privilege(old(s).ctx), temp@, mapper_name@, true, command.passphrase, command.target@);
    let secured = secure_temp_file(s, temp);
    let ghost secured_at = *s;
    proof {
        lemma_quietly(*old(s), secured_at, secured, secure_outcome(temp@, journal(*old(s))), |u: ()| u);
        if secured is Err {
            lemma_and_then_stops::<(), (), (), ()>(*old(s), secured_at, secured, first, |u: ()| u, next, |u: ()| u);
        }
    }
    secured?;
    let rest = fill_and_rename(s, command, mapper_name, temp, true);
    proof {
        lemma_and_then(*old(s), secured_at, secured_at, *s, secured, first, |u: ()| u, rest, next, |u: ()| u);
        lemma_since_widen(*old(s), secured_at, *s, *s, command.cipher, command.passphrase is Some);
        assert(asked_at(*old(s), secured_at, 0, QueryView::SetPrivate(temp@)));
        lemma_asked_within(*old(s), *old(s), secured_at, *s, QueryView::SetPrivate(temp@));
    }
    rest
}

/// Writes the VeraCrypt header on the temporary file `temp`, then makes it private, gives it
/// its filesystem and moves it onto the target.
fn header_and_fill(s: &mut Session, command: &CreateCommand, mapper_name: &str, temp: &String, size_mib: u64) -> (r: Step<()>)
    requires
        exists|pid: u32, nanos: u128, attempt: u32| temp@ == #[trigger] temp_name(command.target@, pid, nanos, attempt),
    ensures
        carried(*old(s), *final(s)),
        final(s).temp_file == old(s).temp_file,
        final(s).ctx.veracrypt_fallback_noticed == old(s).ctx.veracrypt_fallback_noticed,
        r is Ok ==> final(s).ctx.cleanup_mapper is None,
        r is Ok ==> created_veracrypt_since(*old(s), *final(s), command.cipher, command.passphrase is Some),
        r is Ok ==> made_btrfs_since(*old(s), *final(s)),
        r is Ok ==> renamed_into_place(*final(s), command.target@),
        r is Ok ==> placed_from(*old(s), *final(s), temp@, command.target@, true, None),
        follows(*old(s), *final(s), r, header_next(privilege(old(s).ctx), command.cipher, size_mib, mapper_name@,
            command.passphrase, command.target@)(temp@, journal(*old(s))), |u: ()| u),
{
    let ghost first = header_step(privilege(old(s).ctx), temp@, SourceKind::File, size_mib, command.cipher, command.passphrase, journal(*old(s)));
    let ghost next = secure_next(privilege(old(s).ctx), temp@, mapper_name@, command.passphrase, command.target@);
    let created = veracrypt_create(s, temp.as_str(), SourceKind::File, Some(size_mib), command.cipher, &command.passphrase);
    let ghost created_at = *s;
    proof {
        if created is Err {
            lemma_and_then_stops::<(), (), (), ()>(*old(s), created_at, created, first, |u: ()| u, next, |u: ()| u);
        }
    }
    created?;
    let ghost kc = s.exchanges@.len() - 1;
    proof {
        lemma_created_veracrypt(*old(s), *s, old(s).ctx, command.cipher, SourceKind::File, size_mib,
            temp@, command.passphrase is Some, passphrase_streams(command.passphrase, false));
    }
    let rest = secure_and_fill(s, command, mapper_name, temp);
    proof {
        lemma_and_then(*old(s), created_at, created_at, *s, created, first, |u: ()| u, rest, next, |u: ()| u);
        lemma_since_widen(*old(s), created_at, *s, *s, command.cipher, command.passphrase is Some);
    }
    rest?;
    assert(s.exchanges@[kc] == created_at.exchanges@[kc]);
    assert(created_veracrypt_since(*old(s), *s, command.cipher, command.passphrase is Some));
    proof { lemma_asked_within(*old(s), created_at, *s, *s, QueryView::SetPrivate(temp@)); }
    Ok(())
}

/// The file branch of a VeraCrypt create: the header is written on a temporary file next to
/// the target, which is made private, given a Btrfs filesystem and moved onto the target.
#[verifier::rlimit(50)]
fn veracrypt_create_file(s: &mut Session, command: &CreateCommand, mapper_name: &str, header: &str) -> (r: Step<()>)
    ensures
        carried(*old(s), *final(s)),
        final(s).ctx.veracrypt_fallback_noticed == old(s).ctx.veracrypt_fallback_noticed,
        r is Ok ==> final(s).ctx.cleanup_mapper is None && final(s).temp_file == old(s).temp_file,
        r is Ok ==> created_veracrypt_since(*old(s), *final(s), command.cipher, command.passphrase is Some),
        r is Ok ==> made_btrfs_since(*old(s), *final(s)),
        r is Ok ==> renamed_into_place(*final(s), command.target@),
        r is Ok ==> placed_since(*old(s), *final(s), command.target@, true, None),
        r is Err ==> failed_file_record(*old(s), *final(s), command.target@, size_text(command.size_gb)),
        temp_recorded(*old(s), *final(s), command.target@),
        follows(*old(s), *final(s), r, veracrypt_file_course(privilege(old(s).ctx), command.cipher, command.target@,
            size_text(command.size_gb), command.passphrase, mapper_name@, journal(*old(s))), |u: ()| u),
{
    let size_gb = match &command.size_gb {
        Some(g) => g.clone(),
        None => String::new(),
    };
    assert(size_gb@ == size_text(command.size_gb));
    let size_mib = match crate::size::size_gb_to_mib(size_gb.as_str()) {
        Ok(m) => m,
        Err(e) => {
            assert(journal(*s).skip(0) =~= journal(*s));
            proof { crate::session::lemma_no_requests(*old(s), *s); }
            return Err(Halt::Failed(e));
        },
    };
    let ghost first = quietly(temp_path_outcome(command.target@, journal(*old(s))));
    let ghost next = header_next(privilege(old(s).ctx), command.cipher, size_mib, mapper_name@, command.passphrase, command.target@);
    let found = temp_container_path(s, command.target.as_str());
    let ghost found_at = *s;
    proof {
        lemma_quietly(*old(s), found_at, found, temp_path_outcome(command.target@, journal(*old(s))), |p: String| p@);
        if found is Err {
            lemma_and_then_stops::<String, Seq<char>, (), ()>(*old(s), found_at, found, first, |p: String| p@, next, |u: ()| u);
        }
    }
    let temp_path = found?;
    let previous_temp = s.temp_file.clone();
    s.temp_file = Some(temp_path.clone());

    s.ctx.output.msg(concat2("Creating VeraCrypt container at ", command.target.as_str()).as_str());
    let mut size_line = owned("Target size: ");
    push_str(&mut size_line, size_gb.as_str());
    push_str(&mut size_line, " GB (");
    push_str(&mut size_line, decimal_string(size_mib).as_str());
    push_str(&mut size_line, " MiB)");
    s.ctx.output.msg2(size_line.as_str());
    s.ctx.output.msg2(header);
    let ghost before_header = *s;
    let rest = header_and_fill(s, command, mapper_name, &temp_path, size_mib);
    proof {
        lemma_and_then(*old(s), found_at, before_header, *s, found, first, |p: String| p@, rest, next, |u: ()| u);
    }
    rest?;
    let ghost done_at = *s;
    s.temp_file = previous_temp;
    proof {
        crate::session::lemma_framed_step(*old(s), *old(s), done_at, *s);
        lemma_since_widen(*old(s), before_header, done_at, *s, command.cipher, command.passphrase is Some);
        lemma_asked_within(*old(s), before_header, done_at, *s, QueryView::SetPrivate(temp_path@));
        let (pid, nanos, attempt) = choose|pid: u32, nanos: u128, attempt: u32|
            temp_path@ == #[trigger] temp_name(command.target@, pid, nanos, attempt);
        assert(placed_from(*old(s), *s, temp_name(command.target@, pid, nanos, attempt), command.target@, true, None));
    }
    Ok(())
}

/// The block branch of a VeraCrypt create: the header is written on the device in place, then
/// it is given a Btrfs filesystem through its mapper.
fn veracrypt_create_block(s: &mut Session, command: &CreateCommand, mapper_name: &str, header: &str) -> (r: Step<()>)
    ensures
        carried(*old(s), *final(s)),
        final(s).ctx.veracrypt_fallback_noticed == old(s).ctx.veracrypt_fallback_noticed,
        r is Ok ==> final(s).ctx.cleanup_mapper is None && final(s).temp_file == old(s).temp_file,
        r is Ok ==> created_veracrypt_since(*old(s), *final(s), command.cipher, command.passphrase is Some),
        r is Ok ==> made_btrfs_since(*old(s), *final(s)),
        follows(*old(s), *final(s), r, veracrypt_block_course(privilege(old(s).ctx), command.cipher, command.target@,
            command.passphrase, mapper_name@, journal(*old(s))), |u: ()| u),
{
    let ghost first = header_step(privilege(old(s).ctx), command.target@, SourceKind::Block, 0, command.cipher, command.passphrase, journal(*old(s)));
    let ghost next = veracrypt_block_next(refreshed(privilege(old(s).ctx)), command.target@, mapper_name@, command.passphrase);
    s.ctx.output.msg(concat2("Creating VeraCrypt volume on block device ", command.target.as_str()).as_str());
    s.ctx.output.msg2("Destructive mode enabled by --force");
    s.ctx.output.msg2("Using VeraCrypt quick format for device-hosted creation");
    s.ctx.output.msg2(header);
    let ghost before_create = *s;
    let created = veracrypt_create(s, command.target.as_str(), SourceKind::Block, None, command.cipher, &command.passphrase);
    let ghost created_at = *s;
    proof {
        crate::session::lemma_framed_step(*old(s), before_create, created_at, created_at);
        if created is Err {
            lemma_and_then_stops::<(), (), (), ()>(*old(s), created_at, created, first, |u: ()| u, next, |u: ()| u);
        }
    }
    created?;
    let ghost kc = s.exchanges@.len() - 1;
    proof {
        let line = commands::veracrypt_create_line(command.cipher, SourceKind::Block, 0, command.target@, command.passphrase is Some);
        assert(crate::session::command_argv(before_create.ctx, old(s).ctx.tools.veracrypt->0@, line, true)
            == crate::session::command_argv(old(s).ctx, old(s).ctx.tools.veracrypt->0@, line, true));
        assert(crate::session::command_argv(before_create.ctx, old(s).ctx.tools.veracrypt->0@, line, false)
            == crate::session::command_argv(old(s).ctx, old(s).ctx.tools.veracrypt->0@, line, false));
        lemma_created_veracrypt(before_create, *s, old(s).ctx, command.cipher, SourceKind::Block, 0,
            command.target@, command.passphrase is Some, passphrase_streams(command.passphrase, false));
    }
    let filled = fill_mapper_with_btrfs(s, command.target.as_str(), mapper_name, true, &command.passphrase);
    proof {
        lemma_and_then(*old(s), created_at, created_at, *s, created, first, |u: ()| u, filled, next, |u: ()| u);
        lemma_since_widen(*old(s), created_at, *s, *s, command.cipher, command.passphrase is Some);
    }
    filled?;
    assert(s.exchanges@[kc] == created_at.exchanges@[kc]);
    assert(created_veracrypt_since(*old(s), *s, command.cipher, command.passphrase is Some));
    Ok(())
}

/// Creates a VeraCrypt volume with a Btrfs filesystem: the header is written with the chosen
/// cipher and SHA-512 by `veracrypt`, then `cryptsetup` opens it for `mkfs.btrfs`. A file
/// container is built in a private temporary file that replaces the target only at the end.
fn veracrypt_create_device(s: &mut Session, command: &CreateCommand) -> (r: Step<()>)
    ensures
        carried(*old(s), *final(s)),
        final(s).ctx.veracrypt_fallback_noticed == old(s).ctx.veracrypt_fallback_noticed,
        r is Ok ==> final(s).ctx.cleanup_mapper is None && final(s).temp_file == old(s).temp_file,
        r is Ok ==> created_veracrypt_since(*old(s), *final(s), command.cipher, command.passphrase is Some),
        r is Ok ==> made_btrfs_since(*old(s), *final(s)),
        r is Ok && command.source_kind == SourceKind::File ==> renamed_into_place(*final(s), command.target@),
        r is Ok && command.source_kind == SourceKind::File ==> placed_since(*old(s), *final(s), command.target@, true, None),
        follows(*old(s), *final(s), r, veracrypt_create_course(privilege(old(s).ctx), *command, journal(*old(s))), |u: ()| u),
{
    let ghost first = quietly(crate::mounting::named_course(command.passphrase, command.target@, None, journal(*old(s))));
    let ghost next = veracrypt_branch_next(privilege(old(s).ctx), command.cipher, command.source_kind, command.target@,
        size_text(command.size_gb), command.passphrase);
    let named = crate::mounting::prompt_and_name(s, command.target.as_str(), &None, &command.passphrase);
    let ghost named_at = *s;
    proof {
        lemma_quietly(*old(s), named_at, named, crate::mounting::named_course(command.passphrase, command.target@, None, journal(*old(s))),
            |n: String| n@);
        if named is Err {
            lemma_and_then_stops::<String, Seq<char>, (), ()>(*old(s), named_at, named, first, |n: String| n@, next, |u: ()| u);
        }
    }
    let mapper_name = named?;
    let mut header = owned("Creating VeraCrypt header (normal, password-only, ");
    push_str(&mut header, commands::veracrypt_cipher_name(command.cipher));
    push_str(&mut header, ", SHA-512, filesystem=none)");
    let made = match command.source_kind {
        SourceKind::File => veracrypt_create_file(s, command, mapper_name.as_str(), header.as_str()),
        SourceKind::Block => veracrypt_create_block(s, command, mapper_name.as_str(), header.as_str()),
    };
    proof {
        lemma_and_then(*old(s), named_at, named_at, *s, named, first, |n: String| n@, made, next, |u: ()| u);
    }
    made?;
    let ghost before_messages = *s;
    s.ctx.output.success(concat2("Created VeraCrypt+Btrfs volume on ", command.target.as_str()).as_str());
    s.ctx.output.msg2(concat2("Mapper name: ", mapper_name.as_str()).as_str());
    assert(s.exchanges@ == before_messages.exchanges@);
    assert(s.issued@ == before_messages.issued@);
    proof {
        crate::session::lemma_framed_step(*old(s), *old(s), before_messages, *s);
        if command.source_kind == SourceKind::File {
            lemma_placed_widen(*old(s), named_at, before_messages, *s, command.target@, true, None);
        }
    }
    Ok(())
}


/// Creating the volume of `command` once its target was checked.
pub open spec fn volume_next(ctx: Privilege, command: CreateCommand) -> spec_fn((), Seq<Reply>) -> Course<()> {
    |u: (), js: Seq<Reply>| match command.volume_type {
        VolumeType::Veracrypt => veracrypt_create_course(ctx, command, js),
        VolumeType::Luks => luks_create_course(ctx, command, js),
        VolumeType::Auto => refused("Option --type auto is not valid with create."@),
    }
}

/// What a create comes to: its target is checked, then the volume of the requested type is
/// created.
pub open spec fn create_course(ctx: Privilege, command: CreateCommand, js: Seq<Reply>) -> Course<()> {
    and_then(target_course(ctx, command, js), js, volume_next(ctx, command))
}

/// Creates a volume: checks the target, then creates a LUKS or VeraCrypt volume. A block
/// device is never touched without `force`: without it nothing is run at all.
fn create_device(s: &mut Session, command: &CreateCommand) -> (r: Step<()>)
    ensures
        carried(*old(s), *final(s)),
        final(s).ctx.veracrypt_fallback_noticed == old(s).ctx.veracrypt_fallback_noticed,
        command.source_kind == SourceKind::Block && !command.force ==> ran_nothing(*old(s), *final(s)) && r is Err
            && same_plans(*old(s), *final(s)),
        r is Ok ==> final(s).ctx.cleanup_mapper is None,
        r is Ok ==> command.volume_type != VolumeType::Auto,
        r is Ok ==> made_btrfs_since(*old(s), *final(s)),
        r is Ok && command.volume_type == VolumeType::Luks ==> formatted_luks_since(*old(s), *final(s), command.cipher, command.passphrase is Some),
        r is Ok && command.volume_type == VolumeType::Veracrypt ==> created_veracrypt_since(*old(s), *final(s), command.cipher, command.passphrase is Some),
        r is Ok && command.source_kind == SourceKind::File ==> renamed_into_place(*final(s), command.target@),
        r is Ok && command.source_kind == SourceKind::File ==> created_in_place(*old(s), *final(s), *command),
        follows(*old(s), *final(s), r, create_course(privilege(old(s).ctx), *command, journal(*old(s))), |u: ()| u),
        target_asks(*old(s), *final(s), *command),
{
    let ghost first = target_course(privilege(old(s).ctx), *command, journal(*old(s)));
    let ghost next = volume_next(privilege(old(s).ctx), *command);
    let checked_step = assert_create_target(s, command);
    let ghost checked = *s;
    proof {
        if checked_step is Err {
            lemma_and_then_stops::<(), (), (), ()>(*old(s), checked, checked_step, first, |u: ()| u, next, |u: ()| u);
        }
    }
    checked_step?;
    let r = match command.volume_type {
        VolumeType::Veracrypt => veracrypt_create_device(s, command),
        VolumeType::Luks => luks_create_device(s, command),
        VolumeType::Auto => {
            let r = Err(fail(owned("Option --type auto is not valid with create.")));
            proof {
                reveal_strlit("Option --type auto is not valid with create.");
                lemma_refused(*s, r, "Option --type auto is not valid with create."@);
            }
            r
        },
    };
    proof {
        lemma_and_then(*old(s), checked, checked, *s, checked_step, first, |u: ()| u, r, next, |u: ()| u);
        lemma_since_widen(*old(s), checked, *s, *s, command.cipher, command.passphrase is Some);
        if r is Ok && command.source_kind == SourceKind::File {
            if command.volume_type == VolumeType::Luks {
                let m = crate::size::spec_size_mib(size_text(command.size_gb))->Ok_0;
                lemma_placed_widen(*old(s), checked, *s, *s, command.target@, false, Some(m));
            } else {
                lemma_placed_widen(*old(s), checked, *s, *s, command.target@, true, None);
            }
        }
    }
    r
}

/// Performs one operation.
pub fn perform(s: &mut Session, command: &CommandAction) -> (r: Step<()>)
    ensures
        carried(*old(s), *final(s)),
        command matches CommandAction::Create(c) && c.source_kind == SourceKind::Block && !c.force ==> ran_nothing(*old(s), *final(s)) && r is Err
            && same_plans(*old(s), *final(s)),
        command matches CommandAction::Create(c) && r is Ok ==> made_btrfs_since(*old(s), *final(s)),
        command matches CommandAction::Create(c) ==> (r is Ok && c.source_kind == SourceKind::File ==> created_in_place(*old(s), *final(s), *c)),
        command matches CommandAction::Create(c) ==> follows(*old(s), *final(s), r, create_course(privilege(old(s).ctx), *c,
            journal(*old(s))), |u: ()| u),
        command matches CommandAction::Mount(m) ==> follows(*old(s), *final(s), r, crate::mounting::mount_course(privilege(old(s).ctx),
            m.source@, m.mountpoint@, opt_text(m.tag), m.volume_type, m.passphrase, journal(*old(s))), |u: ()| u),
        command matches CommandAction::Mount(m) ==> crate::inspect::probe_asks(*old(s), *final(s), m.source@),
        !(command is Create) ==> final(s).temp_file == old(s).temp_file,
        command is Unmount ==> final(s).ctx.cleanup_mapper == old(s).ctx.cleanup_mapper,
        command matches CommandAction::Unmount(u) ==> (!under_mapper_dir(u.target@)
            ==> asked_at(*old(s), *final(s), 0, QueryView::Metadata(u.target@))),
        command matches CommandAction::Unmount(u) ==> (u.tag is None ==> crate::inspect::umount_type_asks(*old(s), *final(s), u.target@)),
        command matches CommandAction::Unmount(u) ==> follows(*old(s), *final(s), r, crate::mounting::unmount_course(privilege(old(s).ctx),
            u.target@, opt_text(u.tag), u.volume_type, journal(*old(s))), |u: ()| u),
{
    match command {
        CommandAction::Create(c) => create_device(s, c),
        CommandAction::Mount(m) => mount_device(s, m),
        CommandAction::Unmount(u) => unmount_device(s, u),
    }
}


/// Detection wins unless the type is pinned: an `auto` request takes the detected type, and a
/// pinned type that contradicts the detection is refused, whatever the subject.
pub proof fn detected_type_wins_unless_pinned(requested: VolumeType, actual: VolumeType, subject: Seq<char>, kind: Seq<char>, allow: bool)
    ensures
        spec_resolve_volume_type(VolumeType::Auto, Some(actual), subject, kind, allow) == Ok::<VolumeType, Seq<char>>(actual),
        requested != VolumeType::Auto && requested != actual ==> spec_resolve_volume_type(requested, Some(actual), subject, kind, allow) is Err,
        spec_resolve_volume_type(actual, Some(actual), subject, kind, allow) == Ok::<VolumeType, Seq<char>>(actual),
        spec_resolve_volume_type(VolumeType::Auto, None, subject, kind, allow) is Err,
{
}

} // verus!
