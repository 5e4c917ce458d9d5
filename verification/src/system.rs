//! Tool discovery results, the privilege-aware context of an operation, and what the
//! system reports (effective uid, the tools that were found).

use vstd::prelude::*;
use crate::api::{opt_text, CommandAction, CreateCommand, SystemProbe, ToolStatus};
use crate::error::{AppError, AppResult};
use crate::model::{SourceKind, VolumeType};
use crate::output::{after_record, entries_view, Output, OutputLevel};
use crate::text::{char_vec, chars_start_with, chars_skip, concat2, has_prefix, lines, owned, split_lines};
use crate::mountinfo::words;
use crate::size::{all_digits, digits_value};

verus! {

broadcast use vstd::string::group_string_axioms;

/// Where each tool was found on `PATH` (or at its path), if anywhere.
#[derive(Clone, Debug)]
pub struct FoundTools {
    pub cryptsetup: Option<String>,
    pub mkfs_btrfs: Option<String>,
    pub mount: Option<String>,
    pub umount: Option<String>,
    pub lsblk: Option<String>,
    pub blkid: Option<String>,
    pub veracrypt: Option<String>,
    pub sudo: Option<String>,
    pub pkexec: Option<String>,
}

/// The tools an operation uses.
#[derive(Clone, Debug)]
pub struct ToolPaths {
    pub cryptsetup: String,
    pub mkfs_btrfs: Option<String>,
    pub mount: Option<String>,
    pub umount: Option<String>,
    pub blkid: Option<String>,
    pub lsblk: Option<String>,
    pub veracrypt: Option<String>,
    pub sudo: Option<String>,
}

/// The message for a missing tool.
pub open spec fn missing_tool(name: Seq<char>) -> Seq<char> {
    "Required command not found: "@ + name
}

fn require_command(name: &str, found: &Option<String>) -> (r: AppResult<String>)
    ensures
        match (r, *found) {
            (Ok(p), Some(f)) => p@ == f@,
            (Err(e), None) => e.message@ == missing_tool(name@) && e.exit_code == 1,
            _ => false,
        },
{
    match found {
        Some(p) => Ok(p.clone()),
        None => Err(AppError::new(concat2("Required command not found: ", name))),
    }
}

/// The tools of an operation, or the first missing one: `cryptsetup` always; `mkfs.btrfs`
/// for a create, and `lsblk` for a block-device create, and `veracrypt` for a VeraCrypt create;
/// `mount` for a mount; `umount` for an unmount.
pub open spec fn spec_resolve_tools(command: CommandAction, found: FoundTools) -> Result<ToolPaths, Seq<char>> {
    match found.cryptsetup {
        None => Err(missing_tool("cryptsetup"@)),
        Some(cryptsetup) => {
            let base = ToolPaths {
                cryptsetup,
                mkfs_btrfs: None,
                mount: None,
                umount: None,
                blkid: found.blkid,
                lsblk: found.lsblk,
                veracrypt: found.veracrypt,
                sudo: found.sudo,
            };
            match command {
                CommandAction::Create(c) => match found.mkfs_btrfs {
                    None => Err(missing_tool("mkfs.btrfs"@)),
                    Some(m) => {
                        if c.source_kind == SourceKind::Block && found.lsblk is None {
                            Err(missing_tool("lsblk"@))
                        } else if c.volume_type == VolumeType::Veracrypt && found.veracrypt is None {
                            Err(missing_tool("veracrypt"@))
                        } else {
                            Ok(ToolPaths { mkfs_btrfs: Some(m), ..base })
                        }
                    },
                },
                CommandAction::Mount(_) => match found.mount {
                    None => Err(missing_tool("mount"@)),
                    Some(m) => Ok(ToolPaths { mount: Some(m), ..base }),
                },
                CommandAction::Unmount(_) => match found.umount {
                    None => Err(missing_tool("umount"@)),
                    Some(u) => Ok(ToolPaths { umount: Some(u), ..base }),
                },
            }
        },
    }
}

/// Whether two tool sets name the same tools.
pub open spec fn same_tools(a: ToolPaths, b: ToolPaths) -> bool {
    &&& a.cryptsetup@ == b.cryptsetup@
    &&& opt_text(a.mkfs_btrfs) == opt_text(b.mkfs_btrfs)
    &&& opt_text(a.mount) == opt_text(b.mount)
    &&& opt_text(a.umount) == opt_text(b.umount)
    &&& opt_text(a.blkid) == opt_text(b.blkid)
    &&& opt_text(a.lsblk) == opt_text(b.lsblk)
    &&& opt_text(a.veracrypt) == opt_text(b.veracrypt)
    &&& opt_text(a.sudo) == opt_text(b.sudo)
}

fn copy_opt(o: &Option<String>) -> (r: Option<String>)
    ensures
        opt_text(r) == opt_text(*o),
{
    crate::api::opt_copy(o)
}

impl ToolPaths {
    /// The tools that an operation needs, from what was found.
    pub fn resolve(command: &CommandAction, found: &FoundTools) -> (r: AppResult<ToolPaths>)
        ensures
            match (r, spec_resolve_tools(*command, *found)) {
                (Ok(t), Ok(u)) => same_tools(t, u),
                (Err(e), Err(m)) => e.message@ == m && e.exit_code == 1,
                _ => false,
            },
    {
        let cryptsetup = require_command("cryptsetup", &found.cryptsetup)?;
        let mut tools = ToolPaths {
            cryptsetup,
            mkfs_btrfs: None,
            mount: None,
            umount: None,
            blkid: copy_opt(&found.blkid),
            lsblk: copy_opt(&found.lsblk),
            veracrypt: copy_opt(&found.veracrypt),
            sudo: copy_opt(&found.sudo),
        };
        match command {
            CommandAction::Create(CreateCommand { source_kind, volume_type, .. }) => {
                tools.mkfs_btrfs = Some(require_command("mkfs.btrfs", &found.mkfs_btrfs)?);
                if *source_kind == SourceKind::Block {
                    require_command("lsblk", &found.lsblk)?;
                }
                if *volume_type == VolumeType::Veracrypt {
                    require_command("veracrypt", &found.veracrypt)?;
                }
            },
            CommandAction::Mount(_) => {
                tools.mount = Some(require_command("mount", &found.mount)?);
            },
            CommandAction::Unmount(_) => {
                tools.umount = Some(require_command("umount", &found.umount)?);
            },
        }
        Ok(tools)
    }
}

/// The value that `str::parse::<u32>` reads: an optional `+` and at least one digit.
pub open spec fn spec_parse_u32(s: Seq<char>) -> Option<u32> {
    let digits = if s.len() > 0 && s[0] == '+' { s.drop_first() } else { s };
    if digits.len() == 0 || !all_digits(digits) || digits_value(digits) > u32::MAX {
        None
    } else {
        Some(digits_value(digits) as u32)
    }
}

pub(crate) fn parse_u32(s: &Vec<char>) -> (r: Option<u32>)
    ensures
        r == spec_parse_u32(s@),
{
    let start: usize = if s.len() > 0 && s[0] == '+' { 1 } else { 0 };
    let ghost digits = if s@.len() > 0 && s@[0] == '+' { s@.drop_first() } else { s@ };
    assert(digits =~= s@.subrange(start as int, s@.len() as int));
    if start == s.len() {
        return None;
    }
    let mut value: u64 = 0;
    let mut k = start;
    while k < s.len()
        invariant
            start <= k <= s.len(),
            digits == s@.subrange(start as int, s@.len() as int),
            digits == (if s@.len() > 0 && s@[0] == '+' { s@.drop_first() } else { s@ }),
            forall|j: int| start <= j < k ==> '0' <= s@[j] && s@[j] <= '9',
            value == digits_value(digits.take(k - start)),
            value <= u32::MAX,
        decreases s.len() - k,
    {
        let c = s[k];
        if !('0' <= c && c <= '9') {
            assert(digits[k - start] == c);
            assert(!all_digits(digits));
            return None;
        }
        let d = (c as u32 - '0' as u32) as u64;
        assert(digits.take(k - start + 1).drop_last() =~= digits.take(k - start));
        assert(digits[k - start] == c);
        let next = value * 10 + d;
        assert(next == digits_value(digits.take(k - start + 1)));
        if next > u32::MAX as u64 {
            proof {
                assert forall|j: int| 0 <= j < k - start + 1 implies '0' <= #[trigger] digits.take(k - start + 1)[j] && digits.take(k - start + 1)[j] <= '9' by {
                    assert(digits.take(k - start + 1)[j] == s@[start + j]);
                }
                lemma_value_prefix(digits, k - start + 1);
            }
            return None;
        }
        value = next;
        k = k + 1;
    }
    assert(digits.take(digits.len() as int) =~= digits);
    assert forall|i: int| 0 <= i < digits.len() implies '0' <= #[trigger] digits[i] && digits[i] <= '9' by {
        assert(digits[i] == s@[start + i]);
    }
    Some(value as u32)
}

proof fn lemma_value_prefix(s: Seq<char>, k: int)
    requires
        0 <= k <= s.len(),
    ensures
        digits_value(s.take(k)) <= digits_value(s),
    decreases s.len() - k,
{
    if k < s.len() {
        lemma_value_prefix(s, k + 1);
        assert(s.take(k + 1).drop_last() =~= s.take(k));
        let a = digits_value(s.take(k));
        let d = ((s.take(k + 1).last() as nat) - ('0' as nat)) as nat;
        assert(a <= a * 10 + d) by (nonlinear_arith);
    } else {
        assert(s.take(k) =~= s);
    }
}

/// The effective uid that a `/proc/self/status` text reports: the second number of the first
/// line that starts with `Uid:`.
pub open spec fn uid_in(ls: Seq<Seq<char>>) -> Result<u32, Seq<char>>
    decreases ls.len(),
{
    if ls.len() == 0 {
        Err("Failed to locate effective uid."@)
    } else if has_prefix(ls[0], "Uid:"@) {
        let parts = words(ls[0].skip(4));
        if parts.len() < 2 {
            Err("Failed to parse effective uid."@)
        } else {
            match spec_parse_u32(parts[1]) {
                Some(u) => Ok(u),
                None => Err("Failed to parse effective uid."@),
            }
        }
    } else {
        uid_in(ls.drop_first())
    }
}

/// Reads the effective uid from the text of `/proc/self/status`.
pub fn effective_uid_from_status(status: &str) -> (r: AppResult<u32>)
    ensures
        match (r, uid_in(lines(status@))) {
            (Ok(u), Ok(v)) => u == v,
            (Err(e), Err(m)) => e.message@ == m && e.exit_code == 1,
            _ => false,
        },
{
    let all = split_lines(status);
    let prefix = char_vec("Uid:");
    proof { reveal_strlit("Uid:"); }
    let ghost ls = lines(status@);
    assert(ls.skip(0) =~= ls);
    let mut i: usize = 0;
    while i < all.len()
        invariant
            i <= all.len(),
            ls == lines(status@),
            all@.len() == ls.len(),
            forall|j: int| 0 <= j < all@.len() ==> #[trigger] all@[j]@ == ls[j],
            prefix@ == "Uid:"@,
            "Uid:"@.len() == 4,
            uid_in(ls) == uid_in(ls.skip(i as int)),
        decreases all.len() - i,
    {
        assert(ls.skip(i as int).drop_first() =~= ls.skip(i + 1));
        assert(ls.skip(i as int)[0] == ls[i as int]);
        if chars_start_with(&all[i], &prefix) {
            let rest = chars_skip(&all[i], 4);
            assert(rest@ =~= ls[i as int].skip(4));
            let parts = crate::mountinfo::split_words_pub(&rest);
            if parts.len() < 2 {
                return Err(AppError::new(owned("Failed to parse effective uid.")));
            }
            return match parse_u32(&parts[1]) {
                Some(u) => Ok(u),
                None => Err(AppError::new(owned("Failed to parse effective uid."))),
            };
        }
        i = i + 1;
    }
    Err(AppError::new(owned("Failed to locate effective uid.")))
}

fn status(name: &str, path: &Option<String>, required: bool) -> (r: ToolStatus)
    ensures
        r.name@ == name@,
        opt_text(r.path) == opt_text(*path),
        r.required == required,
{
    ToolStatus { name: owned(name), path: copy_opt(path), required }
}

/// The tool names the probe reports, in order, and whether each is required.
pub open spec fn probe_entry(i: int) -> (Seq<char>, bool) {
    if i == 0 { ("cryptsetup"@, true) }
    else if i == 1 { ("mkfs.btrfs"@, true) }
    else if i == 2 { ("mount"@, true) }
    else if i == 3 { ("umount"@, true) }
    else if i == 4 { ("lsblk"@, true) }
    else if i == 5 { ("blkid"@, false) }
    else if i == 6 { ("veracrypt"@, false) }
    else if i == 7 { ("sudo"@, false) }
    else { ("pkexec"@, false) }
}

/// Where the probe found the tool of entry `i`.
pub open spec fn probe_path(found: FoundTools, i: int) -> Option<Seq<char>> {
    if i == 0 { opt_text(found.cryptsetup) }
    else if i == 1 { opt_text(found.mkfs_btrfs) }
    else if i == 2 { opt_text(found.mount) }
    else if i == 3 { opt_text(found.umount) }
    else if i == 4 { opt_text(found.lsblk) }
    else if i == 5 { opt_text(found.blkid) }
    else if i == 6 { opt_text(found.veracrypt) }
    else if i == 7 { opt_text(found.sudo) }
    else { opt_text(found.pkexec) }
}

/// What the system offers: whether the effective uid (read from the text of
/// `/proc/self/status`, or the error of reading it) is 0, and the nine tools with where they
/// were found.
pub fn probe_system(proc_status: &AppResult<String>, found: &FoundTools) -> (r: AppResult<SystemProbe>)
    ensures
        match r {
            Ok(p) => {
                &&& proc_status matches Ok(text) && uid_in(lines(text@)) matches Ok(uid) && p.is_root == (uid == 0)
                &&& p.tools@.len() == 9
                &&& forall|i: int| 0 <= i < 9 ==> {
                    &&& (#[trigger] p.tools@[i]).name@ == probe_entry(i).0
                    &&& p.tools@[i].required == probe_entry(i).1
                    &&& opt_text(p.tools@[i].path) == probe_path(*found, i)
                }
            },
            Err(e) => match proc_status {
                Err(read_error) => e.message@ == read_error.message@,
                Ok(text) => uid_in(lines(text@)) matches Err(m) && e.message@ == m,
            },
        },
{
    let uid = match proc_status {
        Ok(text) => effective_uid_from_status(text.as_str())?,
        Err(e) => return Err(AppError { message: e.message.clone(), exit_code: e.exit_code }),
    };
    let mut tools: Vec<ToolStatus> = Vec::new();
    tools.push(status("cryptsetup", &found.cryptsetup, true));
    tools.push(status("mkfs.btrfs", &found.mkfs_btrfs, true));
    tools.push(status("mount", &found.mount, true));
    tools.push(status("umount", &found.umount, true));
    tools.push(status("lsblk", &found.lsblk, true));
    tools.push(status("blkid", &found.blkid, false));
    tools.push(status("veracrypt", &found.veracrypt, false));
    tools.push(status("sudo", &found.sudo, false));
    tools.push(status("pkexec", &found.pkexec, false));
    Ok(SystemProbe { is_root: uid == 0, tools })
}

/// The context of one operation: its output, its tools, whether it runs as root, whether sudo
/// credentials are fresh, the mapper to close if the operation fails, and whether the
/// VeraCrypt fallback was announced.
#[derive(Debug)]
pub struct AppContext {
    pub output: Output,
    pub tools: ToolPaths,
    pub is_root: bool,
    pub sudo_ready: bool,
    pub cleanup_mapper: Option<String>,
    pub veracrypt_fallback_noticed: bool,
}

/// The notice that `cryptsetup` stands in for `veracrypt`: recorded on the first call only.
pub open spec fn fallback_notice(old: AppContext, new: AppContext) -> bool {
    &&& new.veracrypt_fallback_noticed
    &&& new.output.mode == old.output.mode
    &&& entries_view(new.output.entries@) == if old.veracrypt_fallback_noticed {
        entries_view(old.output.entries@)
    } else {
        after_record(old.output.mode, entries_view(old.output.entries@), OutputLevel::Detail,
            "veracrypt not found; falling back to cryptsetup for veracrypt container"@)
    }
}

/// However many times the fallback is announced in a context that had not announced it, the
/// notice is recorded exactly once: after `k >= 1` calls the entries are those from before
/// and the one notice.
pub proof fn fallback_is_noticed_once(cs: Seq<AppContext>)
    requires
        cs.len() >= 2,
        !cs[0].veracrypt_fallback_noticed,
        forall|i: int| 0 <= i < cs.len() - 1 ==> #[trigger] fallback_notice(cs[i], cs[i + 1]),
    ensures
        cs.last().veracrypt_fallback_noticed,
        entries_view(cs.last().output.entries@) == after_record(cs[0].output.mode, entries_view(cs[0].output.entries@),
            OutputLevel::Detail, "veracrypt not found; falling back to cryptsetup for veracrypt container"@),
    decreases cs.len(),
{
    if cs.len() > 2 {
        let front = cs.drop_last();
        assert forall|i: int| 0 <= i < front.len() - 1 implies #[trigger] fallback_notice(front[i], front[i + 1]) by {
            assert(fallback_notice(cs[i], cs[i + 1]));
        }
        fallback_is_noticed_once(front);
        let j = cs.len() - 2;
        assert(fallback_notice(cs[j], cs[j + 1]));
    } else {
        let j = 0int;
        assert(fallback_notice(cs[j], cs[j + 1]));
    }
}

impl AppContext {
    /// The context for `command`: its tools (or the first missing one), then whether the
    /// effective uid read from `/proc/self/status` is 0.
    pub fn new(command: &CommandAction, output: Output, found: &FoundTools, proc_status: &AppResult<String>) -> (r: AppResult<AppContext>)
        ensures
            match r {
                Ok(ctx) => {
                    &&& spec_resolve_tools(*command, *found) matches Ok(t) && same_tools(ctx.tools, t)
                    &&& proc_status matches Ok(text) && uid_in(lines(text@)) matches Ok(uid) && ctx.is_root == (uid == 0)
                    &&& ctx.output == output
                    &&& !ctx.sudo_ready
                    &&& ctx.cleanup_mapper is None
                    &&& !ctx.veracrypt_fallback_noticed
                },
                Err(e) => match spec_resolve_tools(*command, *found) {
                    Err(m) => e.message@ == m,
                    Ok(_) => match proc_status {
                        Err(read_error) => e.message@ == read_error.message@,
                        Ok(text) => uid_in(lines(text@)) matches Err(m) && e.message@ == m,
                    },
                },
            },
    {
        let tools = ToolPaths::resolve(command, found)?;
        let uid = match proc_status {
            Ok(text) => effective_uid_from_status(text.as_str())?,
            Err(e) => return Err(AppError { message: e.message.clone(), exit_code: e.exit_code }),
        };
        Ok(AppContext {
            output,
            tools,
            is_root: uid == 0,
            sudo_ready: false,
            cleanup_mapper: None,
            veracrypt_fallback_noticed: false,
        })
    }

    /// A context that only looks: no tools, no privilege, and an output that drops everything.
    pub fn observer() -> (r: AppContext)
        ensures
            r.tools.sudo is None,
            !r.is_root,
            r.cleanup_mapper is None,
            r.output.mode == crate::output::OutputMode::Silent,
    {
        AppContext {
            output: Output::silent(),
            tools: ToolPaths {
                cryptsetup: String::new(),
                mkfs_btrfs: None,
                mount: None,
                umount: None,
                blkid: None,
                lsblk: None,
                veracrypt: None,
                sudo: None,
            },
            is_root: false,
            sudo_ready: false,
            cleanup_mapper: None,
            veracrypt_fallback_noticed: false,
        }
    }

    /// The `cryptsetup` executable.
    pub fn cryptsetup_path(&self) -> (r: String)
        ensures
            r@ == self.tools.cryptsetup@,
    {
        self.tools.cryptsetup.clone()
    }

    /// The `mkfs.btrfs` executable, or the error that it is missing.
    pub fn mkfs_btrfs_path(&self) -> (r: AppResult<String>)
        ensures
            match (r, self.tools.mkfs_btrfs) {
                (Ok(p), Some(t)) => p@ == t@,
                (Err(e), None) => e.message@ == missing_tool("mkfs.btrfs"@) && e.exit_code == 1,
                _ => false,
            },
    {
        require_command("mkfs.btrfs", &self.tools.mkfs_btrfs)
    }

    /// The `mount` executable, or the error that it is missing.
    pub fn mount_path(&self) -> (r: AppResult<String>)
        ensures
            match (r, self.tools.mount) {
                (Ok(p), Some(t)) => p@ == t@,
                (Err(e), None) => e.message@ == missing_tool("mount"@) && e.exit_code == 1,
                _ => false,
            },
    {
        require_command("mount", &self.tools.mount)
    }

    /// The `umount` executable, or the error that it is missing.
    pub fn umount_path(&self) -> (r: AppResult<String>)
        ensures
            match (r, self.tools.umount) {
                (Ok(p), Some(t)) => p@ == t@,
                (Err(e), None) => e.message@ == missing_tool("umount"@) && e.exit_code == 1,
                _ => false,
            },
    {
        require_command("umount", &self.tools.umount)
    }

    /// The `lsblk` executable, or the error that it is missing.
    pub fn lsblk_path(&self) -> (r: AppResult<String>)
        ensures
            match (r, self.tools.lsblk) {
                (Ok(p), Some(t)) => p@ == t@,
                (Err(e), None) => e.message@ == missing_tool("lsblk"@) && e.exit_code == 1,
                _ => false,
            },
    {
        require_command("lsblk", &self.tools.lsblk)
    }

    /// The `blkid` executable, if found.
    pub fn blkid_path(&self) -> (r: Option<String>)
        ensures
            opt_text(r) == opt_text(self.tools.blkid),
    {
        copy_opt(&self.tools.blkid)
    }

    /// The `veracrypt` executable, or the error that it is missing.
    pub fn veracrypt_path(&self) -> (r: AppResult<String>)
        ensures
            match (r, self.tools.veracrypt) {
                (Ok(p), Some(t)) => p@ == t@,
                (Err(e), None) => e.message@ == missing_tool("veracrypt"@) && e.exit_code == 1,
                _ => false,
            },
    {
        require_command("veracrypt", &self.tools.veracrypt)
    }

    /// Whether `veracrypt` was found.
    pub fn have_veracrypt(&self) -> (r: bool)
        ensures
            r == self.tools.veracrypt is Some,
    {
        self.tools.veracrypt.is_some()
    }

    /// Announces, once per operation, that `cryptsetup` stands in for a missing `veracrypt`.
    pub fn notice_veracrypt_fallback(&mut self)
        ensures
            fallback_notice(*old(self), *final(self)),
            final(self).tools == old(self).tools,
            final(self).is_root == old(self).is_root,
            final(self).sudo_ready == old(self).sudo_ready,
            final(self).cleanup_mapper == old(self).cleanup_mapper,
    {
        if !self.veracrypt_fallback_noticed {
            self.output.msg2("veracrypt not found; falling back to cryptsetup for veracrypt container");
            self.veracrypt_fallback_noticed = true;
        }
    }

    /// Remembers the mapper to close if the operation fails.
    pub fn set_cleanup_mapper(&mut self, mapper_name: String)
        ensures
            opt_text(final(self).cleanup_mapper) == Some(mapper_name@),
            final(self).output == old(self).output,
            final(self).tools == old(self).tools,
            final(self).is_root == old(self).is_root,
            final(self).sudo_ready == old(self).sudo_ready,
            final(self).veracrypt_fallback_noticed == old(self).veracrypt_fallback_noticed,
    {
        self.cleanup_mapper = Some(mapper_name);
    }

    /// Forgets the mapper to close.
    pub fn clear_cleanup_mapper(&mut self)
        ensures
            final(self).cleanup_mapper is None,
            final(self).output == old(self).output,
            final(self).tools == old(self).tools,
            final(self).is_root == old(self).is_root,
            final(self).sudo_ready == old(self).sudo_ready,
            final(self).veracrypt_fallback_noticed == old(self).veracrypt_fallback_noticed,
    {
        self.cleanup_mapper = None;
    }
}

} // verus!
