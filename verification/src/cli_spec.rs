//! What the command line means: the specification of argument parsing.

use vstd::prelude::*;
use crate::api::{CommandActionView, CreateCommandView, MountCommandView, UnmountCommandView};
use crate::model::{spec_cipher, spec_color_mode, spec_volume_type, ColorMode, CreateCipher, SourceKind, VolumeType};
use crate::paths::file_name;
use crate::text::{has_prefix, replace_from};

verus! {

/// What the file system says of a path named on the command line.
#[derive(Clone, Copy, Debug, PartialEq, Eq, Structural)]
pub enum LinkKind {
    /// The path itself (not followed) is a block device.
    Block,
    /// The path itself (not followed) is a regular file.
    File,
    /// The path exists and is something else (a symlink, a directory, ...).
    Other,
    /// Nothing exists at the path.
    Missing,
    /// The path could not be inspected.
    Unreadable,
}

/// The file-system facts about one command-line argument taken as a path.
#[derive(Clone, Debug)]
pub struct ArgFacts {
    /// The argument.
    pub arg: String,
    /// What `symlink_metadata` reports.
    pub link: LinkKind,
    /// The error text when `link` is `Unreadable`.
    pub link_error: String,
    /// What `metadata` (following links) reports: a block device, a regular file, or neither.
    pub kind: Option<SourceKind>,
    /// Whether the path is a directory (links followed).
    pub is_dir: bool,
}

/// The first facts recorded for a path.
pub open spec fn lookup_facts(facts: Seq<ArgFacts>, p: Seq<char>) -> Option<ArgFacts>
    decreases facts.len(),
{
    if facts.len() == 0 {
        None
    } else if facts[0].arg@ == p {
        Some(facts[0])
    } else {
        lookup_facts(facts.drop_first(), p)
    }
}

/// A refusal of the command line: the message, the exit code, whether help follows and where,
/// and the program name and color choice known when it was refused.
pub struct FailureView {
    pub message: Option<Seq<char>>,
    pub exit_code: i32,
    pub show_help: bool,
    pub help_to_stdout: bool,
    pub script_name: Seq<char>,
    pub color_mode: ColorMode,
}

/// What a command line asks for.
pub enum ParseView {
    /// Run an operation.
    Run { color_mode: ColorMode, command: CommandActionView },
    /// Show the help text.
    Help { script_name: Seq<char>, color_mode: ColorMode, to_stdout: bool },
    /// Refuse the command line.
    Fail(FailureView),
}

/// A refusal with exit code 1, no help and the given message.
pub open spec fn fail(message: Seq<char>, script: Seq<char>, color: ColorMode) -> FailureView {
    FailureView { message: Some(message), exit_code: 1, show_help: false, help_to_stdout: false, script_name: script, color_mode: color }
}

/// A refusal with exit code 1 that shows the help on stderr.
pub open spec fn fail_with_help(message: Seq<char>, script: Seq<char>, color: ColorMode) -> FailureView {
    FailureView { message: Some(message), exit_code: 1, show_help: true, help_to_stdout: false, script_name: script, color_mode: color }
}

/// The program name: the file name of the first argument (or the argument itself), `lurker`
/// when there is none.
pub open spec fn script_name_of(args: Seq<Seq<char>>) -> Seq<char> {
    if args.len() == 0 {
        "lurker"@
    } else {
        match file_name(args[0]) {
            Some(f) => f,
            None => args[0],
        }
    }
}

/// The options read before the action: color, type and cipher choices, and the remaining words.
pub struct ScanState {
    pub color_mode: ColorMode,
    pub volume_type: VolumeType,
    pub volume_type_explicit: bool,
    pub cipher: CreateCipher,
    pub cipher_explicit: bool,
    pub parsed: Seq<Seq<char>>,
}

pub open spec fn invalid_color(value: Seq<char>) -> Seq<char> {
    "Invalid --color value: "@ + value + ". Use auto, always, or never."@
}

pub open spec fn invalid_type(value: Seq<char>) -> Seq<char> {
    "Invalid --type value: "@ + value + ". Use auto, luks, or veracrypt."@
}

pub open spec fn invalid_cipher(value: Seq<char>) -> Seq<char> {
    "Invalid --cipher value: "@ + value + ". Use aes, serpent, or twofish."@
}

pub open spec fn with_color(st: ScanState, value: Seq<char>, script: Seq<char>) -> Result<ScanState, FailureView> {
    match spec_color_mode(value) {
        Some(c) => Ok(ScanState { color_mode: c, ..st }),
        None => Err(fail(invalid_color(value), script, st.color_mode)),
    }
}

pub open spec fn with_type(st: ScanState, value: Seq<char>, script: Seq<char>) -> Result<ScanState, FailureView> {
    match spec_volume_type(value) {
        Some(t) => Ok(ScanState { volume_type: t, volume_type_explicit: true, ..st }),
        None => Err(fail(invalid_type(value), script, st.color_mode)),
    }
}

pub open spec fn with_cipher(st: ScanState, value: Seq<char>, script: Seq<char>) -> Result<ScanState, FailureView> {
    match spec_cipher(value) {
        Some(c) => Ok(ScanState { cipher: c, cipher_explicit: true, ..st }),
        None => Err(fail(invalid_cipher(value), script, st.color_mode)),
    }
}

/// The first pass over the arguments from position `i` on: `--color`, `--type` and `--cipher`
/// (with a separate value or after `=`) set their choice, `--help` and `--force` become `-h` and
/// `-F`, `--` ends the options, any other `--word` is refused, and every other word is kept.
pub open spec fn scan(raw: Seq<Seq<char>>, i: int, st: ScanState, script: Seq<char>) -> Result<ScanState, FailureView>
    decreases raw.len() - i,
{
    if i < 0 || i >= raw.len() {
        Ok(st)
    } else {
        let cur = raw[i];
        if cur == "--color"@ {
            if i + 1 >= raw.len() {
                Err(fail("Option --color requires an argument."@, script, st.color_mode))
            } else {
                match with_color(st, raw[i + 1], script) {
                    Ok(next) => scan(raw, i + 2, next, script),
                    Err(f) => Err(f),
                }
            }
        } else if cur == "--type"@ {
            if i + 1 >= raw.len() {
                Err(fail("Option --type requires an argument."@, script, st.color_mode))
            } else {
                match with_type(st, raw[i + 1], script) {
                    Ok(next) => scan(raw, i + 2, next, script),
                    Err(f) => Err(f),
                }
            }
        } else if cur == "--cipher"@ {
            if i + 1 >= raw.len() {
                Err(fail("Option --cipher requires an argument."@, script, st.color_mode))
            } else {
                match with_cipher(st, raw[i + 1], script) {
                    Ok(next) => scan(raw, i + 2, next, script),
                    Err(f) => Err(f),
                }
            }
        } else if cur == "--help"@ {
            scan(raw, i + 1, ScanState { parsed: st.parsed.push("-h"@), ..st }, script)
        } else if cur == "--force"@ {
            scan(raw, i + 1, ScanState { parsed: st.parsed.push("-F"@), ..st }, script)
        } else if cur == "--"@ {
            Ok(ScanState { parsed: st.parsed + raw.skip(i + 1), ..st })
        } else if has_prefix(cur, "--color="@) {
            match with_color(st, cur.skip(8), script) {
                Ok(next) => scan(raw, i + 1, next, script),
                Err(f) => Err(f),
            }
        } else if has_prefix(cur, "--type="@) {
            match with_type(st, cur.skip(7), script) {
                Ok(next) => scan(raw, i + 1, next, script),
                Err(f) => Err(f),
            }
        } else if has_prefix(cur, "--cipher="@) {
            match with_cipher(st, cur.skip(9), script) {
                Ok(next) => scan(raw, i + 1, next, script),
                Err(f) => Err(f),
            }
        } else if has_prefix(cur, "--"@) {
            Err(fail_with_help("Unsupported argument chosen: "@ + cur, script, st.color_mode))
        } else {
            scan(raw, i + 1, ScanState { parsed: st.parsed.push(cur), ..st }, script)
        }
    }
}

/// The choices before any option is read.
pub open spec fn initial_scan() -> ScanState {
    ScanState {
        color_mode: ColorMode::Auto,
        volume_type: VolumeType::Auto,
        volume_type_explicit: false,
        cipher: CreateCipher::Aes,
        cipher_explicit: false,
        parsed: Seq::empty(),
    }
}

/// A usage refusal: the usage text with the program name in place of `lurker`.
pub open spec fn usage_fail(script: Seq<char>, color: ColorMode, message: Seq<char>) -> FailureView {
    fail(replace_from(message, "lurker"@, script, 0), script, color)
}

/// The refusal text for the removed `-f`, `-m` and `-s` operand flags.
pub open spec fn removed_flag_message(action: Seq<char>, script: Seq<char>) -> Seq<char> {
    if action == "create"@ {
        "Operand flags are no longer supported. Use: "@ + script
            + " create [--type TYPE] [--cipher CIPHER] <file> <size-gb> [-F|--force], "@ + script
            + " create [--type TYPE] [--cipher CIPHER] <block-device> [-F|--force], or "@ + script
            + " createvc ..."@
    } else if action == "mount"@ {
        "Operand flags are no longer supported. Use: "@ + script + " mount <source> <mountpoint>"@
    } else if action == "umount"@ {
        "Operand flags are no longer supported. Use: "@ + script + " umount <target>"@
    } else {
        "Unsupported argument chosen."@
    }
}

/// The flags and operands after the action.
pub struct ActionArgs {
    pub force: bool,
    pub tag: Option<Seq<char>>,
    pub operands: Seq<Seq<char>>,
}

/// The outcome of reading what follows the action.
pub enum FlagOutcome {
    Done(ActionArgs),
    Help,
    Fail(FailureView),
}

/// The second pass, over the words after the action from position `r` on: `-F` forces, `-t`
/// takes a non-empty tag, `-h` asks for help, `-f`, `-m` and `-s` are refused, `--` ends the
/// flags, any other `-word` is refused, and every other word is an operand.
pub open spec fn flags(parsed: Seq<Seq<char>>, r: int, acc: ActionArgs, action: Seq<char>, script: Seq<char>, color: ColorMode) -> FlagOutcome
    decreases parsed.len() - r,
{
    if r < 0 || r >= parsed.len() {
        FlagOutcome::Done(acc)
    } else {
        let cur = parsed[r];
        if cur == "-F"@ {
            flags(parsed, r + 1, ActionArgs { force: true, ..acc }, action, script, color)
        } else if cur == "-t"@ {
            if r + 1 >= parsed.len() {
                FlagOutcome::Fail(fail("Option -t requires an argument."@, script, color))
            } else if parsed[r + 1].len() == 0 {
                FlagOutcome::Fail(fail("Option -t requires a non-empty argument."@, script, color))
            } else {
                flags(parsed, r + 2, ActionArgs { tag: Some(parsed[r + 1]), ..acc }, action, script, color)
            }
        } else if cur == "-h"@ {
            FlagOutcome::Help
        } else if cur == "-f"@ || cur == "-m"@ || cur == "-s"@ {
            FlagOutcome::Fail(fail(removed_flag_message(action, script), script, color))
        } else if cur == "--"@ {
            FlagOutcome::Done(ActionArgs { operands: acc.operands + parsed.skip(r + 1), ..acc })
        } else if has_prefix(cur, "-"@) {
            FlagOutcome::Fail(fail_with_help("Unsupported argument chosen: "@ + cur, script, color))
        } else {
            flags(parsed, r + 1, ActionArgs { operands: acc.operands.push(cur), ..acc }, action, script, color)
        }
    }
}

pub open spec fn usage_create_any() -> Seq<char> {
    "Usage: lurker create [--type TYPE] [--cipher CIPHER] <file> <size-gb> [-F|--force] or lurker create [--type TYPE] [--cipher CIPHER] <block-device> [-F|--force]"@
}

pub open spec fn usage_create_block() -> Seq<char> {
    "Usage: lurker create [--type TYPE] [--cipher CIPHER] <block-device> [-F|--force]"@
}

pub open spec fn usage_create_file() -> Seq<char> {
    "Usage: lurker create [--type TYPE] [--cipher CIPHER] <file> <size-gb> [-F|--force]"@
}

pub open spec fn usage_mount() -> Seq<char> {
    "Usage: lurker mount [--type TYPE] [-t tag] <source> <mountpoint>"@
}

pub open spec fn usage_umount() -> Seq<char> {
    "Usage: lurker umount [--type TYPE] [-t tag] <target>"@
}

/// What a create target is: a block device or a regular file as it stands (links not
/// followed), a file to be made when nothing is there, refused otherwise.
pub open spec fn classify_target(f: ArgFacts, script: Seq<char>, color: ColorMode) -> Result<SourceKind, FailureView> {
    match f.link {
        LinkKind::Block => Ok(SourceKind::Block),
        LinkKind::File => Ok(SourceKind::File),
        LinkKind::Missing => Ok(SourceKind::File),
        LinkKind::Other => Err(fail("Target exists and is neither a regular file nor block device: "@ + f.arg@, script, color)),
        LinkKind::Unreadable => Err(fail("Failed to inspect target "@ + f.arg@ + ": "@ + f.link_error@, script, color)),
    }
}

/// What a create command line asks for, once its options and operands are read.
pub open spec fn create_outcome(st: ScanState, a: ActionArgs, volume_type: VolumeType, facts: Seq<ArgFacts>, script: Seq<char>) -> ParseView {
    let color = st.color_mode;
    if a.tag is Some {
        ParseView::Fail(fail("Option -t is only valid with mount or umount."@, script, color))
    } else if volume_type == VolumeType::Auto && st.volume_type_explicit {
        ParseView::Fail(fail("Option --type auto is not valid with create. Use luks or veracrypt."@, script, color))
    } else if a.operands.len() == 0 || a.operands.len() > 2 {
        ParseView::Fail(usage_fail(script, color, usage_create_any()))
    } else {
        let chosen_type = if volume_type == VolumeType::Auto { VolumeType::Luks } else { volume_type };
        let target = a.operands[0];
        match lookup_facts(facts, target) {
            None => ParseView::Fail(fail(Seq::empty(), script, color)),
            Some(f) => match classify_target(f, script, color) {
                Err(e) => ParseView::Fail(e),
                Ok(kind) => {
                    if kind == SourceKind::Block && a.operands.len() != 1 {
                        ParseView::Fail(usage_fail(script, color, usage_create_block()))
                    } else if kind == SourceKind::File && a.operands.len() != 2 {
                        ParseView::Fail(usage_fail(script, color, usage_create_file()))
                    } else {
                        ParseView::Run {
                            color_mode: color,
                            command: CommandActionView::Create(CreateCommandView {
                                target,
                                size_gb: if kind == SourceKind::File { Some(a.operands[1]) } else { None },
                                force: a.force,
                                source_kind: kind,
                                volume_type: chosen_type,
                                cipher: st.cipher,
                                passphrase: None,
                            }),
                        }
                    }
                },
            },
        }
    }
}

/// What a mount command line asks for, once its options and operands are read.
pub open spec fn mount_outcome(st: ScanState, a: ActionArgs, facts: Seq<ArgFacts>, script: Seq<char>) -> ParseView {
    let color = st.color_mode;
    if st.cipher_explicit {
        ParseView::Fail(fail("Option --cipher is only valid with create."@, script, color))
    } else if a.force {
        ParseView::Fail(fail("Option -F is only valid with create."@, script, color))
    } else if a.operands.len() != 2 {
        ParseView::Fail(usage_fail(script, color, usage_mount()))
    } else {
        let source = a.operands[0];
        let mountpoint = a.operands[1];
        match (lookup_facts(facts, source), lookup_facts(facts, mountpoint)) {
            (Some(sf), Some(mf)) => {
                if sf.kind is None {
                    ParseView::Fail(fail("Source does not exist or is not a regular file or block device: "@ + source, script, color))
                } else if !mf.is_dir {
                    ParseView::Fail(fail("Directory does not exist: "@ + mountpoint, script, color))
                } else {
                    ParseView::Run {
                        color_mode: color,
                        command: CommandActionView::Mount(MountCommandView {
                            source,
                            mountpoint,
                            tag: a.tag,
                            volume_type: st.volume_type,
                            passphrase: None,
                            readonly: false,
                        }),
                    }
                }
            },
            _ => ParseView::Fail(fail(Seq::empty(), script, color)),
        }
    }
}

/// What an unmount command line asks for, once its options and operands are read.
pub open spec fn umount_outcome(st: ScanState, a: ActionArgs, script: Seq<char>) -> ParseView {
    let color = st.color_mode;
    if st.cipher_explicit {
        ParseView::Fail(fail("Option --cipher is only valid with create."@, script, color))
    } else if a.force {
        ParseView::Fail(fail("Option -F is only valid with create."@, script, color))
    } else if a.operands.len() != 1 {
        ParseView::Fail(usage_fail(script, color, usage_umount()))
    } else {
        ParseView::Run {
            color_mode: color,
            command: CommandActionView::Unmount(UnmountCommandView { target: a.operands[0], tag: a.tag, volume_type: st.volume_type }),
        }
    }
}

/// The action named by the first word: `unmount` is `umount`, `createvc` is `create`.
pub open spec fn action_name(first: Seq<char>) -> Seq<char> {
    if first == "unmount"@ {
        "umount"@
    } else if first == "createvc"@ {
        "create"@
    } else {
        first
    }
}

/// Whether facts are recorded for a word.
pub open spec fn covered(facts: Seq<ArgFacts>, w: Seq<char>) -> bool {
    lookup_facts(facts, w) is Some
}

/// What the command line asks for once the options before the action are read.
pub open spec fn after_scan(st: ScanState, facts: Seq<ArgFacts>, script: Seq<char>) -> ParseView {
    let color = st.color_mode;
    if st.parsed.len() == 0 {
        ParseView::Fail(FailureView { message: None, exit_code: 2, show_help: true, help_to_stdout: false, script_name: script, color_mode: color })
    } else {
        let first = st.parsed[0];
        if first == "-h"@ || first == "help"@ {
            ParseView::Help { script_name: script, color_mode: color, to_stdout: true }
        } else if first == "-a"@ {
            ParseView::Fail(fail("The -a flag has been removed. Use: lurker <action> ..."@, script, color))
        } else if has_prefix(first, "-"@) {
            ParseView::Fail(fail_with_help("Action is required. Use: create, createvc, mount, or umount."@, script, color))
        } else if first == "createvc"@ && st.volume_type_explicit && st.volume_type != VolumeType::Veracrypt {
            ParseView::Fail(fail("Action createvc only supports --type veracrypt."@, script, color))
        } else {
            let action = action_name(first);
            let volume_type = if first == "createvc"@ { VolumeType::Veracrypt } else { st.volume_type };
            match flags(st.parsed, 1, ActionArgs { force: false, tag: None, operands: Seq::empty() }, action, script, color) {
                FlagOutcome::Help => ParseView::Help { script_name: script, color_mode: color, to_stdout: true },
                FlagOutcome::Fail(f) => ParseView::Fail(f),
                FlagOutcome::Done(a) => {
                    if action == "create"@ {
                        create_outcome(st, a, volume_type, facts, script)
                    } else if action == "mount"@ {
                        mount_outcome(st, a, facts, script)
                    } else if action == "umount"@ {
                        umount_outcome(st, a, script)
                    } else {
                        ParseView::Fail(fail_with_help("Action create, mount, or umount expected."@, script, color))
                    }
                },
            }
        }
    }
}

/// What a command line asks for: `args[0]` is the program, the rest are its arguments.
pub open spec fn spec_parse(args: Seq<Seq<char>>, facts: Seq<ArgFacts>) -> ParseView {
    let script = script_name_of(args);
    let raw = if args.len() == 0 { Seq::empty() } else { args.drop_first() };
    match scan(raw, 0, initial_scan(), script) {
        Err(f) => ParseView::Fail(f),
        Ok(st) => after_scan(st, facts, script),
    }
}


/// The options scan keeps the defaults it was not told to change: without an explicit
/// `--cipher` the cipher stays what it was (AES from the start), and without an explicit
/// `--type` the type stays what it was (auto from the start).
pub proof fn scan_keeps_unset_defaults(raw: Seq<Seq<char>>, i: int, st: ScanState, script: Seq<char>)
    ensures
        scan(raw, i, st, script) matches Ok(end) ==> {
            &&& !end.cipher_explicit ==> end.cipher == st.cipher
            &&& !end.volume_type_explicit ==> end.volume_type == st.volume_type
            &&& st.cipher_explicit ==> end.cipher_explicit
            &&& st.volume_type_explicit ==> end.volume_type_explicit
        },
    decreases raw.len() - i,
{
    if 0 <= i < raw.len() {
        let cur = raw[i];
        if cur == "--color"@ {
            if i + 1 < raw.len() {
                if let Ok(next) = with_color(st, raw[i + 1], script) {
                    scan_keeps_unset_defaults(raw, i + 2, next, script);
                }
            }
        } else if cur == "--type"@ {
            if i + 1 < raw.len() {
                if let Ok(next) = with_type(st, raw[i + 1], script) {
                    scan_keeps_unset_defaults(raw, i + 2, next, script);
                }
            }
        } else if cur == "--cipher"@ {
            if i + 1 < raw.len() {
                if let Ok(next) = with_cipher(st, raw[i + 1], script) {
                    scan_keeps_unset_defaults(raw, i + 2, next, script);
                }
            }
        } else if cur == "--help"@ {
            scan_keeps_unset_defaults(raw, i + 1, ScanState { parsed: st.parsed.push("-h"@), ..st }, script);
        } else if cur == "--force"@ {
            scan_keeps_unset_defaults(raw, i + 1, ScanState { parsed: st.parsed.push("-F"@), ..st }, script);
        } else if cur == "--"@ {
        } else if has_prefix(cur, "--color="@) {
            if let Ok(next) = with_color(st, cur.skip(8), script) {
                scan_keeps_unset_defaults(raw, i + 1, next, script);
            }
        } else if has_prefix(cur, "--type="@) {
            if let Ok(next) = with_type(st, cur.skip(7), script) {
                scan_keeps_unset_defaults(raw, i + 1, next, script);
            }
        } else if has_prefix(cur, "--cipher="@) {
            if let Ok(next) = with_cipher(st, cur.skip(9), script) {
                scan_keeps_unset_defaults(raw, i + 1, next, script);
            }
        } else if has_prefix(cur, "--"@) {
        } else {
            scan_keeps_unset_defaults(raw, i + 1, ScanState { parsed: st.parsed.push(cur), ..st }, script);
        }
    }
}

/// `create` makes a LUKS volume unless another type is given, with the cipher the options chose.
pub proof fn create_defaults_to_luks(st: ScanState, a: ActionArgs, facts: Seq<ArgFacts>, script: Seq<char>)
    ensures
        create_outcome(st, a, VolumeType::Auto, facts, script) matches ParseView::Run { command: CommandActionView::Create(c), .. }
            ==> c.volume_type == VolumeType::Luks && c.cipher == st.cipher,
{
}

/// A word that does not start with `-` neither equals nor begins with what does.
proof fn lemma_no_dash_prefix(w: Seq<char>, p: Seq<char>)
    requires
        w.len() > 0,
        w[0] != '-',
        p.len() > 0,
        p[0] == '-',
    ensures
        !has_prefix(w, p),
        w != p,
{
    if p.len() <= w.len() {
        assert(w.subrange(0, p.len() as int)[0] == w[0]);
    }
}

/// A word that does not start with `-` is neither an option nor a flag.
proof fn lemma_plain_word(w: Seq<char>)
    requires
        w.len() > 0,
        w[0] != '-',
    ensures
        w != "--color"@, w != "--type"@, w != "--cipher"@, w != "--help"@, w != "--force"@, w != "--"@,
        !has_prefix(w, "--color="@), !has_prefix(w, "--type="@), !has_prefix(w, "--cipher="@), !has_prefix(w, "--"@),
        !has_prefix(w, "-"@), w != "-h"@, w != "-a"@, w != "-F"@, w != "-t"@, w != "-f"@, w != "-m"@, w != "-s"@,
{
    reveal_strlit("--color");
    lemma_no_dash_prefix(w, "--color"@);
    reveal_strlit("--type");
    lemma_no_dash_prefix(w, "--type"@);
    reveal_strlit("--cipher");
    lemma_no_dash_prefix(w, "--cipher"@);
    reveal_strlit("--help");
    lemma_no_dash_prefix(w, "--help"@);
    reveal_strlit("--force");
    lemma_no_dash_prefix(w, "--force"@);
    reveal_strlit("--");
    lemma_no_dash_prefix(w, "--"@);
    reveal_strlit("--color=");
    lemma_no_dash_prefix(w, "--color="@);
    reveal_strlit("--type=");
    lemma_no_dash_prefix(w, "--type="@);
    reveal_strlit("--cipher=");
    lemma_no_dash_prefix(w, "--cipher="@);
    reveal_strlit("-");
    lemma_no_dash_prefix(w, "-"@);
    reveal_strlit("-h");
    lemma_no_dash_prefix(w, "-h"@);
    reveal_strlit("-a");
    lemma_no_dash_prefix(w, "-a"@);
    reveal_strlit("-F");
    lemma_no_dash_prefix(w, "-F"@);
    reveal_strlit("-t");
    lemma_no_dash_prefix(w, "-t"@);
    reveal_strlit("-f");
    lemma_no_dash_prefix(w, "-f"@);
    reveal_strlit("-m");
    lemma_no_dash_prefix(w, "-m"@);
    reveal_strlit("-s");
    lemma_no_dash_prefix(w, "-s"@);
}

/// Two option scans that differ only in their first word, from a later position on: the
/// first word is kept where it was, and everything else comes out the same.
pub open spec fn same_but_first(a: Seq<Seq<char>>, b: Seq<Seq<char>>) -> bool {
    &&& a.len() == b.len()
    &&& a.len() >= 1
    &&& forall|j: int| 1 <= j < a.len() ==> #[trigger] a[j] == b[j]
}

/// A scan's result with `front` put before the words it kept.
pub open spec fn with_front(front: Seq<Seq<char>>, r: Result<ScanState, FailureView>) -> Result<ScanState, FailureView> {
    match r {
        Err(f) => Err(f),
        Ok(y) => Ok(ScanState { parsed: front + y.parsed, ..y }),
    }
}

/// Putting `e` in front and then `a` is putting `a + e` in front.
proof fn lemma_front_assoc(a: Seq<Seq<char>>, e: Seq<Seq<char>>, r: Result<ScanState, FailureView>)
    ensures
        with_front(a, with_front(e, r)) == with_front(a + e, r),
{
    if let Ok(y) = r {
        assert((a + e) + y.parsed =~= a + (e + y.parsed));
    }
}

/// A scan from a position past the first word does not read the first word.
#[verifier::rlimit(100)]
#[verifier::spinoff_prover]
proof fn lemma_scan_ignores_first_word(ra: Seq<Seq<char>>, rb: Seq<Seq<char>>, i: int, st: ScanState, script: Seq<char>)
    requires
        1 <= i,
        same_but_first(ra, rb),
    ensures
        scan(ra, i, st, script) == scan(rb, i, st, script),
    decreases ra.len() - i,
{
    if 0 <= i < ra.len() {
        let cur = ra[i];
        assert(rb[i] == cur);
        if i + 1 < ra.len() {
            assert(rb[i + 1] == ra[i + 1]);
        }
        if cur == "--color"@ {
            if i + 1 < ra.len() {
                if let Ok(n) = with_color(st, ra[i + 1], script) {
                    lemma_scan_ignores_first_word(ra, rb, i + 2, n, script);
                }
            }
        } else if cur == "--type"@ {
            if i + 1 < ra.len() {
                if let Ok(n) = with_type(st, ra[i + 1], script) {
                    lemma_scan_ignores_first_word(ra, rb, i + 2, n, script);
                }
            }
        } else if cur == "--cipher"@ {
            if i + 1 < ra.len() {
                if let Ok(n) = with_cipher(st, ra[i + 1], script) {
                    lemma_scan_ignores_first_word(ra, rb, i + 2, n, script);
                }
            }
        } else if cur == "--help"@ {
            lemma_scan_ignores_first_word(ra, rb, i + 1, ScanState { parsed: st.parsed.push("-h"@), ..st }, script);
        } else if cur == "--force"@ {
            lemma_scan_ignores_first_word(ra, rb, i + 1, ScanState { parsed: st.parsed.push("-F"@), ..st }, script);
        } else if cur == "--"@ {
            assert(ra.skip(i + 1) =~= rb.skip(i + 1));
        } else if has_prefix(cur, "--color="@) {
            if let Ok(n) = with_color(st, cur.skip(8), script) {
                lemma_scan_ignores_first_word(ra, rb, i + 1, n, script);
            }
        } else if has_prefix(cur, "--type="@) {
            if let Ok(n) = with_type(st, cur.skip(7), script) {
                lemma_scan_ignores_first_word(ra, rb, i + 1, n, script);
            }
        } else if has_prefix(cur, "--cipher="@) {
            if let Ok(n) = with_cipher(st, cur.skip(9), script) {
                lemma_scan_ignores_first_word(ra, rb, i + 1, n, script);
            }
        } else if has_prefix(cur, "--"@) {
        } else {
            lemma_scan_ignores_first_word(ra, rb, i + 1, ScanState { parsed: st.parsed.push(cur), ..st }, script);
        }
    }
}

/// The words a scan has already kept only stand in front of what it keeps next: scanning with
/// them gives the scan without them, with them put back in front.
#[verifier::rlimit(100)]
#[verifier::spinoff_prover]
proof fn lemma_scan_keeps_what_was_read(raw: Seq<Seq<char>>, i: int, st: ScanState, script: Seq<char>)
    ensures
        scan(raw, i, st, script) == with_front(st.parsed, scan(raw, i, ScanState { parsed: Seq::empty(), ..st }, script)),
    decreases raw.len() - i,
{
    broadcast use vstd::seq_lib::group_seq_properties;
    assert(st.parsed + Seq::<Seq<char>>::empty() =~= st.parsed);
    if 0 <= i < raw.len() {
        let cur = raw[i];
        if cur == "--color"@ {
            if i + 1 < raw.len() {
                if let Ok(n) = with_color(st, raw[i + 1], script) {
                    {
                let next = n;
                let e = next.parsed.skip(st.parsed.len() as int);
                assert(next.parsed =~= st.parsed + e);
                lemma_scan_keeps_what_was_read(raw, i + 2, next, script);
                lemma_scan_keeps_what_was_read(raw, i + 2, ScanState { parsed: e, ..next }, script);
                lemma_front_assoc(st.parsed, e, scan(raw, i + 2, ScanState { parsed: Seq::empty(), ..next }, script));
            }
                }
            }
        } else if cur == "--type"@ {
            if i + 1 < raw.len() {
                if let Ok(n) = with_type(st, raw[i + 1], script) {
                    {
                let next = n;
                let e = next.parsed.skip(st.parsed.len() as int);
                assert(next.parsed =~= st.parsed + e);
                lemma_scan_keeps_what_was_read(raw, i + 2, next, script);
                lemma_scan_keeps_what_was_read(raw, i + 2, ScanState { parsed: e, ..next }, script);
                lemma_front_assoc(st.parsed, e, scan(raw, i + 2, ScanState { parsed: Seq::empty(), ..next }, script));
            }
                }
            }
        } else if cur == "--cipher"@ {
            if i + 1 < raw.len() {
                if let Ok(n) = with_cipher(st, raw[i + 1], script) {
                    {
                let next = n;
                let e = next.parsed.skip(st.parsed.len() as int);
                assert(next.parsed =~= st.parsed + e);
                lemma_scan_keeps_what_was_read(raw, i + 2, next, script);
                lemma_scan_keeps_what_was_read(raw, i + 2, ScanState { parsed: e, ..next }, script);
                lemma_front_assoc(st.parsed, e, scan(raw, i + 2, ScanState { parsed: Seq::empty(), ..next }, script));
            }
                }
            }
        } else if cur == "--help"@ {
            {
                let next = ScanState { parsed: st.parsed.push("-h"@), ..st };
                let e = next.parsed.skip(st.parsed.len() as int);
                assert(next.parsed =~= st.parsed + e);
                lemma_scan_keeps_what_was_read(raw, i + 1, next, script);
                lemma_scan_keeps_what_was_read(raw, i + 1, ScanState { parsed: e, ..next }, script);
                lemma_front_assoc(st.parsed, e, scan(raw, i + 1, ScanState { parsed: Seq::empty(), ..next }, script));
            }
        } else if cur == "--force"@ {
            {
                let next = ScanState { parsed: st.parsed.push("-F"@), ..st };
                let e = next.parsed.skip(st.parsed.len() as int);
                assert(next.parsed =~= st.parsed + e);
                lemma_scan_keeps_what_was_read(raw, i + 1, next, script);
                lemma_scan_keeps_what_was_read(raw, i + 1, ScanState { parsed: e, ..next }, script);
                lemma_front_assoc(st.parsed, e, scan(raw, i + 1, ScanState { parsed: Seq::empty(), ..next }, script));
            }
        } else if cur == "--"@ {
            assert(st.parsed + raw.skip(i + 1) =~= st.parsed + (Seq::<Seq<char>>::empty() + raw.skip(i + 1)));
        } else if has_prefix(cur, "--color="@) {
            if let Ok(n) = with_color(st, cur.skip(8), script) {
                {
                let next = n;
                let e = next.parsed.skip(st.parsed.len() as int);
                assert(next.parsed =~= st.parsed + e);
                lemma_scan_keeps_what_was_read(raw, i + 1, next, script);
                lemma_scan_keeps_what_was_read(raw, i + 1, ScanState { parsed: e, ..next }, script);
                lemma_front_assoc(st.parsed, e, scan(raw, i + 1, ScanState { parsed: Seq::empty(), ..next }, script));
            }
            }
        } else if has_prefix(cur, "--type="@) {
            if let Ok(n) = with_type(st, cur.skip(7), script) {
                {
                let next = n;
                let e = next.parsed.skip(st.parsed.len() as int);
                assert(next.parsed =~= st.parsed + e);
                lemma_scan_keeps_what_was_read(raw, i + 1, next, script);
                lemma_scan_keeps_what_was_read(raw, i + 1, ScanState { parsed: e, ..next }, script);
                lemma_front_assoc(st.parsed, e, scan(raw, i + 1, ScanState { parsed: Seq::empty(), ..next }, script));
            }
            }
        } else if has_prefix(cur, "--cipher="@) {
            if let Ok(n) = with_cipher(st, cur.skip(9), script) {
                {
                let next = n;
                let e = next.parsed.skip(st.parsed.len() as int);
                assert(next.parsed =~= st.parsed + e);
                lemma_scan_keeps_what_was_read(raw, i + 1, next, script);
                lemma_scan_keeps_what_was_read(raw, i + 1, ScanState { parsed: e, ..next }, script);
                lemma_front_assoc(st.parsed, e, scan(raw, i + 1, ScanState { parsed: Seq::empty(), ..next }, script));
            }
            }
        } else if has_prefix(cur, "--"@) {
        } else {
            {
                let next = ScanState { parsed: st.parsed.push(cur), ..st };
                let e = next.parsed.skip(st.parsed.len() as int);
                assert(next.parsed =~= st.parsed + e);
                lemma_scan_keeps_what_was_read(raw, i + 1, next, script);
                lemma_scan_keeps_what_was_read(raw, i + 1, ScanState { parsed: e, ..next }, script);
                lemma_front_assoc(st.parsed, e, scan(raw, i + 1, ScanState { parsed: Seq::empty(), ..next }, script));
            }
        }
    }
}

/// Reading the flags after the action never looks at the action word itself.
proof fn lemma_flags_same_but_first(pa: Seq<Seq<char>>, pb: Seq<Seq<char>>, r: int, acc: ActionArgs, action: Seq<char>,
    script: Seq<char>, color: ColorMode)
    requires
        1 <= r,
        same_but_first(pa, pb),
    ensures
        flags(pa, r, acc, action, script, color) == flags(pb, r, acc, action, script, color),
    decreases pa.len() - r,
{
    if r < pa.len() {
        assert(pa[r] == pb[r]);
        if r + 1 < pa.len() {
            assert(pa[r + 1] == pb[r + 1]);
        }
        assert(pa.skip(r + 1) =~= pb.skip(r + 1));
        let cur = pa[r];
        if cur == "-F"@ {
            lemma_flags_same_but_first(pa, pb, r + 1, ActionArgs { force: true, ..acc }, action, script, color);
        } else if cur == "-t"@ {
            if r + 1 < pa.len() && pa[r + 1].len() != 0 {
                lemma_flags_same_but_first(pa, pb, r + 2, ActionArgs { tag: Some(pa[r + 1]), ..acc }, action, script, color);
            }
        } else if cur == "-h"@ || cur == "-f"@ || cur == "-m"@ || cur == "-s"@ || cur == "--"@ || has_prefix(cur, "-"@) {
        } else {
            lemma_flags_same_but_first(pa, pb, r + 1, ActionArgs { operands: acc.operands.push(cur), ..acc }, action, script, color);
        }
    }
}

/// `unmount` is another name for `umount`: whatever follows, the command line means the
/// same with either word as the action.
pub proof fn unmount_is_umount(program: Seq<char>, rest: Seq<Seq<char>>, facts: Seq<ArgFacts>)
    ensures
        spec_parse(seq![program, "unmount"@] + rest, facts) == spec_parse(seq![program, "umount"@] + rest, facts),
{
    reveal_strlit("unmount");
    reveal_strlit("umount");
    reveal_strlit("createvc");
    reveal_strlit("create");
    reveal_strlit("mount");
    reveal_strlit("help");
    let args_a = seq![program, "unmount"@] + rest;
    let args_b = seq![program, "umount"@] + rest;
    let ra = args_a.drop_first();
    let rb = args_b.drop_first();
    assert(ra[0] == "unmount"@);
    assert(rb[0] == "umount"@);
    assert(args_a[0] == program && args_b[0] == program);
    assert(script_name_of(args_a) == script_name_of(args_b));
    let script = script_name_of(args_a);
    lemma_plain_word("unmount"@);
    lemma_plain_word("umount"@);
    let sa = ScanState { parsed: seq!["unmount"@], ..initial_scan() };
    let sb = ScanState { parsed: seq!["umount"@], ..initial_scan() };
    assert(initial_scan().parsed.push("unmount"@) =~= sa.parsed);
    assert(initial_scan().parsed.push("umount"@) =~= sb.parsed);
    assert(scan(ra, 0, initial_scan(), script) == scan(ra, 1, sa, script));
    assert(scan(rb, 0, initial_scan(), script) == scan(rb, 1, sb, script));
    assert forall|j: int| 1 <= j < ra.len() implies #[trigger] ra[j] == rb[j] by {
        assert(ra[j] == rest[j - 1]);
        assert(rb[j] == rest[j - 1]);
    }
    assert(same_but_first(ra, rb));
    let empty = ScanState { parsed: Seq::empty(), ..initial_scan() };
    assert(ScanState { parsed: Seq::empty(), ..sa } == empty);
    assert(ScanState { parsed: Seq::empty(), ..sb } == empty);
    lemma_scan_keeps_what_was_read(ra, 1, sa, script);
    lemma_scan_keeps_what_was_read(rb, 1, sb, script);
    lemma_scan_ignores_first_word(ra, rb, 1, empty, script);
    if let Ok(y) = scan(ra, 1, empty, script) {
        let xa = ScanState { parsed: sa.parsed + y.parsed, ..y };
        let xb = ScanState { parsed: sb.parsed + y.parsed, ..y };
        assert(xa.parsed[0] == "unmount"@);
        assert(xb.parsed[0] == "umount"@);
        assert forall|j: int| 1 <= j < xa.parsed.len() implies #[trigger] xa.parsed[j] == xb.parsed[j] by {
            assert(xa.parsed[j] == y.parsed[j - 1]);
            assert(xb.parsed[j] == y.parsed[j - 1]);
        }
        assert(same_but_first(xa.parsed, xb.parsed));
        assert(action_name(xa.parsed[0]) == "umount"@);
        assert(action_name(xb.parsed[0]) == "umount"@);
        lemma_flags_same_but_first(xa.parsed, xb.parsed, 1, ActionArgs { force: false, tag: None, operands: Seq::empty() },
            "umount"@, script, xa.color_mode);
        assert(after_scan(xa, facts, script) == after_scan(xb, facts, script));
    }
}

/// `lurker unmount <target>`, with a target that is not an option, asks to unmount that
/// target with no tag and the volume type detected.
pub proof fn unmount_of_one_target(program: Seq<char>, target: Seq<char>, facts: Seq<ArgFacts>)
    requires
        target.len() > 0,
        target[0] != '-',
    ensures
        spec_parse(seq![program, "unmount"@, target], facts) == (ParseView::Run {
            color_mode: ColorMode::Auto,
            command: CommandActionView::Unmount(UnmountCommandView { target, tag: None, volume_type: VolumeType::Auto }),
        }),
{
    reveal_strlit("unmount");
    reveal_strlit("umount");
    reveal_strlit("createvc");
    reveal_strlit("create");
    reveal_strlit("mount");
    reveal_strlit("help");
    let args = seq![program, "unmount"@, target];
    let raw = args.drop_first();
    assert(raw =~= seq!["unmount"@, target]);
    let script = script_name_of(args);
    lemma_plain_word("unmount"@);
    lemma_plain_word(target);
    let s1 = ScanState { parsed: seq!["unmount"@], ..initial_scan() };
    let s2 = ScanState { parsed: seq!["unmount"@, target], ..initial_scan() };
    assert(initial_scan().parsed.push("unmount"@) =~= s1.parsed);
    assert(s1.parsed.push(target) =~= s2.parsed);
    assert(scan(raw, 0, initial_scan(), script) == scan(raw, 1, s1, script));
    assert(scan(raw, 1, s1, script) == scan(raw, 2, s2, script));
    assert(scan(raw, 0, initial_scan(), script) == Ok::<ScanState, FailureView>(s2));
    let empty = ActionArgs { force: false, tag: None, operands: Seq::empty() };
    let one = ActionArgs { force: false, tag: None, operands: seq![target] };
    assert(empty.operands.push(target) =~= one.operands);
    assert(s2.parsed[0] == "unmount"@ && s2.parsed[1] == target && s2.parsed.len() == 2);
    assert(flags(s2.parsed, 1, empty, "umount"@, script, ColorMode::Auto) == flags(s2.parsed, 2, one, "umount"@, script, ColorMode::Auto));
    assert(flags(s2.parsed, 2, one, "umount"@, script, ColorMode::Auto) == FlagOutcome::Done(one));
    assert(action_name(s2.parsed[0]) == "umount"@);
    assert("unmount"@.len() != "help"@.len() && "unmount"@.len() != "createvc"@.len());
    assert("umount"@[0] != "create"@[0] && "umount"@.len() != "mount"@.len());
    assert(after_scan(s2, facts, script) == umount_outcome(s2, one, script));
    assert(spec_parse(args, facts) == after_scan(s2, facts, script));
}

} // verus!
