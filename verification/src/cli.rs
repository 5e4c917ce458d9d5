//! Parsing of the `lurker` command line into a request, a help request or a refusal.

use vstd::prelude::*;
use crate::api::{opt_text, CommandAction, CreateCommand, MountCommand, UnmountCommand};
use crate::cli_spec::{
    action_name, after_scan, covered, create_outcome, fail, fail_with_help, flags, initial_scan, invalid_cipher,
    invalid_color, invalid_type, lookup_facts, mount_outcome, removed_flag_message, scan, script_name_of,
    spec_parse, umount_outcome, usage_fail, ActionArgs, ArgFacts, FailureView, FlagOutcome, ParseView, ScanState,
};
use crate::model::{ColorMode, CreateCipher, SourceKind, VolumeType};
use crate::paths::path_file_name;
use crate::text::{char_vec, chars_skip, concat2, concat3, owned, push_str, replace_all, str_eq, str_starts_with, string_from_chars};

verus! {

broadcast use vstd::string::group_string_axioms;

/// A request to run an operation, with the color choice for its output.
#[derive(Debug)]
pub struct Cli {
    pub color_mode: ColorMode,
    pub command: CommandAction,
}

/// What a valid command line asks for.
#[derive(Debug)]
pub enum ParseOutcome {
    Run(Cli),
    Help(HelpRequest),
}

/// A request for the help text.
#[derive(Debug)]
pub struct HelpRequest {
    pub script_name: String,
    pub color_mode: ColorMode,
    pub to_stdout: bool,
}

/// A refused command line.
#[derive(Debug)]
pub struct ParseFailure {
    pub message: Option<String>,
    pub exit_code: i32,
    pub show_help: bool,
    pub help_to_stdout: bool,
    pub script_name: String,
    pub color_mode: ColorMode,
}

/// The refusal that a failure describes.
pub open spec fn failure_view(f: ParseFailure) -> FailureView {
    FailureView {
        message: opt_text(f.message),
        exit_code: f.exit_code,
        show_help: f.show_help,
        help_to_stdout: f.help_to_stdout,
        script_name: f.script_name@,
        color_mode: f.color_mode,
    }
}

/// What a parse result means.
pub open spec fn parse_view(r: Result<ParseOutcome, ParseFailure>) -> ParseView {
    match r {
        Ok(ParseOutcome::Run(cli)) => ParseView::Run { color_mode: cli.color_mode, command: cli.command@ },
        Ok(ParseOutcome::Help(h)) => ParseView::Help { script_name: h.script_name@, color_mode: h.color_mode, to_stdout: h.to_stdout },
        Err(f) => ParseView::Fail(failure_view(f)),
    }
}

/// The texts of a list of strings.
pub open spec fn strings_view(v: Seq<String>) -> Seq<Seq<char>> {
    v.map_values(|s: String| s@)
}

fn failure(message: String, script: &String, color: ColorMode) -> (r: ParseFailure)
    ensures
        failure_view(r) == fail(message@, script@, color),
{
    ParseFailure { message: Some(message), exit_code: 1, show_help: false, help_to_stdout: false, script_name: script.clone(), color_mode: color }
}

fn failure_with_help(message: String, script: &String, color: ColorMode) -> (r: ParseFailure)
    ensures
        failure_view(r) == fail_with_help(message@, script@, color),
{
    ParseFailure { message: Some(message), exit_code: 1, show_help: true, help_to_stdout: false, script_name: script.clone(), color_mode: color }
}

/// A usage refusal: the usage text with the program name in place of `lurker`.
pub fn usage_failure(script_name: &str, color_mode: ColorMode, message: &str) -> (r: ParseFailure)
    ensures
        failure_view(r) == usage_fail(script_name@, color_mode, message@),
{
    proof { reveal_strlit("lurker"); }
    let text = replace_all(message, "lurker", script_name);
    ParseFailure { message: Some(text), exit_code: 1, show_help: false, help_to_stdout: false, script_name: owned(script_name), color_mode }
}

/// The refusal text for the removed operand flags of an action.
pub fn reject_removed_operand_flag(action: &str, script_name: &str) -> (r: String)
    ensures
        r@ == removed_flag_message(action@, script_name@),
{
    if str_eq(action, "create") {
        let mut s = owned("Operand flags are no longer supported. Use: ");
        push_str(&mut s, script_name);
        push_str(&mut s, " create [--type TYPE] [--cipher CIPHER] <file> <size-gb> [-F|--force], ");
        push_str(&mut s, script_name);
        push_str(&mut s, " create [--type TYPE] [--cipher CIPHER] <block-device> [-F|--force], or ");
        push_str(&mut s, script_name);
        push_str(&mut s, " createvc ...");
        s
    } else if str_eq(action, "mount") {
        concat3("Operand flags are no longer supported. Use: ", script_name, " mount <source> <mountpoint>")
    } else if str_eq(action, "umount") {
        concat3("Operand flags are no longer supported. Use: ", script_name, " umount <target>")
    } else {
        owned("Unsupported argument chosen.")
    }
}

/// The facts recorded first for a word.
fn lookup<'a>(facts: &'a Vec<ArgFacts>, w: &str) -> (r: Option<&'a ArgFacts>)
    ensures
        match r {
            Some(f) => lookup_facts(facts@, w@) == Some(*f),
            None => lookup_facts(facts@, w@) is None,
        },
{
    let mut k: usize = 0;
    assert(facts@.skip(0) =~= facts@);
    while k < facts.len()
        invariant
            k <= facts.len(),
            lookup_facts(facts@, w@) == lookup_facts(facts@.skip(k as int), w@),
        decreases facts.len() - k,
    {
        assert(facts@.skip(k as int)[0] == facts@[k as int]);
        assert(facts@.skip(k as int).drop_first() =~= facts@.skip(k + 1));
        if str_eq(facts[k].arg.as_str(), w) {
            return Some(&facts[k]);
        }
        k = k + 1;
    }
    None
}

fn script_name_from(args: &Vec<String>) -> (r: String)
    ensures
        r@ == script_name_of(strings_view(args@)),
{
    if args.len() == 0 {
        return owned("lurker");
    }
    let first = args[0].as_str();
    match path_file_name(first) {
        Some(f) => string_from_chars(&f),
        None => args[0].clone(),
    }
}

fn parse_color(value: &str, color_mode: ColorMode, script_name: &String) -> (r: Result<ColorMode, ParseFailure>)
    ensures
        match r {
            Ok(c) => spec_color_mode_is(value@, c),
            Err(f) => crate::model::spec_color_mode(value@) is None && failure_view(f) == fail(invalid_color(value@), script_name@, color_mode),
        },
{
    match ColorMode::parse(value) {
        Some(c) => Ok(c),
        None => {
            let mut m = owned("Invalid --color value: ");
            push_str(&mut m, value);
            push_str(&mut m, ". Use auto, always, or never.");
            Err(failure(m, script_name, color_mode))
        },
    }
}

pub open spec fn spec_color_mode_is(value: Seq<char>, c: ColorMode) -> bool {
    crate::model::spec_color_mode(value) == Some(c)
}

fn parse_volume_type(value: &str, color_mode: ColorMode, script_name: &String) -> (r: Result<VolumeType, ParseFailure>)
    ensures
        match r {
            Ok(t) => crate::model::spec_volume_type(value@) == Some(t),
            Err(f) => crate::model::spec_volume_type(value@) is None && failure_view(f) == fail(invalid_type(value@), script_name@, color_mode),
        },
{
    match VolumeType::parse(value) {
        Some(t) => Ok(t),
        None => {
            let mut m = owned("Invalid --type value: ");
            push_str(&mut m, value);
            push_str(&mut m, ". Use auto, luks, or veracrypt.");
            Err(failure(m, script_name, color_mode))
        },
    }
}

fn parse_create_cipher(value: &str, color_mode: ColorMode, script_name: &String) -> (r: Result<CreateCipher, ParseFailure>)
    ensures
        match r {
            Ok(c) => crate::model::spec_cipher(value@) == Some(c),
            Err(f) => crate::model::spec_cipher(value@) is None && failure_view(f) == fail(invalid_cipher(value@), script_name@, color_mode),
        },
{
    match CreateCipher::parse(value) {
        Some(c) => Ok(c),
        None => {
            let mut m = owned("Invalid --cipher value: ");
            push_str(&mut m, value);
            push_str(&mut m, ". Use aes, serpent, or twofish.");
            Err(failure(m, script_name, color_mode))
        },
    }
}

fn tail_after(value: &str, n: usize) -> (r: String)
    requires
        n <= value@.len(),
    ensures
        r@ == value@.skip(n as int),
{
    let v = char_vec(value);
    let t = chars_skip(&v, n);
    string_from_chars(&t)
}

/// Parses the command line `args` (`args[0]` is the program). `facts` says what the file system
/// holds at each argument and at the words `-h` and `-F`.
#[verifier::loop_isolation(false)]
#[verifier::rlimit(100)]
pub fn parse_env_args(args: &Vec<String>, facts: &Vec<ArgFacts>) -> (r: Result<ParseOutcome, ParseFailure>)
    requires
        forall|i: int| 1 <= i < args@.len() ==> covered(facts@, #[trigger] args@[i]@),
        covered(facts@, "-h"@),
        covered(facts@, "-F"@),
    ensures
        parse_view(r) == spec_parse(strings_view(args@), facts@),
{
    let script = script_name_from(args);
    let ghost all = strings_view(args@);
    let ghost raw: Seq<Seq<char>> = if all.len() == 0 { Seq::empty() } else { all.drop_first() };
    proof {
        reveal_strlit("--color=");
        reveal_strlit("--type=");
        reveal_strlit("--cipher=");
    }
    let mut color = ColorMode::Auto;
    let mut vt = VolumeType::Auto;
    let mut vt_exp = false;
    let mut cipher = CreateCipher::Aes;
    let mut c_exp = false;
    let mut parsed: Vec<String> = Vec::new();
    let mut i: usize = 0;
    assert(raw.len() == if args@.len() == 0 { 0 } else { args@.len() - 1 });
    assert(strings_view(parsed@) =~= Seq::<Seq<char>>::empty());
    while i + 1 < args.len()
        invariant
            i <= raw.len(),
            forall|k: int| 0 <= k < raw.len() ==> #[trigger] raw[k] == args@[k + 1]@,
            forall|k: int| 0 <= k < parsed@.len() ==> covered(facts@, #[trigger] parsed@[k]@),
            scan(raw, 0, initial_scan(), script@) == scan(raw, i as int, ScanState {
                color_mode: color, volume_type: vt, volume_type_explicit: vt_exp, cipher, cipher_explicit: c_exp,
                parsed: strings_view(parsed@),
            }, script@),
        decreases args.len() - i,
    {
        let ghost st = ScanState { color_mode: color, volume_type: vt, volume_type_explicit: vt_exp, cipher, cipher_explicit: c_exp, parsed: strings_view(parsed@) };
        let cur = args[i + 1].as_str();
        assert(raw[i as int] == cur@);
        if str_eq(cur, "--color") {
            if i + 2 >= args.len() {
                return Err(failure(owned("Option --color requires an argument."), &script, color));
            }
            assert(raw[i + 1] == args@[i + 2]@);
            color = match parse_color(args[i + 2].as_str(), color, &script) {
                Ok(c) => c,
                Err(f) => return Err(f),
            };
            i = i + 2;
        } else if str_eq(cur, "--type") {
            if i + 2 >= args.len() {
                return Err(failure(owned("Option --type requires an argument."), &script, color));
            }
            assert(raw[i + 1] == args@[i + 2]@);
            vt = match parse_volume_type(args[i + 2].as_str(), color, &script) {
                Ok(t) => t,
                Err(f) => return Err(f),
            };
            vt_exp = true;
            i = i + 2;
        } else if str_eq(cur, "--cipher") {
            if i + 2 >= args.len() {
                return Err(failure(owned("Option --cipher requires an argument."), &script, color));
            }
            assert(raw[i + 1] == args@[i + 2]@);
            cipher = match parse_create_cipher(args[i + 2].as_str(), color, &script) {
                Ok(c) => c,
                Err(f) => return Err(f),
            };
            c_exp = true;
            i = i + 2;
        } else if str_eq(cur, "--help") {
            parsed.push(owned("-h"));
            assert(strings_view(parsed@) =~= st.parsed.push("-h"@));
            i = i + 1;
        } else if str_eq(cur, "--force") {
            parsed.push(owned("-F"));
            assert(strings_view(parsed@) =~= st.parsed.push("-F"@));
            i = i + 1;
        } else if str_eq(cur, "--") {
            let mut k = i + 2;
            while k < args.len()
                invariant
                    i + 2 <= k <= args.len(),
                    strings_view(parsed@) == st.parsed + raw.subrange(i + 1, k - 1),
                    forall|q: int| 0 <= q < parsed@.len() ==> covered(facts@, #[trigger] parsed@[q]@),
                decreases args.len() - k,
            {
                let ghost before = strings_view(parsed@);
                parsed.push(args[k].clone());
                assert(raw[k - 1] == args@[k as int]@);
                assert(strings_view(parsed@) =~= before.push(args@[k as int]@));
                assert(raw.subrange(i + 1, k as int) =~= raw.subrange(i + 1, k - 1).push(raw[k - 1]));
                k = k + 1;
            }
            assert(raw.subrange(i + 1, raw.len() as int) =~= raw.skip(i + 1));
            i = args.len() - 1;
            assert(scan(raw, 0, initial_scan(), script@) == Ok::<ScanState, FailureView>(ScanState {
                color_mode: color, volume_type: vt, volume_type_explicit: vt_exp, cipher, cipher_explicit: c_exp,
                parsed: strings_view(parsed@),
            }));
            break;
        } else if str_starts_with(cur, "--color=") {
            let value = tail_after(cur, 8);
            color = match parse_color(value.as_str(), color, &script) {
                Ok(c) => c,
                Err(f) => return Err(f),
            };
            i = i + 1;
        } else if str_starts_with(cur, "--type=") {
            let value = tail_after(cur, 7);
            vt = match parse_volume_type(value.as_str(), color, &script) {
                Ok(t) => t,
                Err(f) => return Err(f),
            };
            vt_exp = true;
            i = i + 1;
        } else if str_starts_with(cur, "--cipher=") {
            let value = tail_after(cur, 9);
            cipher = match parse_create_cipher(value.as_str(), color, &script) {
                Ok(c) => c,
                Err(f) => return Err(f),
            };
            c_exp = true;
            i = i + 1;
        } else if str_starts_with(cur, "--") {
            return Err(failure_with_help(concat2("Unsupported argument chosen: ", cur), &script, color));
        } else {
            parsed.push(args[i + 1].clone());
            assert(strings_view(parsed@) =~= st.parsed.push(cur@));
            i = i + 1;
        }
    }
    let ghost st = ScanState { color_mode: color, volume_type: vt, volume_type_explicit: vt_exp, cipher, cipher_explicit: c_exp, parsed: strings_view(parsed@) };
    assert(scan(raw, 0, initial_scan(), script@) == Ok::<ScanState, FailureView>(st));
    parse_action(color, vt, vt_exp, cipher, c_exp, &parsed, &script, facts)
}

#[verifier::loop_isolation(false)]
#[verifier::rlimit(100)]
fn parse_action(
    color: ColorMode,
    vt: VolumeType,
    vt_exp: bool,
    cipher: CreateCipher,
    c_exp: bool,
    parsed: &Vec<String>,
    script: &String,
    facts: &Vec<ArgFacts>,
) -> (r: Result<ParseOutcome, ParseFailure>)
    requires
        forall|k: int| 0 <= k < parsed@.len() ==> covered(facts@, #[trigger] parsed@[k]@),
    ensures
        parse_view(r) == after_scan(ScanState {
            color_mode: color, volume_type: vt, volume_type_explicit: vt_exp, cipher, cipher_explicit: c_exp,
            parsed: strings_view(parsed@),
        }, facts@, script@),
{
    let ghost st = ScanState { color_mode: color, volume_type: vt, volume_type_explicit: vt_exp, cipher, cipher_explicit: c_exp, parsed: strings_view(parsed@) };
    let ghost pv = strings_view(parsed@);
    if parsed.len() == 0 {
        return Err(ParseFailure { message: None, exit_code: 2, show_help: true, help_to_stdout: false, script_name: script.clone(), color_mode: color });
    }
    let first = parsed[0].as_str();
    assert(pv[0] == first@);
    if str_eq(first, "-h") || str_eq(first, "help") {
        return Ok(ParseOutcome::Help(HelpRequest { script_name: script.clone(), color_mode: color, to_stdout: true }));
    }
    if str_eq(first, "-a") {
        return Err(failure(owned("The -a flag has been removed. Use: lurker <action> ..."), script, color));
    }
    if str_starts_with(first, "-") {
        return Err(failure_with_help(owned("Action is required. Use: create, createvc, mount, or umount."), script, color));
    }
    let is_createvc = str_eq(first, "createvc");
    if is_createvc && vt_exp && vt != VolumeType::Veracrypt {
        return Err(failure(owned("Action createvc only supports --type veracrypt."), script, color));
    }
    let action = if str_eq(first, "unmount") {
        owned("umount")
    } else if is_createvc {
        owned("create")
    } else {
        owned(first)
    };
    assert(action@ == action_name(first@));
    let volume_type = if is_createvc { VolumeType::Veracrypt } else { vt };
    let mut force = false;
    let mut tag: Option<String> = None;
    let mut operands: Vec<String> = Vec::new();
    let mut r: usize = 1;
    assert(strings_view(operands@) =~= Seq::<Seq<char>>::empty());
    while r < parsed.len()
        invariant
            1 <= r <= parsed.len(),
            forall|k: int| 0 <= k < operands@.len() ==> covered(facts@, #[trigger] operands@[k]@),
            flags(pv, 1, ActionArgs { force: false, tag: None, operands: Seq::empty() }, action@, script@, color)
                == flags(pv, r as int, ActionArgs { force, tag: opt_text(tag), operands: strings_view(operands@) }, action@, script@, color),
        decreases parsed.len() - r,
    {
        let ghost acc = ActionArgs { force, tag: opt_text(tag), operands: strings_view(operands@) };
        let cur = parsed[r].as_str();
        assert(pv[r as int] == cur@);
        if str_eq(cur, "-F") {
            force = true;
            r = r + 1;
        } else if str_eq(cur, "-t") {
            if r + 1 >= parsed.len() {
                return Err(failure(owned("Option -t requires an argument."), script, color));
            }
            let value = parsed[r + 1].as_str();
            assert(pv[r + 1] == value@);
            if value.is_empty() {
                return Err(failure(owned("Option -t requires a non-empty argument."), script, color));
            }
            tag = Some(owned(value));
            r = r + 2;
        } else if str_eq(cur, "-h") {
            return Ok(ParseOutcome::Help(HelpRequest { script_name: script.clone(), color_mode: color, to_stdout: true }));
        } else if str_eq(cur, "-f") || str_eq(cur, "-m") || str_eq(cur, "-s") {
            return Err(failure(reject_removed_operand_flag(action.as_str(), script.as_str()), script, color));
        } else if str_eq(cur, "--") {
            let mut k = r + 1;
            while k < parsed.len()
                invariant
                    r + 1 <= k <= parsed.len(),
                    strings_view(operands@) == acc.operands + pv.subrange(r + 1, k as int),
                    forall|q: int| 0 <= q < operands@.len() ==> covered(facts@, #[trigger] operands@[q]@),
                decreases parsed.len() - k,
            {
                let ghost before = strings_view(operands@);
                operands.push(parsed[k].clone());
                assert(strings_view(operands@) =~= before.push(pv[k as int]));
                assert(pv.subrange(r + 1, k + 1) =~= pv.subrange(r + 1, k as int).push(pv[k as int]));
                k = k + 1;
            }
            assert(pv.subrange(r + 1, pv.len() as int) =~= pv.skip(r + 1));
            assert(flags(pv, 1, ActionArgs { force: false, tag: None, operands: Seq::empty() }, action@, script@, color)
                == FlagOutcome::Done(ActionArgs { force, tag: opt_text(tag), operands: strings_view(operands@) }));
            return finish_action(color, vt, volume_type, vt_exp, cipher, c_exp, parsed, &action, force, tag, &operands, script, facts);
        } else if str_starts_with(cur, "-") {
            return Err(failure_with_help(concat2("Unsupported argument chosen: ", cur), script, color));
        } else {
            operands.push(parsed[r].clone());
            assert(strings_view(operands@) =~= acc.operands.push(cur@));
            r = r + 1;
        }
    }
    assert(flags(pv, 1, ActionArgs { force: false, tag: None, operands: Seq::empty() }, action@, script@, color)
        == FlagOutcome::Done(ActionArgs { force, tag: opt_text(tag), operands: strings_view(operands@) }));
    finish_action(color, vt, volume_type, vt_exp, cipher, c_exp, parsed, &action, force, tag, &operands, script, facts)
}

fn finish_action(
    color: ColorMode,
    vt: VolumeType,
    volume_type: VolumeType,
    vt_exp: bool,
    cipher: CreateCipher,
    c_exp: bool,
    parsed: &Vec<String>,
    action: &String,
    force: bool,
    tag: Option<String>,
    operands: &Vec<String>,
    script: &String,
    facts: &Vec<ArgFacts>,
) -> (r: Result<ParseOutcome, ParseFailure>)
    requires
        forall|k: int| 0 <= k < operands@.len() ==> covered(facts@, #[trigger] operands@[k]@),
    ensures
        ({
            let st = ScanState { color_mode: color, volume_type: vt, volume_type_explicit: vt_exp, cipher, cipher_explicit: c_exp, parsed: strings_view(parsed@) };
            let a = ActionArgs { force, tag: opt_text(tag), operands: strings_view(operands@) };
            parse_view(r) == if action@ == "create"@ {
                create_outcome(st, a, volume_type, facts@, script@)
            } else if action@ == "mount"@ {
                mount_outcome(st, a, facts@, script@)
            } else if action@ == "umount"@ {
                umount_outcome(st, a, script@)
            } else {
                ParseView::Fail(fail_with_help("Action create, mount, or umount expected."@, script@, color))
            }
        }),
{
    let ghost ov = strings_view(operands@);
    if str_eq(action.as_str(), "create") {
        if tag.is_some() {
            return Err(failure(owned("Option -t is only valid with mount or umount."), script, color));
        }
        if volume_type == VolumeType::Auto && vt_exp {
            return Err(failure(owned("Option --type auto is not valid with create. Use luks or veracrypt."), script, color));
        }
        if operands.len() == 0 || operands.len() > 2 {
            return Err(usage_failure(script.as_str(), color, "Usage: lurker create [--type TYPE] [--cipher CIPHER] <file> <size-gb> [-F|--force] or lurker create [--type TYPE] [--cipher CIPHER] <block-device> [-F|--force]"));
        }
        let chosen_type = if volume_type == VolumeType::Auto { VolumeType::Luks } else { volume_type };
        let target = operands[0].as_str();
        assert(ov[0] == target@);
        assert(covered(facts@, operands@[0]@));
        let f = match lookup(facts, target) {
            Some(f) => f,
            None => return Err(failure(String::new(), script, color)),
        };
        let kind = match f.link {
            crate::cli_spec::LinkKind::Block => SourceKind::Block,
            crate::cli_spec::LinkKind::File => SourceKind::File,
            crate::cli_spec::LinkKind::Missing => SourceKind::File,
            crate::cli_spec::LinkKind::Other => {
                return Err(failure(concat2("Target exists and is neither a regular file nor block device: ", f.arg.as_str()), script, color));
            },
            crate::cli_spec::LinkKind::Unreadable => {
                let mut m = owned("Failed to inspect target ");
                push_str(&mut m, f.arg.as_str());
                push_str(&mut m, ": ");
                push_str(&mut m, f.link_error.as_str());
                return Err(failure(m, script, color));
            },
        };
        let size_gb = match kind {
            SourceKind::Block => {
                if operands.len() != 1 {
                    return Err(usage_failure(script.as_str(), color, "Usage: lurker create [--type TYPE] [--cipher CIPHER] <block-device> [-F|--force]"));
                }
                None
            },
            SourceKind::File => {
                if operands.len() != 2 {
                    return Err(usage_failure(script.as_str(), color, "Usage: lurker create [--type TYPE] [--cipher CIPHER] <file> <size-gb> [-F|--force]"));
                }
                assert(ov[1] == operands@[1]@);
                Some(operands[1].clone())
            },
        };
        return Ok(ParseOutcome::Run(Cli {
            color_mode: color,
            command: CommandAction::Create(CreateCommand {
                target: owned(target),
                size_gb,
                force,
                source_kind: kind,
                volume_type: chosen_type,
                cipher,
                passphrase: None,
            }),
        }));
    }
    if str_eq(action.as_str(), "mount") || str_eq(action.as_str(), "umount") {
        if c_exp {
            return Err(failure(owned("Option --cipher is only valid with create."), script, color));
        }
        if force {
            return Err(failure(owned("Option -F is only valid with create."), script, color));
        }
    }
    if str_eq(action.as_str(), "mount") {
        if operands.len() != 2 {
            return Err(usage_failure(script.as_str(), color, "Usage: lurker mount [--type TYPE] [-t tag] <source> <mountpoint>"));
        }
        let source = operands[0].as_str();
        let mountpoint = operands[1].as_str();
        assert(ov[0] == source@ && ov[1] == mountpoint@);
        assert(covered(facts@, operands@[0]@));
        assert(covered(facts@, operands@[1]@));
        let sf = match lookup(facts, source) {
            Some(f) => f,
            None => return Err(failure(String::new(), script, color)),
        };
        let mf = match lookup(facts, mountpoint) {
            Some(f) => f,
            None => return Err(failure(String::new(), script, color)),
        };
        if sf.kind.is_none() {
            return Err(failure(concat2("Source does not exist or is not a regular file or block device: ", source), script, color));
        }
        if !mf.is_dir {
            return Err(failure(concat2("Directory does not exist: ", mountpoint), script, color));
        }
        return Ok(ParseOutcome::Run(Cli {
            color_mode: color,
            command: CommandAction::Mount(MountCommand {
                source: owned(source),
                mountpoint: owned(mountpoint),
                tag,
                volume_type: vt,
                passphrase: None,
                readonly: false,
            }),
        }));
    }
    if str_eq(action.as_str(), "umount") {
        if operands.len() != 1 {
            return Err(usage_failure(script.as_str(), color, "Usage: lurker umount [--type TYPE] [-t tag] <target>"));
        }
        assert(ov[0] == operands@[0]@);
        return Ok(ParseOutcome::Run(Cli {
            color_mode: color,
            command: CommandAction::Unmount(UnmountCommand { target: operands[0].clone(), tag, volume_type: vt }),
        }));
    }
    Err(failure_with_help(owned("Action create, mount, or umount expected."), script, color))
}

} // verus!
