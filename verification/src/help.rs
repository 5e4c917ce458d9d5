//! The help text of the command line.

use vstd::prelude::*;
use crate::model::ColorMode;
use crate::text::push_str;

verus! {

/// Whether the help text is colored: always, never, or when its stream is a terminal.
pub open spec fn help_colored(color_mode: ColorMode, stdout_destination: bool, stdout_tty: bool, stderr_tty: bool) -> bool {
    match color_mode {
        ColorMode::Always => true,
        ColorMode::Auto => if stdout_destination { stdout_tty } else { stderr_tty },
        ColorMode::Never => false,
    }
}

/// A usage or example line: the program name followed by `tail`, highlighted.
pub open spec fn command_line(accent: Seq<char>, reset: Seq<char>, script: Seq<char>, tail: Seq<char>) -> Seq<char> {
    "  "@ + accent + script + tail + reset + "\n"@
}

/// An option line: the highlighted option and its description.
pub open spec fn option_line(accent: Seq<char>, reset: Seq<char>, option: Seq<char>, description: Seq<char>) -> Seq<char> {
    "  "@ + accent + option + reset + description + "\n"@
}

/// A section heading.
pub open spec fn heading(header: Seq<char>, reset: Seq<char>, title: Seq<char>) -> Seq<char> {
    "\n"@ + header + title + reset + "\n"@
}

/// The help text for a program name, with the given escape sequences (empty when plain).
pub open spec fn help_text(script: Seq<char>, header: Seq<char>, accent: Seq<char>, reset: Seq<char>) -> Seq<char> {
    heading(header, reset, "Usage:"@)
        + command_line(accent, reset, script, " create [--type TYPE] [--cipher CIPHER] <file> <size-gb> [-F|--force]"@)
        + command_line(accent, reset, script, " create [--type TYPE] [--cipher CIPHER] <block-device> [-F|--force]"@)
        + command_line(accent, reset, script, " createvc [--cipher CIPHER] <file> <size-gb> [-F|--force]"@)
        + command_line(accent, reset, script, " createvc [--cipher CIPHER] <block-device> [-F|--force]"@)
        + command_line(accent, reset, script, " mount [--type TYPE] [-t TAG] <source> <mountpoint>"@)
        + command_line(accent, reset, script, " unmount [--type TYPE] [-t TAG] <target>"@)
        + command_line(accent, reset, script, " help"@)
        + heading(header, reset, "Examples:"@)
        + command_line(accent, reset, script, " create ./vault.img 4"@)
        + command_line(accent, reset, script, " create --cipher serpent ./vault-serpent.img 4"@)
        + command_line(accent, reset, script, " create --cipher twofish /dev/sda2 --force"@)
        + command_line(accent, reset, script, " create --type veracrypt --cipher serpent ./vault.hc 4"@)
        + command_line(accent, reset, script, " createvc --cipher twofish /dev/sdb2 --force"@)
        + command_line(accent, reset, script, " mount ./vault.img /mnt/vault"@)
        + command_line(accent, reset, script, " mount -t work /dev/sda2 /mnt/work"@)
        + command_line(accent, reset, script, " unmount /mnt/work"@)
        + command_line(accent, reset, script, " unmount -t work /dev/sda2"@)
        + heading(header, reset, "Options:"@)
        + option_line(accent, reset, "-F, --force"@, "       Overwrite an existing file or allow destructive block-device create"@)
        + option_line(accent, reset, "-t TAG"@, "            Use /dev/mapper/lurker_TAG for mount or unmount"@)
        + option_line(accent, reset, "--type TYPE"@, "       Container type: create uses luks|veracrypt; mount/unmount use auto|luks|veracrypt"@)
        + option_line(accent, reset, "--cipher CIPHER"@, "   Create cipher: aes, serpent, or twofish"@)
        + option_line(accent, reset, "--color=WHEN"@, "      Color output: auto, always, never"@)
        + option_line(accent, reset, "-h, --help"@, "        Show this help text"@)
}

fn push_command(out: &mut String, accent: &str, reset: &str, script: &str, tail: &str)
    ensures
        final(out)@ == old(out)@ + command_line(accent@, reset@, script@, tail@),
{
    push_str(out, "  ");
    push_str(out, accent);
    push_str(out, script);
    push_str(out, tail);
    push_str(out, reset);
    push_str(out, "\n");
    assert(final(out)@ =~= old(out)@ + command_line(accent@, reset@, script@, tail@));
}

fn push_option(out: &mut String, accent: &str, reset: &str, option: &str, description: &str)
    ensures
        final(out)@ == old(out)@ + option_line(accent@, reset@, option@, description@),
{
    push_str(out, "  ");
    push_str(out, accent);
    push_str(out, option);
    push_str(out, reset);
    push_str(out, description);
    push_str(out, "\n");
    assert(final(out)@ =~= old(out)@ + option_line(accent@, reset@, option@, description@));
}

fn push_heading(out: &mut String, header: &str, reset: &str, title: &str)
    ensures
        final(out)@ == old(out)@ + heading(header@, reset@, title@),
{
    push_str(out, "\n");
    push_str(out, header);
    push_str(out, title);
    push_str(out, reset);
    push_str(out, "\n");
    assert(final(out)@ =~= old(out)@ + heading(header@, reset@, title@));
}

/// The help text for `script_name`, colored as `color_mode` says; in auto mode the terminal
/// status of its destination stream (stdout or stderr) decides.
pub fn render_help(script_name: &str, color_mode: ColorMode, stdout_destination: bool, stdout_tty: bool, stderr_tty: bool) -> (r: String)
    ensures
        r@ == if help_colored(color_mode, stdout_destination, stdout_tty, stderr_tty) {
            help_text(script_name@, "\u{1b}[1;34m"@, "\u{1b}[1;32m"@, "\u{1b}[0m"@)
        } else {
            help_text(script_name@, ""@, ""@, ""@)
        },
{
    let use_color = match color_mode {
        ColorMode::Always => true,
        ColorMode::Auto => if stdout_destination { stdout_tty } else { stderr_tty },
        ColorMode::Never => false,
    };
    let (header, accent, reset) = if use_color {
        ("\u{1b}[1;34m", "\u{1b}[1;32m", "\u{1b}[0m")
    } else {
        ("", "", "")
    };
    let s = script_name;
    let mut out = String::new();
    push_heading(&mut out, header, reset, "Usage:");
    assert(out@ =~= heading(header@, reset@, "Usage:"@));
    push_command(&mut out, accent, reset, s, " create [--type TYPE] [--cipher CIPHER] <file> <size-gb> [-F|--force]");
    push_command(&mut out, accent, reset, s, " create [--type TYPE] [--cipher CIPHER] <block-device> [-F|--force]");
    push_command(&mut out, accent, reset, s, " createvc [--cipher CIPHER] <file> <size-gb> [-F|--force]");
    push_command(&mut out, accent, reset, s, " createvc [--cipher CIPHER] <block-device> [-F|--force]");
    push_command(&mut out, accent, reset, s, " mount [--type TYPE] [-t TAG] <source> <mountpoint>");
    push_command(&mut out, accent, reset, s, " unmount [--type TYPE] [-t TAG] <target>");
    push_command(&mut out, accent, reset, s, " help");
    push_heading(&mut out, header, reset, "Examples:");
    push_command(&mut out, accent, reset, s, " create ./vault.img 4");
    push_command(&mut out, accent, reset, s, " create --cipher serpent ./vault-serpent.img 4");
    push_command(&mut out, accent, reset, s, " create --cipher twofish /dev/sda2 --force");
    push_command(&mut out, accent, reset, s, " create --type veracrypt --cipher serpent ./vault.hc 4");
    push_command(&mut out, accent, reset, s, " createvc --cipher twofish /dev/sdb2 --force");
    push_command(&mut out, accent, reset, s, " mount ./vault.img /mnt/vault");
    push_command(&mut out, accent, reset, s, " mount -t work /dev/sda2 /mnt/work");
    push_command(&mut out, accent, reset, s, " unmount /mnt/work");
    push_command(&mut out, accent, reset, s, " unmount -t work /dev/sda2");
    push_heading(&mut out, header, reset, "Options:");
    push_option(&mut out, accent, reset, "-F, --force", "       Overwrite an existing file or allow destructive block-device create");
    push_option(&mut out, accent, reset, "-t TAG", "            Use /dev/mapper/lurker_TAG for mount or unmount");
    push_option(&mut out, accent, reset, "--type TYPE", "       Container type: create uses luks|veracrypt; mount/unmount use auto|luks|veracrypt");
    push_option(&mut out, accent, reset, "--cipher CIPHER", "   Create cipher: aes, serpent, or twofish");
    push_option(&mut out, accent, reset, "--color=WHEN", "      Color output: auto, always, never");
    push_option(&mut out, accent, reset, "-h, --help", "        Show this help text");
    out
}

} // verus!
