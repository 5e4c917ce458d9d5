//! The privileged helper's own rules: how it is invoked, when it already runs as root, and
//! what it reports when a re-executed copy of itself answers nothing.

use vstd::prelude::*;
use crate::cli::strings_view;
use crate::system::spec_parse_u32;
use crate::text::{char_vec, concat3, decimal, decimal_string, owned, push_str, str_eq, trim};

verus! {

broadcast use vstd::string::group_string_axioms;

/// What the helper's arguments (after the program name) ask for: `run`, optionally preceded by
/// `--as-root`; the answer says whether `--as-root` was given. Anything else is a usage error.
pub open spec fn spec_helper_invocation(args: Seq<Seq<char>>) -> Option<bool> {
    if args.len() > 0 && args[0] == "--as-root"@ {
        if args.len() > 1 && args[1] == "run"@ { Some(true) } else { None }
    } else if args.len() > 0 && args[0] == "run"@ {
        Some(false)
    } else {
        None
    }
}

/// Reads the helper's arguments (after the program name).
pub fn helper_invocation(args: &Vec<String>) -> (r: Option<bool>)
    ensures
        r == spec_helper_invocation(strings_view(args@)),
{
    let ghost a = strings_view(args@);
    if args.len() > 0 && str_eq(args[0].as_str(), "--as-root") {
        assert(a[0] == args@[0]@);
        if args.len() > 1 && str_eq(args[1].as_str(), "run") {
            assert(a[1] == args@[1]@);
            return Some(true);
        }
        proof {
            if args@.len() > 1 {
                assert(a[1] == args@[1]@);
            }
        }
        return None;
    }
    proof {
        if args@.len() > 0 {
            assert(a[0] == args@[0]@);
        }
    }
    if args.len() > 0 && str_eq(args[0].as_str(), "run") {
        return Some(false);
    }
    None
}

/// Whether the environment says the process is root: `EUID` if it is set, else `UID`, read as
/// a number.
pub open spec fn spec_uid_is_root(euid: Option<Seq<char>>, uid: Option<Seq<char>>) -> bool {
    let chosen = match euid {
        Some(e) => Some(e),
        None => uid,
    };
    match chosen {
        Some(v) => spec_parse_u32(v) == Some(0u32),
        None => false,
    }
}

/// Whether the `EUID` and `UID` values say the process is root.
pub fn uid_is_root(euid: &Option<String>, uid: &Option<String>) -> (r: bool)
    ensures
        r == spec_uid_is_root(crate::api::opt_text(*euid), crate::api::opt_text(*uid)),
{
    let chosen = match euid {
        Some(e) => Some(e),
        None => match uid {
            Some(u) => Some(u),
            None => None,
        },
    };
    match chosen {
        Some(v) => {
            let chars = char_vec(v.as_str());
            match crate::system::parse_u32(&chars) {
                Some(n) => n == 0,
                None => false,
            }
        },
        None => false,
    }
}

/// The text of an `i32` as Rust prints it.
pub open spec fn signed_text(n: i32) -> Seq<char> {
    if n < 0 { "-"@ + decimal((-n) as nat) } else { decimal(n as nat) }
}

/// How an optional exit code is printed for debugging: `Some(3)` or `None`.
pub open spec fn exit_status_text(code: Option<i32>) -> Seq<char> {
    match code {
        Some(c) => "Some("@ + signed_text(c) + ")"@,
        None => "None"@,
    }
}

/// The error when a re-executed helper printed nothing on stdout: its trimmed stderr, or, when
/// that is empty too, the exit status.
pub open spec fn spec_silent_reply_error(program: Seq<char>, stderr: Seq<char>, code: Option<i32>) -> Seq<char> {
    if trim(stderr).len() == 0 {
        program + " helper failed with exit status "@ + exit_status_text(code) + "."@
    } else {
        trim(stderr)
    }
}

/// The error for a re-executed helper that printed nothing on stdout.
pub fn silent_reply_error(program: &str, stderr: &str, code: Option<i32>) -> (r: String)
    ensures
        r@ == spec_silent_reply_error(program@, stderr@, code),
{
    let t = crate::text::str_trim(stderr);
    if t.len() > 0 {
        return crate::text::string_from_chars(&t);
    }
    let mut m = owned(program);
    push_str(&mut m, " helper failed with exit status ");
    push_exit_status(&mut m, code);
    push_str(&mut m, ".");
    m
}

/// Both failures of an elevation attempt, `pkexec` first, separated by a blank line.
pub fn elevation_failure(pkexec_error: &str, sudo_error: &str) -> (r: String)
    ensures
        r@ == pkexec_error@ + "\n\n"@ + sudo_error@,
{
    concat3(pkexec_error, "\n\n", sudo_error)
}


/// The error when the helper printed nothing on stdout to the desktop front: its trimmed
/// stderr, or, when that is empty too, the exit code.
pub open spec fn spec_no_output_error(stderr: Seq<char>, code: Option<i32>) -> Seq<char> {
    if trim(stderr).len() == 0 {
        "lurker-helper returned no output (exit code "@ + exit_status_text(code) + ")."@
    } else {
        trim(stderr)
    }
}

/// The error for a helper that printed nothing on stdout.
pub fn no_output_error(stderr: &str, code: Option<i32>) -> (r: String)
    ensures
        r@ == spec_no_output_error(stderr@, code),
{
    let t = crate::text::str_trim(stderr);
    if t.len() > 0 {
        return crate::text::string_from_chars(&t);
    }
    let mut m = owned("lurker-helper returned no output (exit code ");
    push_exit_status(&mut m, code);
    push_str(&mut m, ").");
    m
}

fn push_exit_status(m: &mut String, code: Option<i32>)
    ensures
        final(m)@ == old(m)@ + exit_status_text(code),
{
    match code {
        Some(c) => {
            push_str(m, "Some(");
            if c < 0 {
                push_str(m, "-");
                let magnitude: u64 = if c == i32::MIN { 2147483648u64 } else { (-c) as u64 };
                push_str(m, decimal_string(magnitude).as_str());
            } else {
                push_str(m, decimal_string(c as u64).as_str());
            }
            push_str(m, ")");
        },
        None => push_str(m, "None"),
    }
}

} // verus!
