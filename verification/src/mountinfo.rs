//! Lines of `/proc/self/mountinfo`: the mount point, source and filesystem type of each mount.

use vstd::prelude::*;
use crate::text::{char_vec, chars_skip, is_space, char_is_space, occurs_at, string_from_chars};

verus! {

broadcast use vstd::string::group_string_axioms;

/// One mount: where it is mounted, what is mounted there, and its filesystem type.
#[derive(Clone, Debug, PartialEq, Eq)]
pub struct MountInfo {
    pub mount_point: String,
    pub source: Option<String>,
    pub fs_type: String,
}

/// Text decoded from bytes, invalid sequences replaced (`String::from_utf8_lossy`).
pub uninterp spec fn utf8_lossy(bytes: Seq<u8>) -> Seq<char>;

/// Decodes bytes with `String::from_utf8_lossy`: valid UTF-8 comes back as the characters it
/// encodes; what the replacement gives for invalid input is named, not stated.
#[verifier::external_body]
pub(crate) fn lossy_text(bytes: &Vec<u8>) -> (r: String)
    ensures
        r@ == utf8_lossy(bytes@),
        vstd::utf8::valid_utf8(bytes@) ==> r@ == vstd::utf8::decode_utf8(bytes@),
{
    String::from_utf8_lossy(bytes).into_owned()
}

/// Whether a byte is an octal digit.
pub open spec fn is_octal(b: u8) -> bool {
    48 <= b <= 55
}

/// Whether an escape `\ooo` starts at position `i`.
pub open spec fn escape_at(b: Seq<u8>, i: int) -> bool {
    0 <= i && i + 3 < b.len() && b[i] == 92 && is_octal(b[i + 1]) && is_octal(b[i + 2]) && is_octal(b[i + 3])
}

/// The byte that the escape at `i` denotes.
pub open spec fn escape_value(b: Seq<u8>, i: int) -> u8 {
    ((b[i + 1] - 48) * 64 + (b[i + 2] - 48) * 8 + (b[i + 3] - 48)) as u8
}

/// The bytes of a mountinfo field from `i` on with each `\ooo` escape decoded.
pub open spec fn unescape_from(b: Seq<u8>, i: int) -> Seq<u8>
    decreases b.len() - i,
{
    if i < 0 || i >= b.len() {
        Seq::empty()
    } else if escape_at(b, i) {
        seq![escape_value(b, i)] + unescape_from(b, i + 4)
    } else {
        seq![b[i]] + unescape_from(b, i + 1)
    }
}

/// Whether every escape met while decoding from `i` on has a first digit of at most 3, so that
/// its value fits in a byte (a larger first digit overflows the byte arithmetic).
pub open spec fn escapes_fit_from(b: Seq<u8>, i: int) -> bool
    decreases b.len() - i,
{
    if i < 0 || i >= b.len() {
        true
    } else if escape_at(b, i) {
        b[i + 1] <= 51 && escapes_fit_from(b, i + 4)
    } else {
        escapes_fit_from(b, i + 1)
    }
}

/// Decodes the `\ooo` escapes of a mountinfo field.
pub fn unescape_mount_field(value: &str) -> (r: Vec<u8>)
    requires
        escapes_fit_from(vstd::utf8::encode_utf8(value@), 0),
    ensures
        r@ == unescape_from(vstd::utf8::encode_utf8(value@), 0),
{
    let bytes = value.as_bytes();
    let ghost b = bytes@;
    let mut output: Vec<u8> = Vec::new();
    let mut index: usize = 0;
    while index < bytes.len()
        invariant
            b == bytes@,
            index <= bytes.len(),
            escapes_fit_from(b, index as int),
            unescape_from(b, 0) == output@ + unescape_from(b, index as int),
        decreases bytes.len() - index,
    {
        if bytes[index] == 92 && bytes.len() - index > 3 {
            let d1 = bytes[index + 1];
            let d2 = bytes[index + 2];
            let d3 = bytes[index + 3];
            if 48 <= d1 && d1 <= 55 && 48 <= d2 && d2 <= 55 && 48 <= d3 && d3 <= 55 {
                let decoded = (d1 - 48) * 64 + (d2 - 48) * 8 + (d3 - 48);
                assert(decoded == escape_value(b, index as int));
                let ghost before = output@;
                output.push(decoded);
                assert(before + (seq![decoded] + unescape_from(b, index + 4)) =~= output@ + unescape_from(b, index + 4));
                index = index + 4;
                continue;
            }
        }
        let ghost before = output@;
        output.push(bytes[index]);
        assert(before + (seq![b[index as int]] + unescape_from(b, index + 1)) =~= output@ + unescape_from(b, index + 1));
        index = index + 1;
    }
    assert(output@ =~= output@ + unescape_from(b, index as int));
    output
}

/// The whitespace-separated words of `s` from position `from` on, `current` being the word begun.
pub open spec fn words_from(s: Seq<char>, from: int, current: Seq<char>) -> Seq<Seq<char>>
    decreases s.len() - from,
{
    if from >= s.len() {
        if current.len() > 0 { seq![current] } else { Seq::empty() }
    } else if is_space(s[from]) {
        if current.len() > 0 {
            seq![current] + words_from(s, from + 1, Seq::empty())
        } else {
            words_from(s, from + 1, Seq::empty())
        }
    } else {
        words_from(s, from + 1, current.push(s[from]))
    }
}

/// The whitespace-separated words of `s` (`str::split_whitespace`).
pub open spec fn words(s: Seq<char>) -> Seq<Seq<char>> {
    words_from(s, 0, Seq::empty())
}

fn split_words(s: &Vec<char>) -> (r: Vec<Vec<char>>)
    ensures
        r@.len() == words(s@).len(),
        forall|i: int| 0 <= i < r@.len() ==> #[trigger] r@[i]@ == words(s@)[i],
{
    let ghost w = s@;
    let mut out: Vec<Vec<char>> = Vec::new();
    let mut current: Vec<char> = Vec::new();
    let ghost done: Seq<Seq<char>> = Seq::empty();
    let mut k: usize = 0;
    while k < s.len()
        invariant
            w == s@,
            k <= s.len(),
            out@.len() == done.len(),
            forall|i: int| 0 <= i < out@.len() ==> #[trigger] out@[i]@ == done[i],
            words(w) == done + words_from(w, k as int, current@),
        decreases s.len() - k,
    {
        let ghost before = done;
        if char_is_space(s[k]) {
            if current.len() > 0 {
                proof {
                    done = done.push(current@);
                    assert(before + (seq![current@] + words_from(w, k + 1, Seq::empty())) =~= done + words_from(w, k + 1, Seq::empty()));
                }
                out.push(current);
            }
            current = Vec::new();
            assert(current@ =~= Seq::<char>::empty());
        } else {
            current.push(s[k]);
        }
        k = k + 1;
    }
    if current.len() > 0 {
        proof {
            done = done.push(current@);
        }
        out.push(current);
    }
    assert(words(w) =~= done);
    out
}

/// The whitespace-separated words of a character sequence.
pub fn split_words_pub(s: &Vec<char>) -> (r: Vec<Vec<char>>)
    ensures
        r@.len() == words(s@).len(),
        forall|i: int| 0 <= i < r@.len() ==> #[trigger] r@[i]@ == words(s@)[i],
{
    split_words(s)
}

/// The first position at or after `at` where `needle` occurs in `s`.
pub open spec fn find_from(s: Seq<char>, needle: Seq<char>, at: int) -> Option<int>
    decreases s.len() + 1 - at,
{
    if at < 0 || at + needle.len() > s.len() {
        None
    } else if occurs_at(s, needle, at) {
        Some(at)
    } else {
        find_from(s, needle, at + 1)
    }
}

fn find_separator(s: &Vec<char>) -> (r: Option<usize>)
    ensures
        match (r, find_from(s@, seq![' ', '-', ' '], 0)) {
            (Some(a), Some(b)) => a == b && a + 3 <= s@.len(),
            (None, None) => true,
            _ => false,
        },
{
    if s.len() < 3 {
        return None;
    }
    let ghost sep = seq![' ', '-', ' '];
    let mut at: usize = 0;
    while at <= s.len() - 3
        invariant
            s@.len() >= 3,
            at <= s@.len() - 2,
            sep == seq![' ', '-', ' '],
            find_from(s@, sep, 0) == find_from(s@, sep, at as int),
        decreases s.len() - at,
    {
        if s[at] == ' ' && s[at + 1] == '-' && s[at + 2] == ' ' {
            assert(s@.subrange(at as int, at + 3) =~= sep);
            return Some(at);
        }
        assert(!occurs_at(s@, sep, at as int)) by {
            if occurs_at(s@, sep, at as int) {
                assert(s@.subrange(at as int, at + 3)[0] == s@[at as int]);
                assert(s@.subrange(at as int, at + 3)[1] == s@[at + 1]);
                assert(s@.subrange(at as int, at + 3)[2] == s@[at + 2]);
            }
        }
        at = at + 1;
    }
    None
}

/// The fields of a mountinfo line that the parse reads, when it has them: the mount point (fifth
/// word before ` - `), the filesystem type and the source (first and second words after it).
pub open spec fn line_fields(line: Seq<char>) -> Option<(Seq<char>, Seq<char>, Seq<char>)> {
    match find_from(line, seq![' ', '-', ' '], 0) {
        None => None,
        Some(at) => {
            let left = words(line.take(at));
            let right = words(line.skip(at + 3));
            if left.len() < 5 || right.len() < 2 {
                None
            } else {
                Some((left[4], right[0], right[1]))
            }
        },
    }
}

/// Whether the escapes of the fields that the parse decodes fit in a byte.
pub open spec fn mountinfo_line_decodes(line: Seq<char>) -> bool {
    match line_fields(line) {
        Some((mount_point, _fs, source)) =>
            escapes_fit_from(vstd::utf8::encode_utf8(mount_point), 0)
                && escapes_fit_from(vstd::utf8::encode_utf8(source), 0),
        None => true,
    }
}

/// The text of a field with its escapes decoded.
pub open spec fn decoded_field(field: Seq<char>) -> Seq<char> {
    utf8_lossy(unescape_from(vstd::utf8::encode_utf8(field), 0))
}

/// Parses one mountinfo line.
pub fn parse_mountinfo_line(line: &str) -> (r: Option<MountInfo>)
    requires
        mountinfo_line_decodes(line@),
    ensures
        match (r, line_fields(line@)) {
            (Some(m), Some((mount_point, fs_type, source))) =>
                m.mount_point@ == decoded_field(mount_point)
                    && m.fs_type@ == fs_type
                    && (m.source matches Some(src) && src@ == decoded_field(source)),
            (None, None) => true,
            _ => false,
        },
{
    let s = char_vec(line);
    let at = match find_separator(&s) {
        Some(a) => a,
        None => return None,
    };
    assert(at + 3 <= s@.len());
    assert(s@.len() == s.len());
    let after: usize = at + 3;
    let left = crate::text::chars_take(&s, at);
    let right = chars_skip(&s, after);
    assert(right@ =~= s@.skip(at + 3));
    let left_parts = split_words(&left);
    if left_parts.len() < 5 {
        return None;
    }
    let right_parts = split_words(&right);
    if right_parts.len() < 2 {
        return None;
    }
    let mount_text = string_from_chars(&left_parts[4]);
    let source_text = string_from_chars(&right_parts[1]);
    let mount_bytes = unescape_mount_field(mount_text.as_str());
    let source_bytes = unescape_mount_field(source_text.as_str());
    Some(MountInfo {
        mount_point: lossy_text(&mount_bytes),
        source: Some(lossy_text(&source_bytes)),
        fs_type: string_from_chars(&right_parts[0]),
    })
}


/// Whether every escape of a field fits in a byte when decoded.
pub fn escapes_fit(value: &str) -> (r: bool)
    ensures
        r == escapes_fit_from(vstd::utf8::encode_utf8(value@), 0),
{
    let bytes = value.as_bytes();
    let ghost b = bytes@;
    let mut index: usize = 0;
    while index < bytes.len()
        invariant
            b == bytes@,
            b == vstd::utf8::encode_utf8(value@),
            index <= bytes.len(),
            escapes_fit_from(b, 0) == escapes_fit_from(b, index as int),
        decreases bytes.len() - index,
    {
        if bytes[index] == 92 && bytes.len() - index > 3 {
            let d1 = bytes[index + 1];
            let d2 = bytes[index + 2];
            let d3 = bytes[index + 3];
            if 48 <= d1 && d1 <= 55 && 48 <= d2 && d2 <= 55 && 48 <= d3 && d3 <= 55 {
                if d1 > 51 {
                    assert(escape_at(b, index as int));
                    assert(b[index + 1] == d1);
                    assert(!escapes_fit_from(b, index as int));
                    return false;
                }
                index = index + 4;
                continue;
            }
        }
        index = index + 1;
    }
    true
}

/// Whether a mountinfo line can be parsed: the escapes of its mount point and source fit in a
/// byte.
pub fn mountinfo_line_fits(line: &str) -> (r: bool)
    ensures
        r == mountinfo_line_decodes(line@),
{
    let s = char_vec(line);
    let at = match find_separator(&s) {
        Some(a) => a,
        None => return true,
    };
    assert(at + 3 <= s@.len());
    assert(s@.len() == s.len());
    let after: usize = at + 3;
    let left = crate::text::chars_take(&s, at);
    let right = chars_skip(&s, after);
    assert(right@ =~= s@.skip(at + 3));
    let left_parts = split_words(&left);
    if left_parts.len() < 5 {
        return true;
    }
    let right_parts = split_words(&right);
    if right_parts.len() < 2 {
        return true;
    }
    let mount_text = string_from_chars(&left_parts[4]);
    let source_text = string_from_chars(&right_parts[1]);
    escapes_fit(mount_text.as_str()) && escapes_fit(source_text.as_str())
}

} // verus!
