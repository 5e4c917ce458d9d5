//! Mapper names: derived from a tag, or from a resolved source path and its SHA-256 digest.

use vstd::prelude::*;
use sha2::Digest;
use crate::error::{AppError, AppResult};
use crate::paths::{file_name, path_file_name};
use crate::text::{
    char_vec, chars_start_with, chars_skip, chars_take, chars_trim, concat2, has_prefix, join_path, owned,
    path_join, push_str, string_from_chars, trim_underscores, TrimSet,
};

verus! {

broadcast use vstd::string::group_string_axioms;

/// The SHA-256 digest of a byte sequence.
pub uninterp spec fn sha256(data: Seq<u8>) -> Seq<u8>;

/// Computes the SHA-256 digest with `sha2::Sha256::digest`: the 32 bytes of the digest of `data`.
#[verifier::external_body]
fn sha256_digest(data: &[u8]) -> (r: Vec<u8>)
    ensures
        r@ == sha256(data@),
        r@.len() == 32,
{
    sha2::Sha256::digest(data).to_vec()
}

/// The lowercase hexadecimal digit for a value below sixteen.
pub open spec fn hex_digit(v: nat) -> char {
    if v < 10 {
        crate::text::digit_char(v)
    } else if v == 10 { 'a' } else if v == 11 { 'b' } else if v == 12 { 'c' }
    else if v == 13 { 'd' } else if v == 14 { 'e' } else { 'f' }
}

/// Two lowercase hexadecimal digits per byte.
pub open spec fn hex_lower(data: Seq<u8>) -> Seq<char>
    decreases data.len(),
{
    if data.len() == 0 {
        Seq::empty()
    } else {
        hex_lower(data.drop_last()) + seq![hex_digit((data.last() / 16) as nat), hex_digit((data.last() % 16) as nat)]
    }
}

fn hex_digit_of(v: u8) -> (c: char)
    requires
        v < 16,
    ensures
        c == hex_digit(v as nat),
{
    if v == 0 { '0' } else if v == 1 { '1' } else if v == 2 { '2' } else if v == 3 { '3' }
    else if v == 4 { '4' } else if v == 5 { '5' } else if v == 6 { '6' } else if v == 7 { '7' }
    else if v == 8 { '8' } else if v == 9 { '9' } else if v == 10 { 'a' } else if v == 11 { 'b' }
    else if v == 12 { 'c' } else if v == 13 { 'd' } else if v == 14 { 'e' } else { 'f' }
}

/// The lowercase hexadecimal text of bytes.
pub fn hex_encode(data: &Vec<u8>) -> (r: Vec<char>)
    ensures
        r@ == hex_lower(data@),
{
    let mut r: Vec<char> = Vec::new();
    let mut i: usize = 0;
    while i < data.len()
        invariant
            i <= data.len(),
            r@ == hex_lower(data@.take(i as int)),
        decreases data.len() - i,
    {
        let b = data[i];
        r.push(hex_digit_of(b / 16));
        r.push(hex_digit_of(b % 16));
        assert(data@.take(i + 1).drop_last() =~= data@.take(i as int));
        i = i + 1;
        assert(r@ =~= hex_lower(data@.take(i as int)));
    }
    assert(data@.take(data@.len() as int) =~= data@);
    r
}

/// The character a name component keeps: ASCII letters, digits, `.`, `_` and `-` stay,
/// anything else becomes `_`.
pub open spec fn safe_char(c: char) -> char {
    if ('a' <= c && c <= 'z') || ('A' <= c && c <= 'Z') || ('0' <= c && c <= '9') || c == '.' || c == '_' || c == '-' {
        c
    } else {
        '_'
    }
}

/// A raw name made safe for a mapper name: unsafe characters replaced, then `_` trimmed at both ends.
pub open spec fn sanitize(raw: Seq<char>) -> Seq<char> {
    trim_underscores(raw.map_values(|c: char| safe_char(c)))
}

/// Trimming the start of a sequence leaves one of its suffixes.
proof fn lemma_trim_start_suffix(set: crate::text::TrimSet, s: Seq<char>)
    ensures
        exists|k: int| 0 <= k <= s.len() && #[trigger] crate::text::trim_start(set, s) == s.subrange(k, s.len() as int),
        crate::text::trim_start(set, s).len() > 0 ==> !crate::text::trimmed_char(set, crate::text::trim_start(set, s)[0]),
    decreases s.len(),
{
    if s.len() > 0 && crate::text::trimmed_char(set, s[0]) {
        lemma_trim_start_suffix(set, s.drop_first());
        let k = choose|k: int| 0 <= k <= s.drop_first().len()
            && #[trigger] crate::text::trim_start(set, s.drop_first()) == s.drop_first().subrange(k, s.drop_first().len() as int);
        assert(s.drop_first().subrange(k, s.drop_first().len() as int) =~= s.subrange(k + 1, s.len() as int));
    } else {
        assert(s.subrange(0, s.len() as int) =~= s);
    }
}

/// Trimming the end of a sequence leaves one of its prefixes.
proof fn lemma_trim_end_prefix(set: crate::text::TrimSet, s: Seq<char>)
    ensures
        exists|k: int| 0 <= k <= s.len() && #[trigger] crate::text::trim_end(set, s) == s.subrange(0, k),
        crate::text::trim_end(set, s).len() > 0 ==> !crate::text::trimmed_char(set, crate::text::trim_end(set, s).last()),
    decreases s.len(),
{
    if s.len() > 0 && crate::text::trimmed_char(set, s.last()) {
        lemma_trim_end_prefix(set, s.drop_last());
        let k = choose|k: int| 0 <= k <= s.drop_last().len()
            && #[trigger] crate::text::trim_end(set, s.drop_last()) == s.drop_last().subrange(0, k);
        assert(s.drop_last().subrange(0, k) =~= s.subrange(0, k));
    } else {
        assert(s.subrange(0, s.len() as int) =~= s);
    }
}

/// Sanitizing keeps a name that is already safe: one made only of ASCII letters, digits, `.`,
/// `_` and `-`, neither starting nor ending with `_`, comes back unchanged.
pub proof fn sanitize_keeps_safe_names(raw: Seq<char>)
    requires
        forall|i: int| 0 <= i < raw.len() ==> {
            let c = #[trigger] raw[i];
            c == '-' || c == '_' || c == '.' || ('0' <= c && c <= '9') || ('a' <= c && c <= 'z') || ('A' <= c && c <= 'Z')
        },
        raw.len() > 0 ==> raw[0] != '_' && raw.last() != '_',
    ensures
        sanitize(raw) == raw,
{
    let mapped = raw.map_values(|c: char| safe_char(c));
    assert(mapped =~= raw);
    assert(crate::text::trim_start(crate::text::TrimSet::Underscore, raw) == raw);
    assert(crate::text::trim_end(crate::text::TrimSet::Underscore, raw) == raw);
}

/// `out` matches `raw` from position `k` on, position for position: where `raw` has an ASCII
/// letter, digit, `.`, `_` or `-`, the same character; anywhere else `_`.
pub open spec fn stretch_of(raw: Seq<char>, out: Seq<char>, k: int) -> bool {
    &&& 0 <= k
    &&& k + out.len() <= raw.len()
    &&& forall|j: int| 0 <= j < out.len() ==> {
        let c = #[trigger] raw[k + j];
        if c == '-' || c == '_' || c == '.' || ('0' <= c && c <= '9') || ('a' <= c && c <= 'z') || ('A' <= c && c <= 'Z') {
            out[j] == c
        } else {
            out[j] == '_'
        }
    }
}

/// A sanitized name is a stretch of the raw name in which every ASCII letter, digit, `.`, `_`
/// and `-` is kept and every other character is replaced by `_`; it neither starts nor ends
/// with `_`.
pub proof fn sanitize_keeps_each_safe_character(raw: Seq<char>)
    ensures
        exists|k: int| #[trigger] stretch_of(raw, sanitize(raw), k),
        sanitize(raw).len() > 0 ==> sanitize(raw)[0] != '_' && sanitize(raw).last() != '_',
{
    let set = crate::text::TrimSet::Underscore;
    let mapped = raw.map_values(|c: char| safe_char(c));
    lemma_trim_start_suffix(set, mapped);
    let k = choose|k: int| 0 <= k <= mapped.len() && #[trigger] crate::text::trim_start(set, mapped) == mapped.subrange(k, mapped.len() as int);
    let front = crate::text::trim_start(set, mapped);
    lemma_trim_end_prefix(set, front);
    let n = choose|n: int| 0 <= n <= front.len() && #[trigger] crate::text::trim_end(set, front) == front.subrange(0, n);
    assert(sanitize(raw) == front.subrange(0, n));
    assert forall|j: int| 0 <= j < sanitize(raw).len() implies {
        let c = #[trigger] raw[k + j];
        if c == '-' || c == '_' || c == '.' || ('0' <= c && c <= '9') || ('a' <= c && c <= 'z') || ('A' <= c && c <= 'Z') {
            sanitize(raw)[j] == c
        } else {
            sanitize(raw)[j] == '_'
        }
    } by {
        assert(sanitize(raw)[j] == mapped[k + j]);
    }
    assert(stretch_of(raw, sanitize(raw), k));
    if sanitize(raw).len() > 0 {
        assert(sanitize(raw)[0] == front[0]);
    }
}

fn sanitize_component(raw: &str) -> (r: Vec<char>)
    ensures
        r@ == sanitize(raw@),
{
    let s = char_vec(raw);
    let mut mapped: Vec<char> = Vec::new();
    let mut i: usize = 0;
    while i < s.len()
        invariant
            s@ == raw@,
            i <= s.len(),
            mapped@.len() == i,
            forall|j: int| 0 <= j < i ==> #[trigger] mapped@[j] == safe_char(s@[j]),
        decreases s.len() - i,
    {
        let c = s[i];
        let keep = ('a' <= c && c <= 'z') || ('A' <= c && c <= 'Z') || ('0' <= c && c <= '9') || c == '.' || c == '_' || c == '-';
        mapped.push(if keep { c } else { '_' });
        i = i + 1;
    }
    assert(mapped@ =~= raw@.map_values(|c: char| safe_char(c)));
    chars_trim(TrimSet::Underscore, &mapped)
}

/// The first `n` characters of `s`, or all of them.
pub open spec fn truncated(s: Seq<char>, n: nat) -> Seq<char> {
    if n <= s.len() { s.take(n as int) } else { s }
}

fn truncate_chars(value: &Vec<char>, max_len: usize) -> (r: Vec<char>)
    ensures
        r@ == truncated(value@, max_len as nat),
{
    let r = chars_take(value, max_len);
    assert(max_len > value@.len() ==> value@.take(value@.len() as int) =~= value@);
    r
}

/// The mapper name for a tag: `lurker_` and at most 56 characters of the sanitized tag.
pub open spec fn spec_tag_mapper_name(raw_tag: Seq<char>) -> Result<Seq<char>, Seq<char>> {
    let safe = sanitize(raw_tag);
    if safe.len() == 0 {
        Err("Tag must contain at least one usable character."@)
    } else {
        Ok("lurker_"@ + truncated(safe, 56))
    }
}

/// The mapper name for a tag, refused when no usable character remains.
pub fn mapper_name_for_tag(raw_tag: &str) -> (r: AppResult<String>)
    ensures
        match (r, spec_tag_mapper_name(raw_tag@)) {
            (Ok(n), Ok(m)) => n@ == m,
            (Err(e), Err(m)) => e.message@ == m && e.exit_code == 1,
            _ => false,
        },
{
    let safe = sanitize_component(raw_tag);
    if safe.len() == 0 {
        return Err(AppError::new(owned("Tag must contain at least one usable character.")));
    }
    let short = truncate_chars(&safe, 56);
    let tail = string_from_chars(&short);
    Ok(concat2("lurker_", tail.as_str()))
}

/// The component naming a resolved path in its mapper name: the sanitized file name, or
/// `volume` when there is none or nothing usable remains of it.
pub open spec fn base_component(resolved_path: Seq<char>) -> Seq<char> {
    let base = match file_name(resolved_path) {
        Some(f) => f,
        None => "volume"@,
    };
    let safe = sanitize(base);
    if safe.len() == 0 { "volume"@ } else { safe }
}

/// The mapper name of a resolved source path: `lurker_`, at most 48 characters of its base
/// component, `_`, and the first 12 hex digits of the SHA-256 of the path's UTF-8 bytes.
pub open spec fn spec_path_mapper_name(resolved_path: Seq<char>) -> Seq<char> {
    "lurker_"@ + truncated(base_component(resolved_path), 48) + "_"@
        + hex_lower(sha256(vstd::utf8::encode_utf8(resolved_path))).take(12)
}

/// The mapper name of a resolved source path.
pub fn resolved_mapper_name_from_path(resolved_path: &str) -> (r: String)
    ensures
        r@ == spec_path_mapper_name(resolved_path@),
{
    let base = match path_file_name(resolved_path) {
        Some(f) => string_from_chars(&f),
        None => owned("volume"),
    };
    let safe = sanitize_component(base.as_str());
    let safe = if safe.len() == 0 { char_vec("volume") } else { safe };
    let digest = sha256_digest(resolved_path.as_bytes());
    let hex = hex_encode(&digest);
    proof {
        assert(hex_lower(digest@).len() == 64) by {
            lemma_hex_len(digest@);
        }
    }
    let checksum = chars_take(&hex, 12);
    let short = truncate_chars(&safe, 48);
    let mut name = owned("lurker_");
    let short_text = string_from_chars(&short);
    push_str(&mut name, short_text.as_str());
    push_str(&mut name, "_");
    let checksum_text = string_from_chars(&checksum);
    push_str(&mut name, checksum_text.as_str());
    name
}

proof fn lemma_hex_len(data: Seq<u8>)
    ensures
        hex_lower(data).len() == 2 * data.len(),
    decreases data.len(),
{
    if data.len() > 0 {
        lemma_hex_len(data.drop_last());
    }
}

/// The device node of a mapper: the name joined to `/dev/mapper`.
pub fn mapper_device_path(mapper_name: &str) -> (r: String)
    ensures
        r@ == path_join("/dev/mapper"@, mapper_name@),
{
    join_path("/dev/mapper", mapper_name)
}

/// The mapper name that a mapper reference names: what follows `/dev/mapper/`, or the
/// reference itself.
pub open spec fn spec_normalize_mapper_name(reference: Seq<char>) -> Seq<char> {
    if has_prefix(reference, "/dev/mapper/"@) {
        reference.skip(12)
    } else {
        reference
    }
}

/// The mapper name that a mapper path or bare name denotes.
pub fn normalize_mapper_name(mapper_reference: &str) -> (r: String)
    ensures
        r@ == spec_normalize_mapper_name(mapper_reference@),
{
    let s = char_vec(mapper_reference);
    let prefix = char_vec("/dev/mapper/");
    proof { reveal_strlit("/dev/mapper/"); }
    if chars_start_with(&s, &prefix) {
        let rest = chars_skip(&s, 12);
        string_from_chars(&rest)
    } else {
        owned(mapper_reference)
    }
}


/// The device path of a mapper names that mapper again: normalizing `/dev/mapper/<name>`
/// gives `<name>` back, for every name that is not itself such a path.
pub proof fn mapper_paths_name_their_mapper(name: Seq<char>)
    requires
        !has_prefix(name, "/dev/mapper/"@),
    ensures
        spec_normalize_mapper_name(path_join("/dev/mapper"@, name)) == name,
{
    reveal_strlit("/dev/mapper/");
    reveal_strlit("/dev/mapper");
    reveal_strlit("/");
    if !(name.len() > 0 && name[0] == '/') {
        let joined = "/dev/mapper"@ + "/"@ + name;
        assert(joined.take(12) =~= "/dev/mapper/"@);
        assert(joined.skip(12) =~= name);
    }
}

/// Every mapper name the tool makes starts with `lurker_`: a tag's name is `lurker_` and at
/// most 56 usable characters, a path's name carries at most 48 characters of the file name and
/// a 12-digit checksum.
pub proof fn mapper_names_start_with_lurker(raw_tag: Seq<char>, resolved_path: Seq<char>)
    ensures
        spec_tag_mapper_name(raw_tag) matches Ok(n) ==> has_prefix(n, "lurker_"@) && n.len() <= 63 && n.len() > 7,
        has_prefix(spec_path_mapper_name(resolved_path), "lurker_"@),
        sha256(vstd::utf8::encode_utf8(resolved_path)).len() == 32 ==> spec_path_mapper_name(resolved_path).len() <= 7 + 48 + 1 + 12,
{
    reveal_strlit("lurker_");
    reveal_strlit("_");
    if spec_tag_mapper_name(raw_tag) is Ok {
        let n = spec_tag_mapper_name(raw_tag)->Ok_0;
        assert(n.take(7) =~= "lurker_"@);
    }
    let name = spec_path_mapper_name(resolved_path);
    assert(name.take(7) =~= "lurker_"@);
    lemma_hex_len(sha256(vstd::utf8::encode_utf8(resolved_path)));
    assert(truncated(base_component(resolved_path), 48).len() <= 48);
    if sha256(vstd::utf8::encode_utf8(resolved_path)).len() == 32 {
        assert(hex_lower(sha256(vstd::utf8::encode_utf8(resolved_path))).take(12).len() == 12);
    }
}

} // verus!
