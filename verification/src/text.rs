//! Character-sequence helpers shared by the parsers and message builders.

use vstd::prelude::*;
use vstd::string::StringExecFns;

verus! {

broadcast use vstd::string::group_string_axioms;

/// The characters of `s`, in order.
pub fn char_vec(s: &str) -> (r: Vec<char>)
    ensures
        r@ == s@,
{
    let mut v: Vec<char> = Vec::new();
    for c in it: s.chars()
        invariant
            v@ == it.seq().take(it.index() as int),
    {
        v.push(c);
    }
    assert(v@ =~= s@);
    v
}

/// Collects characters into an owned `String` (std `FromIterator<&char> for String`).
#[verifier::external_body]
pub(crate) fn string_from_chars(v: &Vec<char>) -> (s: String)
    ensures
        s@ == v@,
{
    v.iter().collect()
}

/// An owned copy of `s`.
pub fn owned(s: &str) -> (r: String)
    ensures
        r@ == s@,
{
    s.to_string()
}

/// Appends `piece` to `out`.
pub fn push_str(out: &mut String, piece: &str)
    ensures
        final(out)@ == old(out)@ + piece@,
{
    out.append(piece);
}

/// `a` followed by `b`.
pub fn concat2(a: &str, b: &str) -> (r: String)
    ensures
        r@ == a@ + b@,
{
    let mut s = String::new();
    push_str(&mut s, a);
    push_str(&mut s, b);
    s
}

/// `a`, `b` and `c` one after the other.
pub fn concat3(a: &str, b: &str, c: &str) -> (r: String)
    ensures
        r@ == a@ + b@ + c@,
{
    let mut s = String::new();
    push_str(&mut s, a);
    push_str(&mut s, b);
    push_str(&mut s, c);
    s
}

/// Whether two character sequences are equal.
pub fn chars_eq(a: &Vec<char>, b: &Vec<char>) -> (r: bool)
    ensures
        r == (a@ == b@),
{
    if a.len() != b.len() {
        return false;
    }
    let mut i: usize = 0;
    while i < a.len()
        invariant
            a.len() == b.len(),
            i <= a.len(),
            forall|j: int| 0 <= j < i ==> a@[j] == b@[j],
        decreases a.len() - i,
    {
        if a[i] != b[i] {
            return false;
        }
        i = i + 1;
    }
    assert(a@ =~= b@);
    true
}

/// Whether two strings hold the same characters.
pub fn str_eq(a: &str, b: &str) -> (r: bool)
    ensures
        r == (a@ == b@),
{
    let x = char_vec(a);
    let y = char_vec(b);
    chars_eq(&x, &y)
}

/// Whether `s` begins with `prefix`.
pub open spec fn has_prefix(s: Seq<char>, prefix: Seq<char>) -> bool {
    prefix.len() <= s.len() && s.subrange(0, prefix.len() as int) == prefix
}

/// Whether the character sequence `s` begins with `prefix`.
pub fn chars_start_with(s: &Vec<char>, prefix: &Vec<char>) -> (r: bool)
    ensures
        r == has_prefix(s@, prefix@),
{
    if prefix.len() > s.len() {
        return false;
    }
    let mut i: usize = 0;
    while i < prefix.len()
        invariant
            prefix.len() <= s.len(),
            i <= prefix.len(),
            forall|j: int| 0 <= j < i ==> s@[j] == prefix@[j],
        decreases prefix.len() - i,
    {
        if s[i] != prefix[i] {
            return false;
        }
        i = i + 1;
    }
    assert(s@.subrange(0, prefix@.len() as int) =~= prefix@);
    true
}

/// Whether the string `s` begins with `prefix`.
pub fn str_starts_with(s: &str, prefix: &str) -> (r: bool)
    ensures
        r == has_prefix(s@, prefix@),
{
    let x = char_vec(s);
    let y = char_vec(prefix);
    chars_start_with(&x, &y)
}

/// The characters of `s` from position `start` on.
pub fn chars_skip(s: &Vec<char>, start: usize) -> (r: Vec<char>)
    requires
        start <= s.len(),
    ensures
        r@ == s@.subrange(start as int, s@.len() as int),
{
    let mut r: Vec<char> = Vec::new();
    let mut i = start;
    while i < s.len()
        invariant
            start <= i <= s.len(),
            r@ == s@.subrange(start as int, i as int),
        decreases s.len() - i,
    {
        r.push(s[i]);
        i = i + 1;
        assert(r@ =~= s@.subrange(start as int, i as int));
    }
    r
}

/// The first `n` characters of `s` (all of them if it is shorter).
pub fn chars_take(s: &Vec<char>, n: usize) -> (r: Vec<char>)
    ensures
        r@ == s@.take(if n <= s@.len() { n as int } else { s@.len() as int }),
{
    let end = if n <= s.len() { n } else { s.len() };
    let mut r: Vec<char> = Vec::new();
    let mut i: usize = 0;
    while i < end
        invariant
            end <= s.len(),
            i <= end,
            r@ == s@.take(i as int),
        decreases end - i,
    {
        r.push(s[i]);
        i = i + 1;
        assert(r@ =~= s@.take(i as int));
    }
    r
}

/// The whitespace characters that Rust's `char::is_whitespace` accepts.
pub open spec fn is_space(c: char) -> bool {
    c == ' ' || c == '\t' || c == '\n' || c == '\r' || c == '\u{0B}' || c == '\u{0C}'
        || c == '\u{85}' || c == '\u{A0}' || c == '\u{1680}' || ('\u{2000}' <= c && c <= '\u{200A}')
        || c == '\u{2028}' || c == '\u{2029}' || c == '\u{202F}' || c == '\u{205F}'
        || c == '\u{3000}'
}

/// Whether `c` is whitespace in Rust's sense.
pub fn char_is_space(c: char) -> (r: bool)
    ensures
        r == is_space(c),
{
    c == ' ' || c == '\t' || c == '\n' || c == '\r' || c == '\u{0B}' || c == '\u{0C}'
        || c == '\u{85}' || c == '\u{A0}' || c == '\u{1680}' || ('\u{2000}' <= c && c <= '\u{200A}')
        || c == '\u{2028}' || c == '\u{2029}' || c == '\u{202F}' || c == '\u{205F}'
        || c == '\u{3000}'
}

/// Which characters a trim removes.
#[derive(Clone, Copy, Debug, PartialEq, Eq, Structural)]
pub enum TrimSet {
    /// Whitespace (`str::trim`).
    Space,
    /// `_` (`str::trim_matches('_')`).
    Underscore,
    /// Whitespace and `=`.
    SpaceOrEquals,
}

/// Whether a trim of this kind removes `c`.
pub open spec fn trimmed_char(set: TrimSet, c: char) -> bool {
    match set {
        TrimSet::Space => is_space(c),
        TrimSet::Underscore => c == '_',
        TrimSet::SpaceOrEquals => is_space(c) || c == '=',
    }
}

/// `s` without the leading characters that a trim removes.
pub open spec fn trim_start(set: TrimSet, s: Seq<char>) -> Seq<char>
    decreases s.len(),
{
    if s.len() > 0 && trimmed_char(set, s[0]) {
        trim_start(set, s.drop_first())
    } else {
        s
    }
}

/// `s` without the trailing characters that a trim removes.
pub open spec fn trim_end(set: TrimSet, s: Seq<char>) -> Seq<char>
    decreases s.len(),
{
    if s.len() > 0 && trimmed_char(set, s.last()) {
        trim_end(set, s.drop_last())
    } else {
        s
    }
}

/// `s` without whitespace at either end (`str::trim`).
pub open spec fn trim(s: Seq<char>) -> Seq<char> {
    trim_end(TrimSet::Space, trim_start(TrimSet::Space, s))
}

/// `s` without `_` at either end (`str::trim_matches('_')`).
pub open spec fn trim_underscores(s: Seq<char>) -> Seq<char> {
    trim_end(TrimSet::Underscore, trim_start(TrimSet::Underscore, s))
}

fn trimmed_char_exec(set: TrimSet, c: char) -> (r: bool)
    ensures
        r == trimmed_char(set, c),
{
    match set {
        TrimSet::Space => char_is_space(c),
        TrimSet::Underscore => c == '_',
        TrimSet::SpaceOrEquals => char_is_space(c) || c == '=',
    }
}

fn leading_trim_len(set: TrimSet, s: &Vec<char>) -> (i: usize)
    ensures
        i <= s.len(),
        trim_start(set, s@) == s@.subrange(i as int, s@.len() as int),
{
    let mut i: usize = 0;
    assert(s@.subrange(0, s@.len() as int) =~= s@);
    while i < s.len() && trimmed_char_exec(set, s[i])
        invariant
            i <= s.len(),
            trim_start(set, s@) == trim_start(set, s@.subrange(i as int, s@.len() as int)),
        decreases s.len() - i,
    {
        assert(s@.subrange(i as int, s@.len() as int).drop_first() =~= s@.subrange(i + 1, s@.len() as int));
        i = i + 1;
    }
    i
}

/// `s` without the leading characters that a trim removes.
pub fn chars_trim_start(set: TrimSet, s: &Vec<char>) -> (r: Vec<char>)
    ensures
        r@ == trim_start(set, s@),
{
    let i = leading_trim_len(set, s);
    chars_skip(s, i)
}

/// `s` without the characters that a trim removes at either end.
pub fn chars_trim(set: TrimSet, s: &Vec<char>) -> (r: Vec<char>)
    ensures
        r@ == trim_end(set, trim_start(set, s@)),
{
    let i = leading_trim_len(set, s);
    let mut j: usize = s.len();
    while j > i && trimmed_char_exec(set, s[j - 1])
        invariant
            i <= j <= s.len(),
            trim_end(set, s@.subrange(i as int, s@.len() as int)) == trim_end(set, s@.subrange(i as int, j as int)),
        decreases j - i,
    {
        assert(s@.subrange(i as int, j as int).drop_last() =~= s@.subrange(i as int, j - 1));
        j = j - 1;
    }
    let mut r: Vec<char> = Vec::new();
    let mut k = i;
    while k < j
        invariant
            i <= k <= j <= s.len(),
            r@ == s@.subrange(i as int, k as int),
        decreases j - k,
    {
        r.push(s[k]);
        k = k + 1;
        assert(r@ =~= s@.subrange(i as int, k as int));
    }
    r
}

/// `s` without whitespace at either end.
pub fn str_trim(s: &str) -> (r: Vec<char>)
    ensures
        r@ == trim(s@),
{
    let v = char_vec(s);
    chars_trim(TrimSet::Space, &v)
}

/// The ASCII lowercase of a character (other characters unchanged).
pub open spec fn ascii_lower(c: char) -> char {
    if 'A' <= c && c <= 'Z' {
        ((c as u32) + 32) as char
    } else {
        c
    }
}

/// The ASCII lowercase of a sequence (`str::to_ascii_lowercase`).
pub open spec fn ascii_lowercase(s: Seq<char>) -> Seq<char> {
    s.map_values(|c: char| ascii_lower(c))
}

fn lower_char(c: char) -> (r: char)
    ensures
        r == ascii_lower(c),
{
    if 'A' <= c && c <= 'Z' {
        let code = (c as u8) + 32;
        code as char
    } else {
        c
    }
}

/// The ASCII lowercase of `s`.
pub fn chars_lowercase(s: &Vec<char>) -> (r: Vec<char>)
    ensures
        r@ == ascii_lowercase(s@),
{
    let mut r: Vec<char> = Vec::new();
    let mut i: usize = 0;
    while i < s.len()
        invariant
            i <= s.len(),
            r@.len() == i,
            forall|j: int| 0 <= j < i ==> #[trigger] r@[j] == ascii_lower(s@[j]),
        decreases s.len() - i,
    {
        r.push(lower_char(s[i]));
        i = i + 1;
    }
    assert(r@ =~= ascii_lowercase(s@));
    r
}

/// Whether two names are equal ignoring ASCII case (`str::eq_ignore_ascii_case`).
pub open spec fn eq_ignore_case(a: Seq<char>, b: Seq<char>) -> bool {
    ascii_lowercase(a) == ascii_lowercase(b)
}

/// Whether `a` and `b` are equal ignoring ASCII case.
pub fn chars_eq_ignore_case(a: &Vec<char>, b: &Vec<char>) -> (r: bool)
    ensures
        r == eq_ignore_case(a@, b@),
{
    let la = chars_lowercase(a);
    let lb = chars_lowercase(b);
    chars_eq(&la, &lb)
}

/// Whether `needle` occurs in `s` at position `at`.
pub open spec fn occurs_at(s: Seq<char>, needle: Seq<char>, at: int) -> bool {
    0 <= at && at + needle.len() <= s.len() && s.subrange(at, at + needle.len()) == needle
}

/// Whether `needle` occurs in `s` (`str::contains`).
pub open spec fn contains_text(s: Seq<char>, needle: Seq<char>) -> bool {
    exists|at: int| occurs_at(s, needle, at)
}

/// `s` with every occurrence of `pat` from position `i` on replaced by `rep`, left to right.
pub open spec fn replace_from(s: Seq<char>, pat: Seq<char>, rep: Seq<char>, i: int) -> Seq<char>
    decreases s.len() - i,
{
    if i < 0 || i >= s.len() || pat.len() == 0 {
        if 0 <= i < s.len() { s.skip(i) } else { Seq::empty() }
    } else if occurs_at(s, pat, i) {
        rep + replace_from(s, pat, rep, i + pat.len())
    } else {
        seq![s[i]] + replace_from(s, pat, rep, i + 1)
    }
}

fn chars_occur_at(s: &Vec<char>, needle: &Vec<char>, at: usize) -> (r: bool)
    ensures
        r == occurs_at(s@, needle@, at as int),
{
    if at > s.len() || needle.len() > s.len() - at {
        return false;
    }
    let mut j: usize = 0;
    while j < needle.len()
        invariant
            at + needle.len() <= s.len(),
            j <= needle.len(),
            forall|q: int| 0 <= q < j ==> s@[at + q] == needle@[q],
        decreases needle.len() - j,
    {
        if s[at + j] != needle[j] {
            assert(!occurs_at(s@, needle@, at as int)) by {
                if occurs_at(s@, needle@, at as int) {
                    assert(s@.subrange(at as int, at + needle@.len())[j as int] == s@[at + j]);
                }
            }
            return false;
        }
        j = j + 1;
    }
    assert(s@.subrange(at as int, at + needle@.len()) =~= needle@);
    true
}

/// `s` with every occurrence of `pat` replaced by `rep`, left to right (`str::replace`).
pub fn replace_all(s: &str, pat: &str, rep: &str) -> (r: String)
    requires
        pat@.len() > 0,
    ensures
        r@ == replace_from(s@, pat@, rep@, 0),
{
    let sv = char_vec(s);
    let pv = char_vec(pat);
    let mut out = String::new();
    let mut i: usize = 0;
    while i < sv.len()
        invariant
            sv@ == s@,
            pv@ == pat@,
            pv@.len() > 0,
            i <= sv.len(),
            replace_from(s@, pat@, rep@, 0) == out@ + replace_from(s@, pat@, rep@, i as int),
        decreases sv.len() - i,
    {
        let ghost before = out@;
        if chars_occur_at(&sv, &pv, i) {
            push_str(&mut out, rep);
            assert(before + (rep@ + replace_from(s@, pat@, rep@, i + pat@.len())) =~= out@ + replace_from(s@, pat@, rep@, i + pat@.len()));
            i = i + pv.len();
        } else {
            let one: Vec<char> = vec![sv[i]];
            let piece = string_from_chars(&one);
            push_str(&mut out, piece.as_str());
            assert(one@ =~= seq![s@[i as int]]);
            assert(before + (seq![s@[i as int]] + replace_from(s@, pat@, rep@, i + 1)) =~= out@ + replace_from(s@, pat@, rep@, i + 1));
            i = i + 1;
        }
    }
    assert(out@ =~= out@ + replace_from(s@, pat@, rep@, i as int));
    out
}

/// Whether `needle` occurs in `s`.
pub fn chars_contain(s: &Vec<char>, needle: &Vec<char>) -> (r: bool)
    ensures
        r == contains_text(s@, needle@),
{
    if needle.len() > s.len() {
        assert(forall|at: int| !occurs_at(s@, needle@, at));
        return false;
    }
    let mut at: usize = 0;
    while at <= s.len() - needle.len()
        invariant
            needle.len() <= s.len(),
            at <= s.len() - needle.len() + 1,
            forall|p: int| 0 <= p < at ==> !occurs_at(s@, needle@, p),
        decreases s.len() - at,
    {
        let mut j: usize = 0;
        let mut same = true;
        while j < needle.len()
            invariant
                at + needle.len() <= s.len(),
                j <= needle.len(),
                same == (forall|q: int| 0 <= q < j ==> s@[at + q] == needle@[q]),
            decreases needle.len() - j,
        {
            if s[at + j] != needle[j] {
                same = false;
            }
            j = j + 1;
        }
        if same {
            assert(s@.subrange(at as int, at + needle@.len()) =~= needle@);
            assert(occurs_at(s@, needle@, at as int));
            return true;
        }
        assert(!occurs_at(s@, needle@, at as int)) by {
            if occurs_at(s@, needle@, at as int) {
                assert forall|q: int| 0 <= q < needle@.len() implies s@[at + q] == needle@[q] by {
                    assert(s@.subrange(at as int, at + needle@.len())[q] == s@[at + q]);
                }
            }
        }
        at = at + 1;
    }
    assert forall|p: int| !occurs_at(s@, needle@, p) by {
        if 0 <= p && p < at {
        }
    }
    false
}

/// `part` appended to the path `base` as `Path::join` does: an absolute `part` replaces `base`,
/// otherwise one `/` separates them unless `base` is empty or already ends with one.
pub open spec fn path_join(base: Seq<char>, part: Seq<char>) -> Seq<char> {
    if part.len() > 0 && part[0] == '/' {
        part
    } else if base.len() == 0 || base.last() == '/' {
        base + part
    } else {
        base + "/"@ + part
    }
}

/// The path `base` joined with `part`.
pub fn join_path(base: &str, part: &str) -> (r: String)
    ensures
        r@ == path_join(base@, part@),
{
    let b = char_vec(base);
    let p = char_vec(part);
    if p.len() > 0 && p[0] == '/' {
        owned(part)
    } else if b.len() == 0 || b[b.len() - 1] == '/' {
        concat2(base, part)
    } else {
        concat3(base, "/", part)
    }
}

/// The digit character for a value below ten.
pub open spec fn digit_char(d: nat) -> char {
    if d == 0 { '0' } else if d == 1 { '1' } else if d == 2 { '2' } else if d == 3 { '3' }
    else if d == 4 { '4' } else if d == 5 { '5' } else if d == 6 { '6' } else if d == 7 { '7' }
    else if d == 8 { '8' } else { '9' }
}

/// The decimal notation of `n`, without leading zeros.
pub open spec fn decimal(n: nat) -> Seq<char>
    decreases n,
{
    if n < 10 {
        seq![digit_char(n)]
    } else {
        decimal(n / 10).push(digit_char(n % 10))
    }
}

fn digit_of(d: u128) -> (c: char)
    requires
        d < 10,
    ensures
        c == digit_char(d as nat),
{
    if d == 0 { '0' } else if d == 1 { '1' } else if d == 2 { '2' } else if d == 3 { '3' }
    else if d == 4 { '4' } else if d == 5 { '5' } else if d == 6 { '6' } else if d == 7 { '7' }
    else if d == 8 { '8' } else { '9' }
}

fn push_decimal(n: u128, out: &mut Vec<char>)
    ensures
        final(out)@ == old(out)@ + decimal(n as nat),
    decreases n,
{
    if n >= 10 {
        push_decimal(n / 10, out);
    }
    out.push(digit_of(n % 10));
    assert(out@ =~= old(out)@ + decimal(n as nat));
}

/// The decimal notation of `n`.
pub fn decimal_string(n: u64) -> (r: String)
    ensures
        r@ == decimal(n as nat),
{
    decimal_string_wide(n as u128)
}

/// The decimal notation of a 128-bit `n`.
pub fn decimal_string_wide(n: u128) -> (r: String)
    ensures
        r@ == decimal(n as nat),
{
    let mut v: Vec<char> = Vec::new();
    push_decimal(n, &mut v);
    assert(v@ =~= decimal(n as nat));
    string_from_chars(&v)
}

/// The position of the first `c` in `s`, or the length of `s` when there is none.
pub open spec fn first_index(s: Seq<char>, c: char) -> nat
    decreases s.len(),
{
    if s.len() == 0 {
        0
    } else if s[0] == c {
        0
    } else {
        1 + first_index(s.drop_first(), c)
    }
}

/// The first `c` in `s` is at `k` (or there is none and `k` is the length).
pub proof fn lemma_first_index(s: Seq<char>, c: char, k: int)
    requires
        0 <= k <= s.len(),
        forall|j: int| 0 <= j < k ==> s[j] != c,
        k == s.len() || s[k] == c,
    ensures
        first_index(s, c) == k,
    decreases k,
{
    if k > 0 {
        assert(s[0] != c);
        let t = s.drop_first();
        assert forall|j: int| 0 <= j < k - 1 implies t[j] != c by {
            assert(t[j] == s[j + 1]);
        }
        lemma_first_index(t, c, k - 1);
    }
}

/// A line without the `\r` of a `\r\n` ending.
pub open spec fn strip_cr(line: Seq<char>) -> Seq<char> {
    if line.len() > 0 && line.last() == '\r' {
        line.drop_last()
    } else {
        line
    }
}

/// The lines of `s` (`str::lines`): split at `\n`, a `\r` before the `\n` dropped, and no empty
/// last line after a final line ending.
pub open spec fn lines(s: Seq<char>) -> Seq<Seq<char>>
    decreases s.len(),
{
    if s.len() == 0 {
        Seq::empty()
    } else {
        let i = first_index(s, '\n');
        if i >= s.len() {
            seq![s]
        } else {
            seq![strip_cr(s.take(i as int))] + lines(s.skip(i + 1 as int))
        }
    }
}

/// The lines of `s`.
pub fn split_lines(s: &str) -> (r: Vec<Vec<char>>)
    ensures
        r@.len() == lines(s@).len(),
        forall|i: int| 0 <= i < r@.len() ==> #[trigger] r@[i]@ == lines(s@)[i],
{
    let chars = char_vec(s);
    let ghost whole = chars@;
    let mut out: Vec<Vec<char>> = Vec::new();
    let mut current: Vec<char> = Vec::new();
    let mut start: usize = 0;
    let mut k: usize = 0;
    let ghost done: Seq<Seq<char>> = Seq::empty();
    assert(whole.skip(0) =~= whole);
    assert(done + lines(whole) =~= lines(whole));
    while k < chars.len()
        invariant
            whole == chars@,
            start <= k <= chars.len(),
            current@ == whole.subrange(start as int, k as int),
            forall|j: int| start <= j < k ==> whole[j] != '\n',
            out@.len() == done.len(),
            forall|i: int| 0 <= i < out@.len() ==> #[trigger] out@[i]@ == done[i],
            lines(whole) == done + lines(whole.skip(start as int)),
        decreases chars.len() - k,
    {
        if chars[k] == '\n' {
            let ghost rest = whole.skip(start as int);
            let ghost old_done = done;
            proof {
                assert forall|j: int| 0 <= j < k - start implies rest[j] != '\n' by {
                    assert(rest[j] == whole[start + j]);
                }
                assert(rest[k - start] == '\n');
                lemma_first_index(rest, '\n', k - start);
                assert(rest.take(k - start) =~= current@);
                assert(rest.skip(k - start + 1) =~= whole.skip(k + 1));
                assert(lines(rest) == seq![strip_cr(current@)] + lines(whole.skip(k + 1)));
            }
            let mut line = current;
            if line.len() > 0 && line[line.len() - 1] == '\r' {
                line.pop();
            }
            proof {
                assert(line@ =~= strip_cr(whole.subrange(start as int, k as int)));
                done = done.push(line@);
                assert(old_done + (seq![line@] + lines(whole.skip(k + 1))) =~= done + lines(whole.skip(k + 1)));
            }
            out.push(line);
            current = Vec::new();
            k = k + 1;
            start = k;
            assert(current@ =~= whole.subrange(start as int, k as int));
        } else {
            current.push(chars[k]);
            k = k + 1;
            assert(current@ =~= whole.subrange(start as int, k as int));
        }
    }
    if start < chars.len() {
        let ghost rest = whole.skip(start as int);
        proof {
            assert forall|j: int| 0 <= j < rest.len() implies rest[j] != '\n' by {
                assert(rest[j] == whole[start + j]);
            }
            lemma_first_index(rest, '\n', rest.len() as int);
            assert(rest =~= current@);
            done = done.push(current@);
            assert(lines(whole) == done);
        }
        out.push(current);
    } else {
        assert(whole.skip(start as int).len() == 0);
        assert(lines(whole) =~= done);
    }
    out
}

} // verus!
