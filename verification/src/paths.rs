//! Path text: components, file names, equality and prefixes as `std::path::Path` sees them.

use vstd::prelude::*;
use crate::text::{char_vec, chars_eq, chars_take, owned, string_from_chars};

verus! {

broadcast use vstd::string::group_string_axioms;

/// Whether a piece between slashes is a named component (not empty, not `.`).
pub open spec fn named_piece(piece: Seq<char>) -> bool {
    piece.len() > 0 && piece != seq!['.']
}

/// The named pieces of `p` from position `from` on, with `current` the piece already begun.
pub open spec fn pieces_from(p: Seq<char>, from: int, current: Seq<char>) -> Seq<Seq<char>>
    decreases p.len() - from,
{
    if from >= p.len() {
        if named_piece(current) { seq![current] } else { Seq::empty() }
    } else if p[from] == '/' {
        if named_piece(current) {
            seq![current] + pieces_from(p, from + 1, Seq::empty())
        } else {
            pieces_from(p, from + 1, Seq::empty())
        }
    } else {
        pieces_from(p, from + 1, current.push(p[from]))
    }
}

/// The named components of `p`: the pieces between slashes other than empty ones and `.`.
pub open spec fn pieces(p: Seq<char>) -> Seq<Seq<char>> {
    pieces_from(p, 0, Seq::empty())
}

/// Whether `p` begins with a `.` component (`./x` or `.`), which `Path` keeps.
pub open spec fn leading_cur_dir(p: Seq<char>) -> bool {
    p.len() > 0 && p[0] == '.' && (p.len() == 1 || p[1] == '/')
}

/// Whether `p` is absolute.
pub open spec fn rooted(p: Seq<char>) -> bool {
    p.len() > 0 && p[0] == '/'
}

/// Whether two paths have the same components (`Path` equality).
pub open spec fn same_path(a: Seq<char>, b: Seq<char>) -> bool {
    rooted(a) == rooted(b) && leading_cur_dir(a) == leading_cur_dir(b) && pieces(a) == pieces(b)
}

/// The last component of `p` when it is a name (`Path::file_name`).
pub open spec fn file_name(p: Seq<char>) -> Option<Seq<char>> {
    let ps = pieces(p);
    if ps.len() == 0 || ps.last() == seq!['.', '.'] {
        None
    } else {
        Some(ps.last())
    }
}

/// Whether `p` lies in `/dev/mapper` (or is it), component by component.
pub open spec fn under_mapper_dir(p: Seq<char>) -> bool {
    let ps = pieces(p);
    rooted(p) && ps.len() >= 2 && ps[0] == seq!['d', 'e', 'v'] && ps[1] == seq!['m', 'a', 'p', 'p', 'e', 'r']
}

fn is_named(piece: &Vec<char>) -> (r: bool)
    ensures
        r == named_piece(piece@),
{
    if piece.len() == 0 {
        false
    } else if piece.len() == 1 && piece[0] == '.' {
        assert(piece@ =~= seq!['.']);
        false
    } else {
        assert(piece@.len() == 1 ==> piece@[0] != '.');
        true
    }
}

/// The named components of a path.
pub fn path_pieces(p: &str) -> (r: Vec<Vec<char>>)
    ensures
        r@.len() == pieces(p@).len(),
        forall|i: int| 0 <= i < r@.len() ==> #[trigger] r@[i]@ == pieces(p@)[i],
{
    let s = char_vec(p);
    let ghost w = s@;
    let mut out: Vec<Vec<char>> = Vec::new();
    let mut current: Vec<char> = Vec::new();
    let ghost done: Seq<Seq<char>> = Seq::empty();
    let mut k: usize = 0;
    while k < s.len()
        invariant
            w == s@,
            w == p@,
            k <= s.len(),
            out@.len() == done.len(),
            forall|i: int| 0 <= i < out@.len() ==> #[trigger] out@[i]@ == done[i],
            pieces(w) == done + pieces_from(w, k as int, current@),
        decreases s.len() - k,
    {
        let ghost before = done;
        if s[k] == '/' {
            if is_named(&current) {
                proof {
                    done = done.push(current@);
                    assert(before + (seq![current@] + pieces_from(w, k + 1, Seq::empty())) =~= done + pieces_from(w, k + 1, Seq::empty()));
                }
                out.push(current);
            }
            current = Vec::new();
            assert(current@ =~= Seq::<char>::empty());
        } else {
            current.push(s[k]);
        }
        k = k + 1;
    }
    if is_named(&current) {
        proof {
            done = done.push(current@);
        }
        out.push(current);
    }
    assert(pieces(w) =~= done);
    out
}

/// `Path` equality of two paths.
pub fn paths_equal(a: &str, b: &str) -> (r: bool)
    ensures
        r == same_path(a@, b@),
{
    let x = char_vec(a);
    let y = char_vec(b);
    let rooted_a = x.len() > 0 && x[0] == '/';
    let rooted_b = y.len() > 0 && y[0] == '/';
    let cur_a = x.len() > 0 && x[0] == '.' && (x.len() == 1 || x[1] == '/');
    let cur_b = y.len() > 0 && y[0] == '.' && (y.len() == 1 || y[1] == '/');
    if rooted_a != rooted_b || cur_a != cur_b {
        return false;
    }
    let pa = path_pieces(a);
    let pb = path_pieces(b);
    if pa.len() != pb.len() {
        return false;
    }
    let mut i: usize = 0;
    while i < pa.len()
        invariant
            pa.len() == pb.len(),
            pa@.len() == pieces(a@).len(),
            pb@.len() == pieces(b@).len(),
            forall|j: int| 0 <= j < pa@.len() ==> #[trigger] pa@[j]@ == pieces(a@)[j],
            forall|j: int| 0 <= j < pb@.len() ==> #[trigger] pb@[j]@ == pieces(b@)[j],
            i <= pa.len(),
            forall|j: int| 0 <= j < i ==> pieces(a@)[j] == pieces(b@)[j],
        decreases pa.len() - i,
    {
        if !chars_eq(&pa[i], &pb[i]) {
            assert(pieces(a@)[i as int] != pieces(b@)[i as int]);
            return false;
        }
        i = i + 1;
    }
    assert(pieces(a@) =~= pieces(b@));
    true
}

/// The file name of a path.
pub fn path_file_name(p: &str) -> (r: Option<Vec<char>>)
    ensures
        match (r, file_name(p@)) {
            (Some(v), Some(f)) => v@ == f,
            (None, None) => true,
            _ => false,
        },
{
    let mut ps = path_pieces(p);
    if ps.len() == 0 {
        return None;
    }
    let last = ps.pop().unwrap();
    assert(last@ == pieces(p@).last());
    if last.len() == 2 && last[0] == '.' && last[1] == '.' {
        assert(last@ =~= seq!['.', '.']);
        return None;
    }
    assert(last@ != seq!['.', '.']) by {
        if last@ == seq!['.', '.'] {
            assert(last@.len() == 2 && last@[0] == '.' && last@[1] == '.');
        }
    }
    Some(last)
}

/// Whether a path lies in `/dev/mapper`.
pub fn is_under_mapper_dir(p: &str) -> (r: bool)
    ensures
        r == under_mapper_dir(p@),
{
    let s = char_vec(p);
    if !(s.len() > 0 && s[0] == '/') {
        return false;
    }
    let ps = path_pieces(p);
    if ps.len() < 2 {
        return false;
    }
    let dev = char_vec("dev");
    let mapper = char_vec("mapper");
    proof {
        reveal_strlit("dev");
        reveal_strlit("mapper");
        assert("dev"@ =~= seq!['d', 'e', 'v']);
        assert("mapper"@ =~= seq!['m', 'a', 'p', 'p', 'e', 'r']);
    }
    chars_eq(&ps[0], &dev) && chars_eq(&ps[1], &mapper)
}


/// `p` without trailing slashes and trailing `.` components; a lone `/` stays.
pub open spec fn trim_tail(p: Seq<char>) -> Seq<char>
    decreases p.len(),
{
    if p.len() > 1 && p.last() == '/' {
        trim_tail(p.drop_last())
    } else if p.len() >= 2 && p.last() == '.' && p[p.len() - 2] == '/' {
        trim_tail(p.drop_last())
    } else {
        p
    }
}

/// The position of the last `/` of `s`, or -1.
pub open spec fn last_slash(s: Seq<char>) -> int
    decreases s.len(),
{
    if s.len() == 0 {
        -1
    } else if s.last() == '/' {
        s.len() - 1
    } else {
        last_slash(s.drop_last())
    }
}

/// The path without its last component (`Path::parent`): none for the root and the empty
/// path, the empty path for a bare name.
pub open spec fn parent(p: Seq<char>) -> Option<Seq<char>> {
    let t = trim_tail(p);
    if t.len() == 0 || t == seq!['/'] {
        None
    } else if last_slash(t) < 0 {
        Some(Seq::empty())
    } else if last_slash(t) == 0 {
        Some(seq!['/'])
    } else {
        Some(trim_tail(t.take(last_slash(t))))
    }
}

proof fn lemma_last_slash_bounds(s: Seq<char>)
    ensures
        -1 <= last_slash(s) < s.len(),
        last_slash(s) >= 0 ==> s[last_slash(s)] == '/',
    decreases s.len(),
{
    if s.len() > 0 && s.last() != '/' {
        lemma_last_slash_bounds(s.drop_last());
    }
}

/// The length of `trim_tail` of the first `n` characters of `s`.
fn trimmed_len(s: &Vec<char>, n: usize) -> (r: usize)
    requires
        n <= s.len(),
    ensures
        r <= n,
        s@.take(r as int) == trim_tail(s@.take(n as int)),
{
    let mut k = n;
    while (k > 1 && s[k - 1] == '/') || (k >= 2 && s[k - 1] == '.' && s[k - 2] == '/')
        invariant
            k <= n <= s.len(),
            trim_tail(s@.take(n as int)) == trim_tail(s@.take(k as int)),
        decreases k,
    {
        assert(s@.take(k as int).drop_last() =~= s@.take(k - 1));
        k = k - 1;
    }
    k
}

/// The parent of a path.
pub fn path_parent(p: &str) -> (r: Option<String>)
    ensures
        match (r, parent(p@)) {
            (Some(v), Some(q)) => v@ == q,
            (None, None) => true,
            _ => false,
        },
{
    let s = char_vec(p);
    assert(s@.take(s@.len() as int) =~= s@);
    let n = trimmed_len(&s, s.len());
    let ghost t = s@.take(n as int);
    if n == 0 || (n == 1 && s[0] == '/') {
        proof {
            if n == 1 {
                assert(t =~= seq!['/']);
            }
        }
        return None;
    }
    assert(t != seq!['/']) by {
        if t == seq!['/'] {
            assert(t[0] == s@[0]);
        }
    }
    let mut i = n;
    while i > 0 && s[i - 1] != '/'
        invariant
            i <= n <= s.len(),
            t == s@.take(n as int),
            last_slash(t) == last_slash(s@.take(i as int)),
        decreases i,
    {
        assert(s@.take(i as int).drop_last() =~= s@.take(i - 1));
        i = i - 1;
    }
    proof {
        if i > 0 {
            assert(s@.take(i as int).last() == s@[i - 1]);
        }
    }
    if i == 0 {
        proof { reveal_strlit(""); }
        return Some(owned(""));
    }
    if i == 1 {
        assert(seq!['/'] =~= s@.take(1));
        return Some(string_from_chars(&chars_take(&s, 1)));
    }
    assert(t.take(i - 1) =~= s@.take(i - 1));
    let m = trimmed_len(&s, i - 1);
    Some(string_from_chars(&chars_take(&s, m)))
}

} // verus!
