//! What the workflows ask of the file system: what a path is, its canonical form, the mount
//! table, and which mapper backs a device, a mountpoint or a container.

use vstd::prelude::*;
use crate::error::io_message;
use crate::model::{ResolvedTargetKind, SourceKind};
use crate::mountinfo::MountInfo;
use crate::paths::{file_name, parent, path_file_name, path_parent, paths_equal, same_path};
use crate::session::{
    after, asked_at, fail, io_error, journal, lemma_asked_journal, mismatch_message, queries_since, quiet, settles, Effect,
    FileFacts, FileKind, Halt, IoFailure, Outcome, QueryView, Reply, Session, Step,
};
use crate::text::{concat2, join_path, owned, path_join, string_from_chars};

verus! {

broadcast use vstd::string::group_string_axioms, vstd::seq_lib::lemma_seq_skip_of_skip, crate::session::lemma_queries_chain;

/// What resolving the canonical form of `path` comes to on `js`, given the message for a
/// failure to resolve it: the canonical form, or that failure's message.
pub open spec fn resolved_outcome(js: Seq<Reply>, subject: Seq<char>) -> Outcome<Seq<char>> {
    match canonicalize_outcome(subject, js) {
        Outcome::Ends { result: Ok(Ok(c)), used } => Outcome::Ends { result: Ok(c@), used },
        Outcome::Ends { result: Ok(Err(f)), used } => Outcome::Ends {
            result: Err(io_message("Failed to resolve "@ + subject, f.message@)),
            used,
        },
        Outcome::Ends { result: Err(m), used } => Outcome::Ends { result: Err(m), used },
        Outcome::Short(w) => Outcome::Short(w),
    }
}

/// What `absolute_path` comes to on a journal: the canonical form of an existing path;
/// otherwise, for a path with a file name, that name joined to the canonical form of its
/// parent (`.` when it has none).
pub open spec fn absolute_outcome(path: Seq<char>, js: Seq<Reply>) -> Outcome<Seq<char>> {
    match exists_outcome(path, js) {
        Outcome::Short(w) => Outcome::Short(w),
        Outcome::Ends { result: Err(m), used } => Outcome::Ends { result: Err(m), used },
        Outcome::Ends { result: Ok(true), used } => after(used, resolved_outcome(js.skip(used as int), path)),
        Outcome::Ends { result: Ok(false), used } => {
            let dir = match parent(path) {
                Some(d) => d,
                None => "."@,
            };
            match file_name(path) {
                None => Outcome::Ends { result: Err("Path is missing a usable file name: "@ + path), used },
                Some(base) => match resolved_outcome(js.skip(used as int), dir) {
                    Outcome::Ends { result: Ok(c), used: u2 } => Outcome::Ends { result: Ok(path_join(c, base)), used: used + u2 },
                    other => after(used, other),
                },
            }
        },
    }
}

/// What `absolute_path` asks of the system: whether `path` exists, then the canonical form of
/// the path, or of its parent when it does not exist and has a file name.
pub open spec fn absolute_queries(path: Seq<char>, js: Seq<Reply>) -> Seq<QueryView> {
    seq![QueryView::Metadata(path)] + match exists_outcome(path, js) {
        Outcome::Ends { result: Ok(true), .. } => seq![QueryView::Canonicalize(path)],
        Outcome::Ends { result: Ok(false), .. } => if file_name(path) is Some {
            seq![QueryView::Canonicalize(match parent(path) { Some(d) => d, None => "."@ })]
        } else {
            Seq::empty()
        },
        _ => Seq::empty(),
    }
}

/// After a successful single request, exactly one more reply was consumed; a failure is a
/// reply that did not match its request.
pub open spec fn one_more_answer<T>(old: Session, new: Session, r: Step<T>) -> bool {
    &&& r is Ok ==> new.answered@.len() == old.answered@.len() + 1 && old.replies@.len() > 0
    &&& r matches Err(Halt::Failed(e)) ==> e.message@ == crate::session::mismatch_message()
}

/// Whether `r` answers a metadata request with an entry of kind `kind`.
pub open spec fn facts_say(r: Reply, kind: FileKind) -> bool {
    r matches Reply::Facts(Ok(f)) && f.kind == kind
}

/// Whether the last request of `s` was the metadata of `path`.
pub open spec fn last_asked_metadata(s: Session, path: Seq<char>) -> bool {
    &&& s.issued@.len() > 0
    &&& s.issued@.last() matches Effect::Metadata { path: p } && p@ == path
}

/// A step that consumes one reply and ends with `result`.
pub open spec fn ends_after_one<V>(result: Result<V, Seq<char>>) -> Outcome<V> {
    Outcome::Ends { result, used: 1 }
}

/// What a metadata request comes to: the facts or the failure in its reply.
pub open spec fn facts_outcome(q: QueryView, js: Seq<Reply>) -> Outcome<Result<FileFacts, IoFailure>> {
    if js.len() == 0 {
        Outcome::Short(Some(q))
    } else {
        match js[0] {
            Reply::Facts(x) => ends_after_one(Ok(x)),
            _ => ends_after_one(Err(mismatch_message())),
        }
    }
}

/// What a test of the kind of an entry comes to: whether its reply names an entry of `kind`.
pub open spec fn kind_outcome(path: Seq<char>, js: Seq<Reply>, kind: FileKind) -> Outcome<bool> {
    match facts_outcome(QueryView::Metadata(path), js) {
        Outcome::Ends { result: Ok(x), used } => Outcome::Ends { result: Ok(x matches Ok(f) && f.kind == kind), used },
        Outcome::Ends { result: Err(m), used } => Outcome::Ends { result: Err(m), used },
        Outcome::Short(w) => Outcome::Short(w),
    }
}

/// What a test of existence comes to: whether its reply holds facts.
pub open spec fn exists_outcome(path: Seq<char>, js: Seq<Reply>) -> Outcome<bool> {
    match facts_outcome(QueryView::Metadata(path), js) {
        Outcome::Ends { result: Ok(x), used } => Outcome::Ends { result: Ok(x is Ok), used },
        Outcome::Ends { result: Err(m), used } => Outcome::Ends { result: Err(m), used },
        Outcome::Short(w) => Outcome::Short(w),
    }
}

/// What a test of the kind of container comes to: a block device, a regular file, or
/// neither (also when the entry is missing).
pub open spec fn source_kind_outcome(path: Seq<char>, js: Seq<Reply>) -> Outcome<Option<SourceKind>> {
    match facts_outcome(QueryView::Metadata(path), js) {
        Outcome::Ends { result: Ok(x), used } => Outcome::Ends {
            result: Ok(
                if x matches Ok(f) && f.kind == FileKind::Block {
                    Some(SourceKind::Block)
                } else if x matches Ok(f) && f.kind == FileKind::File {
                    Some(SourceKind::File)
                } else {
                    None
                },
            ),
            used,
        },
        Outcome::Ends { result: Err(m), used } => Outcome::Ends { result: Err(m), used },
        Outcome::Short(w) => Outcome::Short(w),
    }
}

/// What a request for a canonical form comes to: the form or the failure in its reply.
pub open spec fn canonicalize_outcome(path: Seq<char>, js: Seq<Reply>) -> Outcome<Result<String, IoFailure>> {
    if js.len() == 0 {
        Outcome::Short(Some(QueryView::Canonicalize(path)))
    } else {
        match js[0] {
            Reply::Canonical(x) => ends_after_one(Ok(x)),
            _ => ends_after_one(Err(mismatch_message())),
        }
    }
}

/// What the canonical form of a device path comes to: the form in the reply, or the path
/// itself when it could not be resolved.
pub open spec fn canonical_outcome(path: Seq<char>, js: Seq<Reply>) -> Outcome<Seq<char>> {
    match canonicalize_outcome(path, js) {
        Outcome::Ends { result: Ok(x), used } => Outcome::Ends {
            result: Ok(
                match x {
                    Ok(c) => c@,
                    Err(_) => path,
                },
            ),
            used,
        },
        Outcome::Ends { result: Err(m), used } => Outcome::Ends { result: Err(m), used },
        Outcome::Short(w) => Outcome::Short(w),
    }
}

/// What reading the mount table comes to: the mounts in the reply, or the error of reading it.
pub open spec fn mounts_outcome(js: Seq<Reply>) -> Outcome<Seq<MountInfo>> {
    if js.len() == 0 {
        Outcome::Short(Some(QueryView::ReadMounts))
    } else {
        match js[0] {
            Reply::Mounts(Ok(ms)) => ends_after_one(Ok(ms@)),
            Reply::Mounts(Err(f)) => ends_after_one(Err(io_message("Failed to read /proc/self/mountinfo"@, f.message@))),
            _ => ends_after_one(Err(mismatch_message())),
        }
    }
}

/// What listing a directory comes to: the entries or the failure in the reply.
pub open spec fn entries_outcome(path: Seq<char>, js: Seq<Reply>) -> Outcome<Result<Vec<Result<String, IoFailure>>, IoFailure>> {
    if js.len() == 0 {
        Outcome::Short(Some(QueryView::ListDir(path)))
    } else {
        match js[0] {
            Reply::Entries(x) => ends_after_one(Ok(x)),
            _ => ends_after_one(Err(mismatch_message())),
        }
    }
}

/// What reading a file comes to: the text or the failure in the reply.
pub open spec fn text_outcome(path: Seq<char>, js: Seq<Reply>) -> Outcome<Result<String, IoFailure>> {
    if js.len() == 0 {
        Outcome::Short(Some(QueryView::ReadText(path)))
    } else {
        match js[0] {
            Reply::Text(x) => ends_after_one(Ok(x)),
            _ => ends_after_one(Err(mismatch_message())),
        }
    }
}

/// The metadata of a path, following links.
pub fn metadata(s: &mut Session, path: &str) -> (r: Step<Result<FileFacts, IoFailure>>)
    ensures
        queries_since(*old(s), *final(s)) == seq![QueryView::Metadata(path@)],
        asked_at(*old(s), *final(s), 0, QueryView::Metadata(path@)),
        one_more_answer(*old(s), *final(s), r),
        quiet(*old(s), *final(s)),
        final(s).issued@.len() == old(s).issued@.len() + 1,
        last_asked_metadata(*final(s), path@),
        r matches Ok(x) ==> final(s).answered@.last() == Reply::Facts(x),
        settles(*old(s), *final(s), r, facts_outcome(QueryView::Metadata(path@), journal(*old(s))), |x: Result<FileFacts, IoFailure>| x),
{
    let e = Effect::Metadata { path: owned(path) };
    let ghost asked_for = e;
    let r = s.ask_facts(e);
    proof {
        lemma_asked_journal(*old(s), *s, asked_for);
        assert(crate::session::issued_since(*old(s), *s) =~= seq![asked_for]);
        crate::session::lemma_one_query(asked_for);
    }
    r
}

/// Whether a path is a block device.
pub fn is_block_device_target(s: &mut Session, path: &str) -> (r: Step<bool>)
    ensures
        queries_since(*old(s), *final(s)) == seq![QueryView::Metadata(path@)],
        asked_at(*old(s), *final(s), 0, QueryView::Metadata(path@)),
        one_more_answer(*old(s), *final(s), r),
        quiet(*old(s), *final(s)),
        final(s).issued@.len() == old(s).issued@.len() + 1,
        last_asked_metadata(*final(s), path@),
        r matches Ok(b) ==> b == facts_say(final(s).answered@.last(), FileKind::Block),
        r is Ok ==> final(s).answered@.last() is Facts,
        settles(*old(s), *final(s), r, kind_outcome(path@, journal(*old(s)), FileKind::Block), |b: bool| b),
{
    match metadata(s, path)? {
        Ok(f) => Ok(f.kind == FileKind::Block),
        Err(_) => Ok(false),
    }
}

/// Whether a path is a directory.
pub fn is_dir(s: &mut Session, path: &str) -> (r: Step<bool>)
    ensures
        queries_since(*old(s), *final(s)) == seq![QueryView::Metadata(path@)],
        asked_at(*old(s), *final(s), 0, QueryView::Metadata(path@)),
        one_more_answer(*old(s), *final(s), r),
        quiet(*old(s), *final(s)),
        final(s).issued@.len() == old(s).issued@.len() + 1,
        last_asked_metadata(*final(s), path@),
        r matches Ok(b) ==> b == facts_say(final(s).answered@.last(), FileKind::Dir),
        settles(*old(s), *final(s), r, kind_outcome(path@, journal(*old(s)), FileKind::Dir), |b: bool| b),
{
    match metadata(s, path)? {
        Ok(f) => Ok(f.kind == FileKind::Dir),
        Err(_) => Ok(false),
    }
}

/// Whether a path exists (links followed).
pub fn path_exists(s: &mut Session, path: &str) -> (r: Step<bool>)
    ensures
        queries_since(*old(s), *final(s)) == seq![QueryView::Metadata(path@)],
        asked_at(*old(s), *final(s), 0, QueryView::Metadata(path@)),
        one_more_answer(*old(s), *final(s), r),
        quiet(*old(s), *final(s)),
        final(s).issued@.len() == old(s).issued@.len() + 1,
        last_asked_metadata(*final(s), path@),
        r matches Ok(b) ==> b == (final(s).answered@.last() matches Reply::Facts(Ok(_))),
        settles(*old(s), *final(s), r, exists_outcome(path@, journal(*old(s))), |b: bool| b),
{
    match metadata(s, path)? {
        Ok(_) => Ok(true),
        Err(_) => Ok(false),
    }
}

/// What kind of container a path is: a block device, a regular file, or neither.
pub fn source_kind_for_path(s: &mut Session, path: &str) -> (r: Step<Option<SourceKind>>)
    ensures
        queries_since(*old(s), *final(s)) == seq![QueryView::Metadata(path@)],
        asked_at(*old(s), *final(s), 0, QueryView::Metadata(path@)),
        one_more_answer(*old(s), *final(s), r),
        quiet(*old(s), *final(s)),
        last_asked_metadata(*final(s), path@),
        r matches Ok(k) ==> k == (if facts_say(final(s).answered@.last(), FileKind::Block) {
            Some(SourceKind::Block)
        } else if facts_say(final(s).answered@.last(), FileKind::File) {
            Some(SourceKind::File)
        } else {
            None
        }),
        settles(*old(s), *final(s), r, source_kind_outcome(path@, journal(*old(s))), |k: Option<SourceKind>| k),
{
    match metadata(s, path)? {
        Ok(f) => Ok(match f.kind {
            FileKind::Block => Some(SourceKind::Block),
            FileKind::File => Some(SourceKind::File),
            _ => None,
        }),
        Err(_) => Ok(None),
    }
}

/// The canonical form of a path.
pub fn canonicalize(s: &mut Session, path: &str) -> (r: Step<Result<String, IoFailure>>)
    ensures
        queries_since(*old(s), *final(s)) == seq![QueryView::Canonicalize(path@)],
        asked_at(*old(s), *final(s), 0, QueryView::Canonicalize(path@)),
        one_more_answer(*old(s), *final(s), r),
        quiet(*old(s), *final(s)),
        final(s).issued@.len() == old(s).issued@.len() + 1,
        final(s).issued@.last() matches Effect::Canonicalize { path: p } && p@ == path@,
        r matches Ok(x) ==> final(s).answered@.last() == Reply::Canonical(x),
        settles(*old(s), *final(s), r, canonicalize_outcome(path@, journal(*old(s))), |x: Result<String, IoFailure>| x),
{
    let e = Effect::Canonicalize { path: owned(path) };
    let ghost asked_for = e;
    let r = s.ask_canonical(e);
    proof {
        lemma_asked_journal(*old(s), *s, asked_for);
        assert(crate::session::issued_since(*old(s), *s) =~= seq![asked_for]);
        crate::session::lemma_one_query(asked_for);
    }
    r
}

/// The canonical form of a device path, or the path itself when it cannot be resolved.
pub fn canonical_device_path(s: &mut Session, path: &str) -> (r: Step<String>)
    ensures
        queries_since(*old(s), *final(s)) == seq![QueryView::Canonicalize(path@)],
        asked_at(*old(s), *final(s), 0, QueryView::Canonicalize(path@)),
        one_more_answer(*old(s), *final(s), r),
        quiet(*old(s), *final(s)),
        final(s).issued@.len() == old(s).issued@.len() + 1,
        r matches Ok(c) ==> match final(s).answered@.last() {
            Reply::Canonical(Ok(v)) => c@ == v@,
            _ => c@ == path@,
        },
        settles(*old(s), *final(s), r, canonical_outcome(path@, journal(*old(s))), |c: String| c@),
{
    match canonicalize(s, path)? {
        Ok(c) => Ok(c),
        Err(_) => Ok(owned(path)),
    }
}

/// The absolute form of a path: its canonical form when it exists, otherwise its file name
/// joined to the canonical form of its parent directory.
pub fn absolute_path(s: &mut Session, path: &str) -> (r: Step<String>)
    ensures
        queries_since(*old(s), *final(s)) == absolute_queries(path@, journal(*old(s))),
        asked_at(*old(s), *final(s), 0, QueryView::Metadata(path@)),
        quiet(*old(s), *final(s)),
        settles(*old(s), *final(s), r, absolute_outcome(path@, journal(*old(s))), |p: String| p@),
{
    let there = path_exists(s, path)?;
    if there {
        let c = canonicalize(s, path)?;
        return match c {
            Ok(c) => Ok(c),
            Err(f) => Err(io_error(concat2("Failed to resolve ", path).as_str(), &f)),
        };
    }
    let dir = match path_parent(path) {
        Some(d) => d,
        None => owned("."),
    };
    let base = match path_file_name(path) {
        Some(b) => string_from_chars(&b),
        None => return Err(fail(concat2("Path is missing a usable file name: ", path))),
    };
    let c = canonicalize(s, dir.as_str())?;
    match c {
        Ok(c) => Ok(join_path(c.as_str(), base.as_str())),
        Err(f) => Err(io_error(concat2("Failed to resolve ", dir.as_str()).as_str(), &f)),
    }
}


/// The mount table, or the error of reading it.
pub fn read_mountinfo(s: &mut Session) -> (r: Step<Vec<MountInfo>>)
    ensures
        quiet(*old(s), *final(s)),
        one_more_answer(*old(s), *final(s), r) || (r matches Err(Halt::Failed(e)) && final(s).answered@.last() matches Reply::Mounts(Err(f))
            && e.message@ == io_message("Failed to read /proc/self/mountinfo"@, f.message@)),
        r matches Ok(ms) ==> final(s).answered@.last() == Reply::Mounts(Ok(ms)),
        r is Ok ==> final(s).answered@.len() == old(s).answered@.len() + 1,
        settles(*old(s), *final(s), r, mounts_outcome(journal(*old(s))), |ms: Vec<MountInfo>| ms@),
{
    let got = s.ask_mounts(Effect::ReadMounts);
    proof { lemma_asked_journal(*old(s), *s, Effect::ReadMounts); }
    match got? {
        Ok(ms) => Ok(ms),
        Err(f) => Err(io_error("Failed to read /proc/self/mountinfo", &f)),
    }
}

/// The source of the first mount at `target`, if that mount has one.
pub open spec fn source_at(ms: Seq<MountInfo>, target: Seq<char>) -> Option<Seq<char>>
    decreases ms.len(),
{
    if ms.len() == 0 {
        None
    } else if same_path(ms[0].mount_point@, target) {
        crate::api::opt_text(ms[0].source)
    } else {
        source_at(ms.drop_first(), target)
    }
}

/// What looking up the source mounted at `target` comes to: the source of the first mount
/// there in the mount table of the reply.
pub open spec fn mount_source_outcome(target: Seq<char>, js: Seq<Reply>) -> Outcome<Option<Seq<char>>> {
    match mounts_outcome(js) {
        Outcome::Ends { result: Ok(ms), used } => Outcome::Ends { result: Ok(source_at(ms, target)), used },
        Outcome::Ends { result: Err(m), used } => Outcome::Ends { result: Err(m), used },
        Outcome::Short(w) => Outcome::Short(w),
    }
}

/// The source mounted at `target`, if any.
#[verifier::loop_isolation(false)]
pub fn find_mount_source_for_mountpoint(s: &mut Session, target: &str) -> (r: Step<Option<String>>)
    ensures
        quiet(*old(s), *final(s)),
        r matches Ok(o) ==> final(s).answered@.last() matches Reply::Mounts(Ok(ms)) && crate::api::opt_text(o) == source_at(ms@, target@),
        settles(*old(s), *final(s), r, mount_source_outcome(target@, journal(*old(s))), |o: Option<String>| crate::api::opt_text(o)),
{
    let mounts = read_mountinfo(s)?;
    let mut i: usize = 0;
    assert(mounts@.skip(0) =~= mounts@);
    while i < mounts.len()
        invariant
            i <= mounts.len(),
            source_at(mounts@, target@) == source_at(mounts@.skip(i as int), target@),
        decreases mounts.len() - i,
    {
        assert(mounts@.skip(i as int).drop_first() =~= mounts@.skip(i + 1));
        if paths_equal(mounts[i].mount_point.as_str(), target) {
            return Ok(crate::api::opt_copy(&mounts[i].source));
        }
        i = i + 1;
    }
    Ok(None)
}

/// The mount point of the first mount whose source is `source`.
pub open spec fn mount_of(ms: Seq<MountInfo>, source: Seq<char>) -> Option<Seq<char>>
    decreases ms.len(),
{
    if ms.len() == 0 {
        None
    } else if ms[0].source matches Some(src) && same_path(src@, source) {
        Some(ms[0].mount_point@)
    } else {
        mount_of(ms.drop_first(), source)
    }
}

/// Where a mount whose source resolves to `canon` is mounted: the first such mount, the
/// sources' canonical forms taken from `js` one by one.
pub open spec fn resolved_mount_of(ms: Seq<MountInfo>, canon: Seq<char>, js: Seq<Reply>) -> Outcome<Option<Seq<char>>>
    decreases ms.len(),
{
    if ms.len() == 0 {
        Outcome::Ends { result: Ok(None), used: 0 }
    } else {
        match ms[0].source {
            None => resolved_mount_of(ms.drop_first(), canon, js),
            Some(c) => match canonical_outcome(c@, js) {
                Outcome::Ends { result: Ok(cc), used } => if same_path(cc, canon) {
                    Outcome::Ends { result: Ok(Some(ms[0].mount_point@)), used }
                } else {
                    after(used, resolved_mount_of(ms.drop_first(), canon, js.skip(used as int)))
                },
                Outcome::Ends { result: Err(m), used } => Outcome::Ends { result: Err(m), used },
                Outcome::Short(w) => Outcome::Short(w),
            },
        }
    }
}

/// What looking up where `source` is mounted comes to: the first mount of that source;
/// failing that, when `source` resolves to another path, the first mount whose source
/// resolves to the same path; otherwise none.
pub open spec fn mountpoint_outcome(source: Seq<char>, js: Seq<Reply>) -> Outcome<Option<Seq<char>>> {
    match mounts_outcome(js) {
        Outcome::Short(w) => Outcome::Short(w),
        Outcome::Ends { result: Err(m), used } => Outcome::Ends { result: Err(m), used },
        Outcome::Ends { result: Ok(ms), used } => match mount_of(ms, source) {
            Some(m) => Outcome::Ends { result: Ok(Some(m)), used },
            None => match canonical_outcome(source, js.skip(used as int)) {
                Outcome::Short(w) => Outcome::Short(w),
                Outcome::Ends { result: Err(m), used: u2 } => Outcome::Ends { result: Err(m), used: used + u2 },
                Outcome::Ends { result: Ok(c), used: u2 } => if same_path(c, source) {
                    Outcome::Ends { result: Ok(None), used: used + u2 }
                } else {
                    after(used + u2, resolved_mount_of(ms, c, js.skip((used + u2) as int)))
                },
            },
        },
    }
}

/// Where `source` is mounted: the first mount of that source; failing that, when `source`
/// resolves to another path, the first mount whose source resolves to the same path.
#[verifier::loop_isolation(false)]
#[verifier::rlimit(80)]
#[verifier::spinoff_prover]
pub fn find_mountpoint_for_source(s: &mut Session, source: &str) -> (r: Step<Option<String>>)
    ensures
        quiet(*old(s), *final(s)),
        settles(*old(s), *final(s), r, mountpoint_outcome(source@, journal(*old(s))), |o: Option<String>| crate::api::opt_text(o)),
{
    let mounts = read_mountinfo(s)?;
    let ghost first = *s;
    let mut i: usize = 0;
    assert(mounts@.skip(0) =~= mounts@);
    while i < mounts.len()
        invariant
            i <= mounts.len(),
            mount_of(mounts@, source@) == mount_of(mounts@.skip(i as int), source@),
        decreases mounts.len() - i,
    {
        assert(mounts@.skip(i as int).drop_first() =~= mounts@.skip(i + 1));
        match &mounts[i].source {
            Some(src) => {
                if paths_equal(src.as_str(), source) {
                    return Ok(Some(mounts[i].mount_point.clone()));
                }
            },
            None => {},
        }
        i = i + 1;
    }
    assert(mount_of(mounts@, source@) is None);
    let canonical_source = canonical_device_path(s, source)?;
    let ghost second = *s;
    if !paths_equal(canonical_source.as_str(), source) {
        let mut j: usize = 0;
        while j < mounts.len()
            invariant
                j <= mounts.len(),
                quiet(second, *s),
                journal(*s).len() <= journal(second).len(),
                journal(*s) == journal(second).skip(journal(second).len() - journal(*s).len()),
                resolved_mount_of(mounts@, canonical_source@, journal(second))
                    == after((journal(second).len() - journal(*s).len()) as nat,
                        resolved_mount_of(mounts@.skip(j as int), canonical_source@, journal(*s))),
            decreases mounts.len() - j,
        {
            assert(mounts@.skip(j as int).drop_first() =~= mounts@.skip(j + 1));
            assert(mounts@.skip(j as int)[0] == mounts@[j as int]);
            match &mounts[j].source {
                Some(candidate) => {
                    let ghost before = *s;
                    let c = match canonical_device_path(s, candidate.as_str()) {
                        Ok(c) => c,
                        Err(h) => return Err(h),
                    };
                    if paths_equal(c.as_str(), canonical_source.as_str()) {
                        return Ok(Some(mounts[j].mount_point.clone()));
                    }
                    assert(journal(*s) == journal(second).skip(journal(second).len() - journal(*s).len()));
                },
                None => {},
            }
            j = j + 1;
        }
        assert(mounts@.skip(j as int) =~= Seq::<MountInfo>::empty());
    }
    Ok(None)
}

/// The entries of a directory, each a path or the error of reading it.
pub fn list_dir(s: &mut Session, path: &str) -> (r: Step<Result<Vec<Result<String, IoFailure>>, IoFailure>>)
    ensures
        quiet(*old(s), *final(s)),
        one_more_answer(*old(s), *final(s), r),
        settles(*old(s), *final(s), r, entries_outcome(path@, journal(*old(s))), |x: Result<Vec<Result<String, IoFailure>>, IoFailure>| x),
{
    let e = Effect::ListDir { path: owned(path) };
    let ghost asked_for = e;
    let r = s.ask_entries(e);
    proof { lemma_asked_journal(*old(s), *s, asked_for); }
    r
}

/// The text of a file, or the error of reading it.
pub fn read_text(s: &mut Session, path: &str) -> (r: Step<Result<String, IoFailure>>)
    ensures
        quiet(*old(s), *final(s)),
        one_more_answer(*old(s), *final(s), r),
        settles(*old(s), *final(s), r, text_outcome(path@, journal(*old(s))), |x: Result<String, IoFailure>| x),
{
    let e = Effect::ReadText { path: owned(path) };
    let ghost asked_for = e;
    let r = s.ask_text(e);
    proof { lemma_asked_journal(*old(s), *s, asked_for); }
    r
}

/// Which entry of `/dev/mapper` resolves to `canon`: the name of the first one (the control
/// node aside), the entries' canonical forms taken from `js` one by one.
pub open spec fn mapper_scan(entries: Seq<Result<String, IoFailure>>, canon: Seq<char>, device: Seq<char>, js: Seq<Reply>) -> Outcome<Seq<char>>
    decreases entries.len(),
{
    if entries.len() == 0 {
        Outcome::Ends { result: Err("Mapper is not active: "@ + device), used: 0 }
    } else {
        match entries[0] {
            Err(f) => Outcome::Ends { result: Err(io_message("Failed to inspect /dev/mapper"@, f.message@)), used: 0 },
            Ok(p) => if same_path(p@, "/dev/mapper/control"@) {
                mapper_scan(entries.drop_first(), canon, device, js)
            } else {
                match canonical_outcome(p@, js) {
                    Outcome::Ends { result: Ok(c), used } => if same_path(c, canon) {
                        Outcome::Ends { result: Ok(crate::naming::spec_normalize_mapper_name(p@)), used }
                    } else {
                        after(used, mapper_scan(entries.drop_first(), canon, device, js.skip(used as int)))
                    },
                    Outcome::Ends { result: Err(m), used } => Outcome::Ends { result: Err(m), used },
                    Outcome::Short(w) => Outcome::Short(w),
                }
            },
        }
    }
}

/// What finding the mapper behind a device path comes to: a path in `/dev/mapper` names it
/// directly; otherwise the first mapper whose device node resolves to the same path as the
/// device.
pub open spec fn mapper_name_outcome(device: Seq<char>, js: Seq<Reply>) -> Outcome<Seq<char>> {
    if crate::paths::under_mapper_dir(device) {
        Outcome::Ends { result: Ok(crate::naming::spec_normalize_mapper_name(device)), used: 0 }
    } else {
        match canonical_outcome(device, js) {
            Outcome::Short(w) => Outcome::Short(w),
            Outcome::Ends { result: Err(m), used } => Outcome::Ends { result: Err(m), used },
            Outcome::Ends { result: Ok(cd), used } => match entries_outcome("/dev/mapper"@, js.skip(used as int)) {
                Outcome::Short(w) => Outcome::Short(w),
                Outcome::Ends { result: Err(m), used: u2 } => Outcome::Ends { result: Err(m), used: used + u2 },
                Outcome::Ends { result: Ok(Err(f)), used: u2 } => Outcome::Ends {
                    result: Err(io_message("Failed to inspect /dev/mapper"@, f.message@)),
                    used: used + u2,
                },
                Outcome::Ends { result: Ok(Ok(es)), used: u2 } => after(used + u2, mapper_scan(es@, cd, device, js.skip((used + u2) as int))),
            },
        }
    }
}

/// The mapper name behind a device path: a path in `/dev/mapper` names it directly;
/// otherwise the mapper whose device node resolves to the same path as the device.
#[verifier::loop_isolation(false)]
#[verifier::rlimit(30)]
pub fn mapper_name_from_device_path(s: &mut Session, device: &str) -> (r: Step<String>)
    ensures
        quiet(*old(s), *final(s)),
        settles(*old(s), *final(s), r, mapper_name_outcome(device@, journal(*old(s))), |n: String| n@),
        crate::paths::under_mapper_dir(device@) ==> *final(s) == *old(s),
        !crate::paths::under_mapper_dir(device@) ==> asked_at(*old(s), *final(s), 0, QueryView::Canonicalize(device@)),
{
    if crate::paths::is_under_mapper_dir(device) {
        assert(journal(*s).skip(0) =~= journal(*s));
        return Ok(crate::naming::normalize_mapper_name(device));
    }
    let canonical_device = canonical_device_path(s, device)?;
    let entries = match list_dir(s, "/dev/mapper")? {
        Ok(v) => v,
        Err(f) => return Err(io_error("Failed to inspect /dev/mapper", &f)),
    };
    let ghost second = *s;
    let mut i: usize = 0;
    assert(entries@.skip(0) =~= entries@);
    while i < entries.len()
        invariant
            i <= entries.len(),
            quiet(second, *s),
            journal(*s).len() <= journal(second).len(),
            journal(*s) == journal(second).skip(journal(second).len() - journal(*s).len()),
            mapper_scan(entries@, canonical_device@, device@, journal(second))
                == after((journal(second).len() - journal(*s).len()) as nat,
                    mapper_scan(entries@.skip(i as int), canonical_device@, device@, journal(*s))),
        decreases entries.len() - i,
    {
        assert(entries@.skip(i as int).drop_first() =~= entries@.skip(i + 1));
        assert(entries@.skip(i as int)[0] == entries@[i as int]);
        match &entries[i] {
            Err(f) => return Err(io_error("Failed to inspect /dev/mapper", f)),
            Ok(path) => {
                if !paths_equal(path.as_str(), "/dev/mapper/control") {
                    let c = match canonical_device_path(s, path.as_str()) {
                        Ok(c) => c,
                        Err(h) => return Err(h),
                    };
                    if paths_equal(c.as_str(), canonical_device.as_str()) {
                        return Ok(crate::naming::normalize_mapper_name(path.as_str()));
                    }
                    assert(journal(*s) == journal(second).skip(journal(second).len() - journal(*s).len()));
                }
            },
        }
        i = i + 1;
    }
    assert(entries@.skip(i as int) =~= Seq::<Result<String, IoFailure>>::empty());
    Err(fail(concat2("Mapper is not active: ", device)))
}

/// What reading a file for its trimmed text comes to: the trimmed text, none when the file
/// does not exist, or the error of reading it.
pub open spec fn trimmed_outcome(path: Seq<char>, js: Seq<Reply>) -> Outcome<Option<Seq<char>>> {
    match text_outcome(path, js) {
        Outcome::Ends { result: Ok(Ok(v)), used } => Outcome::Ends { result: Ok(Some(crate::text::trim(v@))), used },
        Outcome::Ends { result: Ok(Err(f)), used } => if f.not_found {
            Outcome::Ends { result: Ok(None), used }
        } else {
            Outcome::Ends { result: Err(io_message("Failed to read "@ + path, f.message@)), used }
        },
        Outcome::Ends { result: Err(m), used } => Outcome::Ends { result: Err(m), used },
        Outcome::Short(w) => Outcome::Short(w),
    }
}

/// What finding the sysfs directory of the block device behind `device` comes to: the
/// directory named after its canonical path under `/sys/class/block`, when that exists.
pub open spec fn sysfs_block_outcome(device: Seq<char>, js: Seq<Reply>) -> Outcome<Option<Seq<char>>> {
    match canonical_outcome(device, js) {
        Outcome::Short(w) => Outcome::Short(w),
        Outcome::Ends { result: Err(m), used } => Outcome::Ends { result: Err(m), used },
        Outcome::Ends { result: Ok(c), used } => match file_name(c) {
            None => Outcome::Ends { result: Ok(None), used },
            Some(n) => match exists_outcome(path_join("/sys/class/block"@, n), js.skip(used as int)) {
                Outcome::Short(w) => Outcome::Short(w),
                Outcome::Ends { result: Err(m), used: u2 } => Outcome::Ends { result: Err(m), used: used + u2 },
                Outcome::Ends { result: Ok(there), used: u2 } => Outcome::Ends {
                    result: Ok(if there { Some(path_join("/sys/class/block"@, n)) } else { None }),
                    used: used + u2,
                },
            },
        },
    }
}

/// What finding the `major:minor` identity of the block device behind `path` comes to.
pub open spec fn identity_outcome(path: Seq<char>, js: Seq<Reply>) -> Outcome<Option<Seq<char>>> {
    match sysfs_block_outcome(path, js) {
        Outcome::Ends { result: Ok(Some(p)), used } => after(used, trimmed_outcome(path_join(p, "dev"@), js.skip(used as int))),
        other => other,
    }
}

/// The trimmed text of a file, none when the file does not exist, or the error of reading it.
fn read_trimmed(s: &mut Session, path: &str) -> (r: Step<Option<String>>)
    ensures
        quiet(*old(s), *final(s)),
        settles(*old(s), *final(s), r, trimmed_outcome(path@, journal(*old(s))), |o: Option<String>| crate::api::opt_text(o)),
{
    match read_text(s, path)? {
        Ok(v) => {
            let t = crate::text::str_trim(v.as_str());
            Ok(Some(string_from_chars(&t)))
        },
        Err(f) => {
            if f.not_found {
                Ok(None)
            } else {
                Err(io_error(concat2("Failed to read ", path).as_str(), &f))
            }
        },
    }
}

/// The sysfs directory of the block device behind a device path, if there is one.
fn sysfs_block_path_for_device(s: &mut Session, device: &str) -> (r: Step<Option<String>>)
    ensures
        quiet(*old(s), *final(s)),
        settles(*old(s), *final(s), r, sysfs_block_outcome(device@, journal(*old(s))), |o: Option<String>| crate::api::opt_text(o)),
{
    let canonical = canonical_device_path(s, device)?;
    let name = match path_file_name(canonical.as_str()) {
        Some(n) => string_from_chars(&n),
        None => return Ok(None),
    };
    let path = join_path("/sys/class/block", name.as_str());
    if path_exists(s, path.as_str())? {
        Ok(Some(path))
    } else {
        Ok(None)
    }
}

/// The `major:minor` identity recorded in a sysfs block directory, if any.
fn device_identity_for_sysfs_block_path(s: &mut Session, sysfs_path: &str) -> (r: Step<Option<String>>)
    ensures
        quiet(*old(s), *final(s)),
        settles(*old(s), *final(s), r, trimmed_outcome(path_join(sysfs_path@, "dev"@), journal(*old(s))),
            |o: Option<String>| crate::api::opt_text(o)),
{
    let path = join_path(sysfs_path, "dev");
    read_trimmed(s, path.as_str())
}

/// The `major:minor` identity of the block device behind a path, if any.
fn device_identity_for_path(s: &mut Session, path: &str) -> (r: Step<Option<String>>)
    ensures
        quiet(*old(s), *final(s)),
        settles(*old(s), *final(s), r, identity_outcome(path@, journal(*old(s))), |o: Option<String>| crate::api::opt_text(o)),
{
    match sysfs_block_path_for_device(s, path)? {
        Some(p) => device_identity_for_sysfs_block_path(s, p.as_str()),
        None => Ok(None),
    }
}

/// The mapper name of a device-mapper sysfs directory, if any.
fn mapper_name_from_dm_sysfs_path(s: &mut Session, dm_sysfs_path: &str) -> (r: Step<Option<String>>)
    ensures
        quiet(*old(s), *final(s)),
        settles(*old(s), *final(s), r, trimmed_outcome(path_join(dm_sysfs_path@, "dm/name"@), journal(*old(s))),
            |o: Option<String>| crate::api::opt_text(o)),
{
    let path = join_path(dm_sysfs_path, "dm/name");
    read_trimmed(s, path.as_str())
}

/// Whether every name in the list is a `lurker_` mapper name.
pub open spec fn all_lurker(names: Seq<String>) -> bool {
    forall|i: int| 0 <= i < names.len() ==> crate::text::has_prefix(#[trigger] names[i]@, "lurker_"@)
}

/// Whether one of the underlying devices listed in `slaves` has the identity `id`, their
/// identities taken from `js` one by one (entries that could not be read are passed over).
pub open spec fn slave_scan(slaves: Seq<Result<String, IoFailure>>, id: Seq<char>, js: Seq<Reply>) -> Outcome<bool>
    decreases slaves.len(),
{
    if slaves.len() == 0 {
        Outcome::Ends { result: Ok(false), used: 0 }
    } else {
        match slaves[0] {
            Err(_) => slave_scan(slaves.drop_first(), id, js),
            Ok(p) => match trimmed_outcome(path_join(p@, "dev"@), js) {
                Outcome::Ends { result: Ok(o), used } => if o == Some(id) {
                    Outcome::Ends { result: Ok(true), used }
                } else {
                    after(used, slave_scan(slaves.drop_first(), id, js.skip(used as int)))
                },
                Outcome::Ends { result: Err(m), used } => Outcome::Ends { result: Err(m), used },
                Outcome::Short(w) => Outcome::Short(w),
            },
        }
    }
}

/// An outcome whose list, if it ends with one, has `front` put before it.
pub open spec fn led_by(front: Seq<Seq<char>>, o: Outcome<Seq<Seq<char>>>) -> Outcome<Seq<Seq<char>>> {
    match o {
        Outcome::Ends { result: Ok(list), used } => Outcome::Ends { result: Ok(front + list), used },
        other => other,
    }
}

/// What the sysfs block entry `p` contributes to the mappers on the device with identity
/// `id`: its mapper name when it is a device-mapper device (`dm-`) with a `lurker_` name one
/// of whose underlying devices has that identity; nothing otherwise.
pub open spec fn dm_entry_outcome(p: Seq<char>, id: Seq<char>, js: Seq<Reply>) -> Outcome<Seq<Seq<char>>> {
    let name = match file_name(p) {
        Some(n) => n,
        None => Seq::empty(),
    };
    if !crate::text::has_prefix(name, "dm-"@) {
        Outcome::Ends { result: Ok(Seq::empty()), used: 0 }
    } else {
        match trimmed_outcome(path_join(p, "dm/name"@), js) {
            Outcome::Short(w) => Outcome::Short(w),
            Outcome::Ends { result: Err(m), used } => Outcome::Ends { result: Err(m), used },
            Outcome::Ends { result: Ok(mapper), used } => if !(mapper matches Some(m) && crate::text::has_prefix(m, "lurker_"@)) {
                Outcome::Ends { result: Ok(Seq::empty()), used }
            } else {
                match entries_outcome(path_join(p, "slaves"@), js.skip(used as int)) {
                    Outcome::Short(w) => Outcome::Short(w),
                    Outcome::Ends { result: Err(m), used: u2 } => Outcome::Ends { result: Err(m), used: used + u2 },
                    Outcome::Ends { result: Ok(Err(_)), used: u2 } => Outcome::Ends { result: Ok(Seq::empty()), used: used + u2 },
                    Outcome::Ends { result: Ok(Ok(slaves)), used: u2 } => match slave_scan(slaves@, id, js.skip((used + u2) as int)) {
                        Outcome::Short(w) => Outcome::Short(w),
                        Outcome::Ends { result: Err(m), used: u3 } => Outcome::Ends { result: Err(m), used: used + u2 + u3 },
                        Outcome::Ends { result: Ok(found), used: u3 } => Outcome::Ends {
                            result: Ok(if found { seq![mapper->0] } else { Seq::empty() }),
                            used: used + u2 + u3,
                        },
                    },
                }
            },
        }
    }
}

/// The `lurker_` mappers among the sysfs block entries `entries` that sit on the device with
/// identity `id`, in the order of the entries, what each entry holds taken from `js`.
pub open spec fn dm_scan(entries: Seq<Result<String, IoFailure>>, id: Seq<char>, js: Seq<Reply>) -> Outcome<Seq<Seq<char>>>
    decreases entries.len(),
{
    if entries.len() == 0 {
        Outcome::Ends { result: Ok(Seq::empty()), used: 0 }
    } else {
        match entries[0] {
            Err(f) => Outcome::Ends { result: Err(io_message("Failed to inspect /sys/class/block"@, f.message@)), used: 0 },
            Ok(p) => match dm_entry_outcome(p@, id, js) {
                Outcome::Short(w) => Outcome::Short(w),
                Outcome::Ends { result: Err(m), used } => Outcome::Ends { result: Err(m), used },
                Outcome::Ends { result: Ok(found), used } => after(used, led_by(found, dm_scan(entries.drop_first(), id, js.skip(used as int)))),
            },
        }
    }
}

/// What finding the active `lurker_` mappers on the block device behind `target` comes to:
/// none when the device has no sysfs identity; otherwise the mappers among the entries of
/// `/sys/class/block` whose underlying devices include it.
pub open spec fn active_mappers_outcome(target: Seq<char>, js: Seq<Reply>) -> Outcome<Seq<Seq<char>>> {
    match identity_outcome(target, js) {
        Outcome::Short(w) => Outcome::Short(w),
        Outcome::Ends { result: Err(m), used } => Outcome::Ends { result: Err(m), used },
        Outcome::Ends { result: Ok(None), used } => Outcome::Ends { result: Ok(Seq::empty()), used },
        Outcome::Ends { result: Ok(Some(id)), used } => match entries_outcome("/sys/class/block"@, js.skip(used as int)) {
            Outcome::Short(w) => Outcome::Short(w),
            Outcome::Ends { result: Err(m), used: u2 } => Outcome::Ends { result: Err(m), used: used + u2 },
            Outcome::Ends { result: Ok(Err(f)), used: u2 } => Outcome::Ends {
                result: Err(io_message("Failed to inspect /sys/class/block"@, f.message@)),
                used: used + u2,
            },
            Outcome::Ends { result: Ok(Ok(es)), used: u2 } => after(used + u2, dm_scan(es@, id, js.skip((used + u2) as int))),
        },
    }
}

/// Whether one of the underlying devices listed in `slaves` has the identity `id`.
#[verifier::loop_isolation(false)]
fn slaves_include(s: &mut Session, slaves: &Vec<Result<String, IoFailure>>, id: &str) -> (r: Step<bool>)
    ensures
        quiet(*old(s), *final(s)),
        settles(*old(s), *final(s), r, slave_scan(slaves@, id@, journal(*old(s))), |b: bool| b),
{
    let mut j: usize = 0;
    assert(slaves@.skip(0) =~= slaves@);
    assert(journal(*s).skip(0) =~= journal(*s));
    while j < slaves.len()
        invariant
            j <= slaves.len(),
            quiet(*old(s), *s),
            journal(*s).len() <= journal(*old(s)).len(),
            journal(*s) == journal(*old(s)).skip(journal(*old(s)).len() - journal(*s).len()),
            slave_scan(slaves@, id@, journal(*old(s)))
                == after((journal(*old(s)).len() - journal(*s).len()) as nat, slave_scan(slaves@.skip(j as int), id@, journal(*s))),
        decreases slaves.len() - j,
    {
        assert(slaves@.skip(j as int).drop_first() =~= slaves@.skip(j + 1));
        assert(slaves@.skip(j as int)[0] == slaves@[j as int]);
        match &slaves[j] {
            Ok(slave) => {
                let identity = match device_identity_for_sysfs_block_path(s, slave.as_str()) {
                    Ok(i) => i,
                    Err(h) => return Err(h),
                };
                let same = match &identity {
                    Some(v) => crate::text::str_eq(v.as_str(), id),
                    None => false,
                };
                if same {
                    return Ok(true);
                }
                assert(journal(*s) == journal(*old(s)).skip(journal(*old(s)).len() - journal(*s).len()));
            },
            Err(_) => {},
        }
        j = j + 1;
    }
    assert(slaves@.skip(j as int) =~= Seq::<Result<String, IoFailure>>::empty());
    Ok(false)
}

/// The mapper that the sysfs block entry `path` contributes to those on the device with
/// identity `id`, if any.
#[verifier::rlimit(30)]
fn dm_entry_mapper(s: &mut Session, path: &str, id: &str) -> (r: Step<Option<String>>)
    ensures
        quiet(*old(s), *final(s)),
        r matches Ok(Some(m)) ==> crate::text::has_prefix(m@, "lurker_"@),
        settles(*old(s), *final(s), r, dm_entry_outcome(path@, id@, journal(*old(s))),
            |o: Option<String>| match o { Some(m) => seq![m@], None => Seq::empty() }),
{
    let prefix_dm = crate::text::char_vec("dm-");
    let prefix_lurker = crate::text::char_vec("lurker_");
    let name = match path_file_name(path) {
        Some(n) => n,
        None => Vec::new(),
    };
    if !crate::text::chars_start_with(&name, &prefix_dm) {
        assert(journal(*s).skip(0) =~= journal(*s));
        return Ok(None);
    }
    let m = match mapper_name_from_dm_sysfs_path(s, path)? {
        Some(m) => m,
        None => return Ok(None),
    };
    let mv = crate::text::char_vec(m.as_str());
    if !crate::text::chars_start_with(&mv, &prefix_lurker) {
        return Ok(None);
    }
    let slaves = join_path(path, "slaves");
    match list_dir(s, slaves.as_str())? {
        Ok(slave_entries) => {
            if slaves_include(s, &slave_entries, id)? {
                Ok(Some(m))
            } else {
                Ok(None)
            }
        },
        Err(_) => Ok(None),
    }
}

/// Putting a list before an outcome reached after `k` replies, itself a list put before the
/// outcome after `u` more, is putting both lists before it after `k + u` replies.
proof fn lemma_led_by_after(k: nat, front: Seq<Seq<char>>, u: nat, more: Seq<Seq<char>>, o: Outcome<Seq<Seq<char>>>)
    ensures
        after(k, led_by(front, after(u, led_by(more, o)))) == after(k + u, led_by(front + more, o)),
{
    if let Outcome::Ends { result: Ok(list), used } = o {
        assert(front + (more + list) =~= (front + more) + list);
    }
}

/// The `lurker_` mappers among the sysfs block entries `entries` that sit on the device with
/// identity `id`.
#[verifier::rlimit(30)]
fn scan_dm_entries(s: &mut Session, entries: &Vec<Result<String, IoFailure>>, id: &str) -> (r: Step<Vec<String>>)
    ensures
        quiet(*old(s), *final(s)),
        r matches Ok(v) ==> all_lurker(v@),
        settles(*old(s), *final(s), r, dm_scan(entries@, id@, journal(*old(s))), |v: Vec<String>| crate::cli::strings_view(v@)),
{
    let ghost start = *s;
    let mut matches: Vec<String> = Vec::new();
    let mut i: usize = 0;
    assert(entries@.skip(0) =~= entries@);
    assert(journal(*s).skip(0) =~= journal(*s));
    assert(crate::cli::strings_view(matches@) =~= Seq::<Seq<char>>::empty());
    while i < entries.len()
        invariant
            i <= entries.len(),
            start == *old(s),
            quiet(start, *s),
            all_lurker(matches@),
            journal(*s).len() <= journal(start).len(),
            journal(*s) == journal(start).skip(journal(start).len() - journal(*s).len()),
            dm_scan(entries@, id@, journal(start))
                == after((journal(start).len() - journal(*s).len()) as nat,
                    led_by(crate::cli::strings_view(matches@), dm_scan(entries@.skip(i as int), id@, journal(*s)))),
        decreases entries.len() - i,
    {
        assert(entries@.skip(i as int).drop_first() =~= entries@.skip(i + 1));
        assert(entries@.skip(i as int)[0] == entries@[i as int]);
        let path = match &entries[i] {
            Err(f) => return Err(io_error("Failed to inspect /sys/class/block", f)),
            Ok(p) => p,
        };
        let ghost mid = *s;
        let found = match dm_entry_mapper(s, path.as_str(), id) {
            Ok(f) => f,
            Err(h) => return Err(h),
        };
        let ghost before = matches@;
        let ghost added: Seq<Seq<char>> = match &found { Some(m) => seq![m@], None => Seq::empty() };
        match found {
            Some(m) => {
                matches.push(m);
                assert(crate::cli::strings_view(matches@) =~= crate::cli::strings_view(before) + seq![m@]);
            },
            None => {
                assert(crate::cli::strings_view(matches@) =~= crate::cli::strings_view(before) + Seq::<Seq<char>>::empty());
            },
        }
        proof {
            let k = (journal(start).len() - journal(mid).len()) as nat;
            let u = (journal(mid).len() - journal(*s).len()) as nat;
            lemma_led_by_after(k, crate::cli::strings_view(before), u, added,
                dm_scan(entries@.skip(i + 1), id@, journal(*s)));
        }
        assert(journal(*s) == journal(start).skip(journal(start).len() - journal(*s).len()));
        i = i + 1;
    }
    assert(entries@.skip(i as int) =~= Seq::<Result<String, IoFailure>>::empty());
    assert(crate::cli::strings_view(matches@) + Seq::<Seq<char>>::empty() =~= crate::cli::strings_view(matches@));
    Ok(matches)
}

/// The active `lurker_` mappers that sit on the block device behind `target`: the
/// device-mapper devices whose underlying devices include it.
pub fn active_lurker_mappers_for_block_device(s: &mut Session, target: &str) -> (r: Step<Vec<String>>)
    ensures
        quiet(*old(s), *final(s)),
        r matches Ok(v) ==> all_lurker(v@),
        settles(*old(s), *final(s), r, active_mappers_outcome(target@, journal(*old(s))),
            |v: Vec<String>| crate::cli::strings_view(v@)),
{
    let target_identity = match device_identity_for_path(s, target)? {
        Some(identity) => identity,
        None => {
            let none: Vec<String> = Vec::new();
            assert(crate::cli::strings_view(none@) =~= Seq::<Seq<char>>::empty());
            return Ok(none);
        },
    };
    let entries = match list_dir(s, "/sys/class/block")? {
        Ok(v) => v,
        Err(f) => return Err(io_error("Failed to inspect /sys/class/block", &f)),
    };
    scan_dm_entries(s, &entries, target_identity.as_str())
}

/// An outcome whose path, if it ends with one, is turned into the mapper name derived from it.
pub open spec fn named_after(o: Outcome<Seq<char>>) -> Outcome<Seq<char>> {
    match o {
        Outcome::Ends { result: Ok(p), used } => Outcome::Ends { result: Ok(crate::naming::spec_path_mapper_name(p)), used },
        other => other,
    }
}

/// What the mapper name for a source comes to: the one of its tag when a tag is given
/// (nothing is asked of the system); otherwise the one derived from the canonical path of a
/// block device, or from the absolute path of anything else.
pub open spec fn source_name_outcome(source: Seq<char>, tag: Option<Seq<char>>, js: Seq<Reply>) -> Outcome<Seq<char>> {
    match tag {
        Some(t) => Outcome::Ends { result: crate::naming::spec_tag_mapper_name(t), used: 0 },
        None => match kind_outcome(source, js, FileKind::Block) {
            Outcome::Short(w) => Outcome::Short(w),
            Outcome::Ends { result: Err(m), used } => Outcome::Ends { result: Err(m), used },
            Outcome::Ends { result: Ok(true), used } => after(used, named_after(canonical_outcome(source, js.skip(used as int)))),
            Outcome::Ends { result: Ok(false), used } => after(used, named_after(absolute_outcome(source, js.skip(used as int)))),
        },
    }
}

/// The mapper name for a container at `path`: the name derived from its absolute path.
pub fn mapper_name_for_path(s: &mut Session, path: &str) -> (r: Step<String>)
    ensures
        quiet(*old(s), *final(s)),
        r matches Ok(n) ==> exists|p: Seq<char>| n@ == #[trigger] crate::naming::spec_path_mapper_name(p),
        settles(*old(s), *final(s), r, named_after(absolute_outcome(path@, journal(*old(s)))), |n: String| n@),
{
    let resolved = absolute_path(s, path)?;
    Ok(crate::naming::resolved_mapper_name_from_path(resolved.as_str()))
}

/// The mapper name for a block device: the name derived from its canonical path.
pub fn mapper_name_for_block_device(s: &mut Session, path: &str) -> (r: Step<String>)
    ensures
        quiet(*old(s), *final(s)),
        r matches Ok(n) ==> exists|p: Seq<char>| n@ == #[trigger] crate::naming::spec_path_mapper_name(p),
        settles(*old(s), *final(s), r, named_after(canonical_outcome(path@, journal(*old(s)))), |n: String| n@),
{
    let resolved = canonical_device_path(s, path)?;
    Ok(crate::naming::resolved_mapper_name_from_path(resolved.as_str()))
}

/// Two paths that resolve to one canonical path get one mapper name: a `/dev/disk/by-*` link
/// and the device it names share it.
pub proof fn one_canonical_path_one_mapper_name(p1: Seq<char>, p2: Seq<char>, j1: Seq<Reply>, j2: Seq<Reply>)
    requires
        canonical_outcome(p1, j1) is Ends,
        canonical_outcome(p2, j2) is Ends,
        canonical_outcome(p1, j1)->Ends_result is Ok,
        canonical_outcome(p1, j1)->Ends_result == canonical_outcome(p2, j2)->Ends_result,
    ensures
        named_after(canonical_outcome(p1, j1))->Ends_result == named_after(canonical_outcome(p2, j2))->Ends_result,
        named_after(canonical_outcome(p1, j1))->Ends_result
            == Ok::<Seq<char>, Seq<char>>(crate::naming::spec_path_mapper_name(canonical_outcome(p1, j1)->Ends_result->Ok_0)),
{
}

/// The mapper name for a source: the one of its tag when a tag is given (and nothing is
/// asked of the system), otherwise the one derived from its resolved path.
pub fn mapper_name_for_source(s: &mut Session, source: &str, tag: &Option<String>) -> (r: Step<String>)
    ensures
        quiet(*old(s), *final(s)),
        tag is Some ==> *final(s) == *old(s),
        tag is None ==> (r matches Ok(n) ==> exists|p: Seq<char>| n@ == #[trigger] crate::naming::spec_path_mapper_name(p)),
        settles(*old(s), *final(s), r, source_name_outcome(source@, crate::api::opt_text(*tag), journal(*old(s))), |n: String| n@),
{
    match tag {
        Some(t) => {
            assert(journal(*s).skip(0) =~= journal(*s));
            match crate::naming::mapper_name_for_tag(t.as_str()) {
                Ok(n) => Ok(n),
                Err(e) => Err(Halt::Failed(e)),
            }
        },
        None => {
            if is_block_device_target(s, source)? {
                mapper_name_for_block_device(s, source)
            } else {
                mapper_name_for_path(s, source)
            }
        },
    }
}

/// An unmount target resolved to its mapper: what kind of input named it, the mapper's name
/// and device path, where its filesystem is mounted, and the path the input resolved to.
#[derive(Clone, Debug)]
pub struct ResolvedUmountTarget {
    pub target_kind: ResolvedTargetKind,
    pub mapper_name: String,
    pub mapper_path: String,
    pub mountpoint: Option<String>,
    pub origin: String,
}

/// A resolved unmount target with its text as character sequences.
pub struct ResolvedTargetView {
    pub target_kind: ResolvedTargetKind,
    pub mapper_name: Seq<char>,
    pub mapper_path: Seq<char>,
    pub mountpoint: Option<Seq<char>>,
    pub origin: Seq<char>,
}

impl View for ResolvedUmountTarget {
    type V = ResolvedTargetView;

    open spec fn view(&self) -> ResolvedTargetView {
        ResolvedTargetView {
            target_kind: self.target_kind,
            mapper_name: self.mapper_name@,
            mapper_path: self.mapper_path@,
            mountpoint: crate::api::opt_text(self.mountpoint),
            origin: self.origin@,
        }
    }
}

/// The target of kind `kind` resolved to the mapper `name`, mounted at `mountpoint`, named by
/// the path `origin`.
pub open spec fn resolved(kind: ResolvedTargetKind, name: Seq<char>, mountpoint: Option<Seq<char>>, origin: Seq<char>) -> ResolvedTargetView {
    ResolvedTargetView {
        target_kind: kind,
        mapper_name: name,
        mapper_path: path_join("/dev/mapper"@, name),
        mountpoint,
        origin,
    }
}

/// What making sure that the mapper `name` is in use comes to: where its filesystem is
/// mounted, or, when it is not mounted, that its device node exists; `closed` is the error
/// when neither holds.
pub open spec fn open_mapper_outcome(kind: ResolvedTargetKind, name: Seq<char>, origin: Seq<char>, closed: Seq<char>, js: Seq<Reply>) -> Outcome<ResolvedTargetView> {
    match mountpoint_outcome(path_join("/dev/mapper"@, name), js) {
        Outcome::Short(w) => Outcome::Short(w),
        Outcome::Ends { result: Err(m), used } => Outcome::Ends { result: Err(m), used },
        Outcome::Ends { result: Ok(Some(mnt)), used } => Outcome::Ends { result: Ok(resolved(kind, name, Some(mnt), origin)), used },
        Outcome::Ends { result: Ok(None), used } => match exists_outcome(path_join("/dev/mapper"@, name), js.skip(used as int)) {
            Outcome::Short(w) => Outcome::Short(w),
            Outcome::Ends { result: Err(m), used: u2 } => Outcome::Ends { result: Err(m), used: used + u2 },
            Outcome::Ends { result: Ok(true), used: u2 } => Outcome::Ends { result: Ok(resolved(kind, name, None, origin)), used: used + u2 },
            Outcome::Ends { result: Ok(false), used: u2 } => Outcome::Ends { result: Err(closed), used: used + u2 },
        },
    }
}

/// What resolving a path in `/dev/mapper` comes to: the mapper it names, which must exist,
/// and where it is mounted.
pub open spec fn mapper_target_outcome(target: Seq<char>, js: Seq<Reply>) -> Outcome<ResolvedTargetView> {
    let name = crate::naming::spec_normalize_mapper_name(target);
    match exists_outcome(path_join("/dev/mapper"@, name), js) {
        Outcome::Short(w) => Outcome::Short(w),
        Outcome::Ends { result: Err(m), used } => Outcome::Ends { result: Err(m), used },
        Outcome::Ends { result: Ok(false), used } => Outcome::Ends { result: Err("Mapper is not active: "@ + target), used },
        Outcome::Ends { result: Ok(true), used } => match mountpoint_outcome(path_join("/dev/mapper"@, name), js.skip(used as int)) {
            Outcome::Short(w) => Outcome::Short(w),
            Outcome::Ends { result: Err(m), used: u2 } => Outcome::Ends { result: Err(m), used: used + u2 },
            Outcome::Ends { result: Ok(mnt), used: u2 } => Outcome::Ends {
                result: Ok(resolved(ResolvedTargetKind::Mapper, name, mnt, target)),
                used: used + u2,
            },
        },
    }
}

/// What resolving a directory comes to: the mapper behind the source mounted at its absolute
/// path.
pub open spec fn mountpoint_target_outcome(target: Seq<char>, js: Seq<Reply>) -> Outcome<ResolvedTargetView> {
    match absolute_outcome(target, js) {
        Outcome::Short(w) => Outcome::Short(w),
        Outcome::Ends { result: Err(m), used } => Outcome::Ends { result: Err(m), used },
        Outcome::Ends { result: Ok(c), used } => match mount_source_outcome(c, js.skip(used as int)) {
            Outcome::Short(w) => Outcome::Short(w),
            Outcome::Ends { result: Err(m), used: u2 } => Outcome::Ends { result: Err(m), used: used + u2 },
            Outcome::Ends { result: Ok(None), used: u2 } => Outcome::Ends { result: Err("Not a mounted path: "@ + target), used: used + u2 },
            Outcome::Ends { result: Ok(Some(src)), used: u2 } => match mapper_name_outcome(src, js.skip((used + u2) as int)) {
                Outcome::Short(w) => Outcome::Short(w),
                Outcome::Ends { result: Err(_), used: u3 } => Outcome::Ends {
                    result: Err("Mounted path is not backed by a device-mapper mapper: "@ + target),
                    used: used + u2 + u3,
                },
                Outcome::Ends { result: Ok(name), used: u3 } => Outcome::Ends {
                    result: Ok(resolved(ResolvedTargetKind::Mountpoint, name, Some(c), c)),
                    used: used + u2 + u3,
                },
            },
        },
    }
}

/// What choosing the mapper of a block device comes to: the one of its tag when a tag is
/// given; otherwise the one active `lurker_` mapper on it (none, or more than one, is an
/// error).
pub open spec fn block_name_outcome(target: Seq<char>, tag: Option<Seq<char>>, canonical: Seq<char>, js: Seq<Reply>) -> Outcome<Seq<char>> {
    match tag {
        Some(t) => Outcome::Ends { result: crate::naming::spec_tag_mapper_name(t), used: 0 },
        None => match active_mappers_outcome(canonical, js) {
            Outcome::Short(w) => Outcome::Short(w),
            Outcome::Ends { result: Err(m), used } => Outcome::Ends { result: Err(m), used },
            Outcome::Ends { result: Ok(list), used } => if list.len() == 0 {
                Outcome::Ends { result: Err("Block device is not open via an active lurker mapper: "@ + target), used }
            } else if list.len() > 1 {
                Outcome::Ends {
                    result: Err("Block device matches multiple active lurker mappers: "@ + spaced(list)
                        + ". Use a mountpoint or explicit /dev/mapper path."@),
                    used,
                }
            } else {
                Outcome::Ends { result: Ok(list[0]), used }
            },
        },
    }
}

/// What resolving a block device comes to: its mapper, which must be mounted or exist, and
/// its canonical path.
pub open spec fn block_target_outcome(target: Seq<char>, tag: Option<Seq<char>>, js: Seq<Reply>) -> Outcome<ResolvedTargetView> {
    match canonical_outcome(target, js) {
        Outcome::Short(w) => Outcome::Short(w),
        Outcome::Ends { result: Err(m), used } => Outcome::Ends { result: Err(m), used },
        Outcome::Ends { result: Ok(c), used } => match block_name_outcome(target, tag, c, js.skip(used as int)) {
            Outcome::Short(w) => Outcome::Short(w),
            Outcome::Ends { result: Err(m), used: u2 } => Outcome::Ends { result: Err(m), used: used + u2 },
            Outcome::Ends { result: Ok(name), used: u2 } => after(
                used + u2,
                open_mapper_outcome(
                    ResolvedTargetKind::Block,
                    name,
                    c,
                    if tag is Some {
                        "Block device is not open: "@ + target
                    } else {
                        "Block device is not open via an active lurker mapper: "@ + target
                    },
                    js.skip((used + u2) as int),
                ),
            ),
        },
    }
}

/// What resolving a container file comes to: its mapper (through its tag or its absolute
/// path), which must be mounted or exist, and its absolute path.
pub open spec fn container_target_outcome(target: Seq<char>, tag: Option<Seq<char>>, js: Seq<Reply>) -> Outcome<ResolvedTargetView> {
    match source_kind_outcome(target, js) {
        Outcome::Short(w) => Outcome::Short(w),
        Outcome::Ends { result: Err(m), used } => Outcome::Ends { result: Err(m), used },
        Outcome::Ends { result: Ok(kind), used } => if kind != Some(SourceKind::File) {
            Outcome::Ends { result: Err("File does not exist or is not a regular file: "@ + target), used }
        } else {
            match absolute_outcome(target, js.skip(used as int)) {
                Outcome::Short(w) => Outcome::Short(w),
                Outcome::Ends { result: Err(m), used: u2 } => Outcome::Ends { result: Err(m), used: used + u2 },
                Outcome::Ends { result: Ok(c), used: u2 } => match source_name_outcome(c, tag, js.skip((used + u2) as int)) {
                    Outcome::Short(w) => Outcome::Short(w),
                    Outcome::Ends { result: Err(m), used: u3 } => Outcome::Ends { result: Err(m), used: used + u2 + u3 },
                    Outcome::Ends { result: Ok(name), used: u3 } => after(
                        used + u2 + u3,
                        open_mapper_outcome(ResolvedTargetKind::File, name, c, "Container is not open: "@ + target,
                            js.skip((used + u2 + u3) as int)),
                    ),
                },
            }
        }
    }
}

/// What resolving an unmount target comes to: a path in `/dev/mapper` names its mapper; a
/// directory is a mountpoint; then a block device; anything else must be a container file.
#[verifier::opaque]
pub open spec fn umount_target_outcome(target: Seq<char>, tag: Option<Seq<char>>, js: Seq<Reply>) -> Outcome<ResolvedTargetView> {
    if crate::paths::under_mapper_dir(target) {
        mapper_target_outcome(target, js)
    } else {
        match kind_outcome(target, js, FileKind::Dir) {
            Outcome::Short(w) => Outcome::Short(w),
            Outcome::Ends { result: Err(m), used } => Outcome::Ends { result: Err(m), used },
            Outcome::Ends { result: Ok(true), used } => after(used, mountpoint_target_outcome(target, js.skip(used as int))),
            Outcome::Ends { result: Ok(false), used } => match kind_outcome(target, js.skip(used as int), FileKind::Block) {
                Outcome::Short(w) => Outcome::Short(w),
                Outcome::Ends { result: Err(m), used: u2 } => Outcome::Ends { result: Err(m), used: used + u2 },
                Outcome::Ends { result: Ok(true), used: u2 } => after(used + u2, block_target_outcome(target, tag, js.skip((used + u2) as int))),
                Outcome::Ends { result: Ok(false), used: u2 } => after(used + u2, container_target_outcome(target, tag, js.skip((used + u2) as int))),
            },
        }
    }
}

/// The requests with which resolving the unmount target `target` begins: a `/dev/mapper`
/// path asks whether its mapper's node exists; anything else asks whether it is a directory,
/// then either resolves it as a mountpoint (its absolute path), or asks whether it is a block
/// device and then resolves its canonical path, or looks at what kind of file it is.
pub open spec fn umount_asks(old: Session, new: Session, target: Seq<char>) -> bool {
    if crate::paths::under_mapper_dir(target) {
        asked_at(old, new, 0, QueryView::Metadata(path_join("/dev/mapper"@, crate::naming::spec_normalize_mapper_name(target))))
    } else {
        &&& asked_at(old, new, 0, QueryView::Metadata(target))
        &&& kind_outcome(target, journal(old), FileKind::Dir) matches Outcome::Ends { result: Ok(_), .. } ==> asked_at(old, new, 1, QueryView::Metadata(target))
        &&& kind_outcome(target, journal(old), FileKind::Dir) matches Outcome::Ends { result: Ok(false), .. } ==> {
            &&& kind_outcome(target, journal(old).skip(1), FileKind::Block) matches Outcome::Ends { result: Ok(true), .. } ==> asked_at(old, new, 2, QueryView::Canonicalize(target))
            &&& kind_outcome(target, journal(old).skip(1), FileKind::Block) matches Outcome::Ends { result: Ok(false), .. } ==> asked_at(old, new, 2, QueryView::Metadata(target))
        }
    }
}

/// What makes a resolved target coherent: its mapper path is its name under `/dev/mapper`;
/// a mountpoint input is the mountpoint; a mapper path input is the origin itself.
pub open spec fn resolved_well(t: ResolvedUmountTarget, target: Seq<char>) -> bool {
    &&& t.mapper_path@ == path_join("/dev/mapper"@, t.mapper_name@)
    &&& (t.target_kind == ResolvedTargetKind::Mapper) == crate::paths::under_mapper_dir(target)
    &&& t.target_kind == ResolvedTargetKind::Mapper ==> t.origin@ == target
    &&& t.target_kind == ResolvedTargetKind::Mountpoint ==> (t.mountpoint matches Some(m) && m@ == t.origin@)
}

/// The mapper `name` of a target of kind `kind` named by `origin`, with where it is mounted;
/// `closed` is the error when it is neither mounted nor present.
#[verifier::rlimit(30)]
fn open_mapper(s: &mut Session, kind: ResolvedTargetKind, name: String, origin: String, closed: String) -> (r: Step<ResolvedUmountTarget>)
    ensures
        quiet(*old(s), *final(s)),
        settles(*old(s), *final(s), r, open_mapper_outcome(kind, name@, origin@, closed@, journal(*old(s))),
            |t: ResolvedUmountTarget| t@),
        r matches Ok(t) ==> t.mapper_path@ == path_join("/dev/mapper"@, t.mapper_name@) && t.target_kind == kind
            && t.mapper_name@ == name@ && t.origin@ == origin@,
        r matches Ok(t) ==> (t.mountpoint is None ==> last_asked_metadata(*final(s), t.mapper_path@)),
{
    let mapper_path = crate::naming::mapper_device_path(name.as_str());
    let mountpoint = find_mountpoint_for_source(s, mapper_path.as_str())?;
    if mountpoint.is_none() && !path_exists(s, mapper_path.as_str())? {
        return Err(fail(closed));
    }
    Ok(ResolvedUmountTarget { target_kind: kind, mapper_name: name, mapper_path, mountpoint, origin })
}

/// Resolves a path in `/dev/mapper`.
#[verifier::rlimit(30)]
fn resolve_mapper_target(s: &mut Session, target: &str) -> (r: Step<ResolvedUmountTarget>)
    requires
        crate::paths::under_mapper_dir(target@),
    ensures
        quiet(*old(s), *final(s)),
        settles(*old(s), *final(s), r, mapper_target_outcome(target@, journal(*old(s))), |t: ResolvedUmountTarget| t@),
        r matches Ok(t) ==> resolved_well(t, target@),
        asked_at(*old(s), *final(s), 0, QueryView::Metadata(path_join("/dev/mapper"@, crate::naming::spec_normalize_mapper_name(target@)))),
{
    let mapper_name = mapper_name_from_device_path(s, target)?;
    assert(journal(*s) == journal(*old(s)));
    let mapper_path = crate::naming::mapper_device_path(mapper_name.as_str());
    if !path_exists(s, mapper_path.as_str())? {
        return Err(fail(concat2("Mapper is not active: ", target)));
    }
    let mountpoint = find_mountpoint_for_source(s, mapper_path.as_str())?;
    Ok(ResolvedUmountTarget {
        target_kind: ResolvedTargetKind::Mapper,
        mapper_name,
        mapper_path,
        mountpoint,
        origin: owned(target),
    })
}

/// Resolves a directory: the mapper behind what is mounted there.
#[verifier::rlimit(30)]
fn resolve_mountpoint_target(s: &mut Session, target: &str) -> (r: Step<ResolvedUmountTarget>)
    ensures
        quiet(*old(s), *final(s)),
        settles(*old(s), *final(s), r, mountpoint_target_outcome(target@, journal(*old(s))), |t: ResolvedUmountTarget| t@),
        r matches Ok(t) ==> t.target_kind == ResolvedTargetKind::Mountpoint && t.mapper_path@ == path_join("/dev/mapper"@, t.mapper_name@)
            && (t.mountpoint matches Some(m) && m@ == t.origin@),
        asked_at(*old(s), *final(s), 0, QueryView::Metadata(target@)),
{
    let canonical_target = absolute_path(s, target)?;
    let source = match find_mount_source_for_mountpoint(s, canonical_target.as_str())? {
        Some(src) => src,
        None => return Err(fail(concat2("Not a mounted path: ", target))),
    };
    let mapper_name = match mapper_name_from_device_path(s, source.as_str()) {
        Ok(n) => n,
        Err(Halt::Pending) => return Err(Halt::Pending),
        Err(Halt::Failed(_)) => return Err(fail(concat2("Mounted path is not backed by a device-mapper mapper: ", target))),
    };
    let mapper_path = crate::naming::mapper_device_path(mapper_name.as_str());
    Ok(ResolvedUmountTarget {
        target_kind: ResolvedTargetKind::Mountpoint,
        mapper_name,
        mapper_path,
        mountpoint: Some(canonical_target.clone()),
        origin: canonical_target,
    })
}

/// The mapper of a block device: the one of its tag, or the one active `lurker_` mapper on it.
#[verifier::rlimit(30)]
fn block_mapper_name(s: &mut Session, target: &str, tag: &Option<String>, canonical: &str) -> (r: Step<String>)
    ensures
        quiet(*old(s), *final(s)),
        settles(*old(s), *final(s), r, block_name_outcome(target@, crate::api::opt_text(*tag), canonical@, journal(*old(s))),
            |n: String| n@),
{
    match tag {
        Some(_) => mapper_name_for_source(s, canonical, tag),
        None => {
            let matching = active_lurker_mappers_for_block_device(s, canonical)?;
            if matching.len() == 0 {
                return Err(fail(concat2("Block device is not open via an active lurker mapper: ", target)));
            }
            if matching.len() > 1 {
                let listed = join_words(&matching);
                return Err(fail(crate::text::concat3(
                    "Block device matches multiple active lurker mappers: ",
                    listed.as_str(),
                    ". Use a mountpoint or explicit /dev/mapper path.",
                )));
            }
            Ok(matching[0].clone())
        },
    }
}

/// Resolves a block device.
#[verifier::rlimit(30)]
fn resolve_block_target(s: &mut Session, target: &str, tag: &Option<String>) -> (r: Step<ResolvedUmountTarget>)
    ensures
        quiet(*old(s), *final(s)),
        settles(*old(s), *final(s), r, block_target_outcome(target@, crate::api::opt_text(*tag), journal(*old(s))),
            |t: ResolvedUmountTarget| t@),
        r matches Ok(t) ==> t.target_kind == ResolvedTargetKind::Block && t.mapper_path@ == path_join("/dev/mapper"@, t.mapper_name@),
        r matches Ok(t) ==> (t.mountpoint is None ==> last_asked_metadata(*final(s), t.mapper_path@)),
        asked_at(*old(s), *final(s), 0, QueryView::Canonicalize(target@)),
{
    let canonical_target = canonical_device_path(s, target)?;
    let mapper_name = block_mapper_name(s, target, tag, canonical_target.as_str())?;
    let closed = if tag.is_some() {
        concat2("Block device is not open: ", target)
    } else {
        concat2("Block device is not open via an active lurker mapper: ", target)
    };
    open_mapper(s, ResolvedTargetKind::Block, mapper_name, canonical_target, closed)
}

/// Resolves a container file.
#[verifier::rlimit(30)]
fn resolve_container_target(s: &mut Session, target: &str, tag: &Option<String>) -> (r: Step<ResolvedUmountTarget>)
    ensures
        quiet(*old(s), *final(s)),
        settles(*old(s), *final(s), r, container_target_outcome(target@, crate::api::opt_text(*tag), journal(*old(s))),
            |t: ResolvedUmountTarget| t@),
        r matches Ok(t) ==> t.target_kind == ResolvedTargetKind::File && t.mapper_path@ == path_join("/dev/mapper"@, t.mapper_name@),
        r matches Ok(t) ==> (t.mountpoint is None ==> last_asked_metadata(*final(s), t.mapper_path@)),
        asked_at(*old(s), *final(s), 0, QueryView::Metadata(target@)),
{
    match source_kind_for_path(s, target)? {
        Some(SourceKind::File) => {},
        _ => return Err(fail(concat2("File does not exist or is not a regular file: ", target))),
    }
    let canonical_target = absolute_path(s, target)?;
    let mapper_name = mapper_name_for_source(s, canonical_target.as_str(), tag)?;
    open_mapper(s, ResolvedTargetKind::File, mapper_name, canonical_target, concat2("Container is not open: ", target))
}

/// Resolves what `lurker unmount` was given to the mapper to close: a `/dev/mapper` path, a
/// mountpoint, a block device (through its tag or the one `lurker_` mapper on it), or a
/// container file (through its tag or its path). Resolution only inspects; it runs nothing.
#[verifier::rlimit(30)]
pub fn resolve_umount_target(s: &mut Session, target: &str, tag: &Option<String>) -> (r: Step<ResolvedUmountTarget>)
    ensures
        quiet(*old(s), *final(s)),
        settles(*old(s), *final(s), r, umount_target_outcome(target@, crate::api::opt_text(*tag), journal(*old(s))),
            |t: ResolvedUmountTarget| t@),
        r matches Ok(t) ==> resolved_well(t, target@),
        umount_asks(*old(s), *final(s), target@),
        r matches Ok(t) ==> (t.target_kind != ResolvedTargetKind::Mapper && t.target_kind != ResolvedTargetKind::Mountpoint
            && t.mountpoint is None ==> last_asked_metadata(*final(s), t.mapper_path@)),
{
    proof { reveal(umount_target_outcome); }
    if crate::paths::is_under_mapper_dir(target) {
        return resolve_mapper_target(s, target);
    }
    if is_dir(s, target)? {
        return resolve_mountpoint_target(s, target);
    }
    if is_block_device_target(s, target)? {
        return resolve_block_target(s, target, tag);
    }
    resolve_container_target(s, target, tag)
}

/// The words of a list joined by single spaces.
pub open spec fn spaced(words: Seq<Seq<char>>) -> Seq<char>
    decreases words.len(),
{
    if words.len() == 0 {
        Seq::empty()
    } else if words.len() == 1 {
        words[0]
    } else {
        spaced(words.drop_last()) + " "@ + words.last()
    }
}

/// The strings of a list joined by single spaces.
pub fn join_words(words: &Vec<String>) -> (r: String)
    ensures
        r@ == spaced(crate::cli::strings_view(words@)),
{
    let mut out = String::new();
    let mut i: usize = 0;
    proof { reveal_strlit(""); }
    while i < words.len()
        invariant
            i <= words.len(),
            out@ == spaced(crate::cli::strings_view(words@.take(i as int))),
        decreases words.len() - i,
    {
        let ghost prev = crate::cli::strings_view(words@.take(i as int));
        assert(crate::cli::strings_view(words@.take(i + 1)) =~= prev.push(words@[i as int]@));
        assert(crate::cli::strings_view(words@.take(i + 1)).drop_last() =~= prev);
        if i > 0 {
            crate::text::push_str(&mut out, " ");
        }
        crate::text::push_str(&mut out, words[i].as_str());
        i = i + 1;
    }
    assert(words@.take(words.len() as int) =~= words@);
    out
}

} // verus!
