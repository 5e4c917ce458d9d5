//! The active `lurker_` volumes: each open mapper with where its filesystem is mounted, in the
//! order of their names.

use vstd::prelude::*;
use vstd::multiset::Multiset;
use crate::api::{ActiveVolume, ActiveVolumeView};
use crate::error::AppResult;
use crate::linux;
use crate::error::io_message;
use crate::session::{after, journal, quiet, settles, Effect, Halt, IoFailure, Outcome, Reply, Session, Step};
use crate::text::{char_vec, chars_start_with, has_prefix, owned, string_from_chars};

verus! {

broadcast use vstd::string::group_string_axioms, vstd::seq_lib::lemma_seq_skip_of_skip;

/// Whether `a` comes before `b` in the order of their characters (`str` ordering).
pub open spec fn text_lt(a: Seq<char>, b: Seq<char>) -> bool
    decreases a.len(),
{
    if a.len() == 0 {
        b.len() > 0
    } else if b.len() == 0 {
        false
    } else if a[0] != b[0] {
        a[0] < b[0]
    } else {
        text_lt(a.drop_first(), b.drop_first())
    }
}

/// Whether `a` does not come after `b`.
pub open spec fn text_le(a: Seq<char>, b: Seq<char>) -> bool {
    !text_lt(b, a)
}

/// The order is strict: nothing comes before itself, and of two texts at most one comes first.
pub proof fn text_lt_asymmetric(a: Seq<char>, b: Seq<char>)
    ensures
        !(text_lt(a, b) && text_lt(b, a)),
        !text_lt(a, a),
    decreases a.len(),
{
    if a.len() > 0 && b.len() > 0 && a[0] == b[0] {
        text_lt_asymmetric(a.drop_first(), b.drop_first());
    }
    if a.len() > 0 {
        text_lt_asymmetric(a.drop_first(), a.drop_first());
    }
}

/// The order is transitive.
pub proof fn text_lt_transitive(a: Seq<char>, b: Seq<char>, c: Seq<char>)
    requires
        text_lt(a, b),
        text_lt(b, c),
    ensures
        text_lt(a, c),
    decreases a.len(),
{
    if a.len() > 0 && b.len() > 0 && c.len() > 0 && a[0] == b[0] && b[0] == c[0] {
        text_lt_transitive(a.drop_first(), b.drop_first(), c.drop_first());
    }
}

/// Two different texts are ordered one way or the other.
pub proof fn text_lt_total(a: Seq<char>, b: Seq<char>)
    ensures
        a == b || text_lt(a, b) || text_lt(b, a),
    decreases a.len(),
{
    if a.len() > 0 && b.len() > 0 && a[0] == b[0] {
        text_lt_total(a.drop_first(), b.drop_first());
        if a.drop_first() == b.drop_first() {
            assert(a =~= seq![a[0]] + a.drop_first());
            assert(b =~= seq![b[0]] + b.drop_first());
        }
    }
    if a.len() == 0 && b.len() == 0 {
        assert(a =~= b);
    }
}

/// Whether `a` comes before `b`.
pub fn chars_lt(a: &Vec<char>, b: &Vec<char>) -> (r: bool)
    ensures
        r == text_lt(a@, b@),
{
    let mut i: usize = 0;
    assert(a@.skip(0) =~= a@);
    assert(b@.skip(0) =~= b@);
    while i < a.len() && i < b.len() && a[i] == b[i]
        invariant
            i <= a.len(),
            i <= b.len(),
            text_lt(a@, b@) == text_lt(a@.skip(i as int), b@.skip(i as int)),
        decreases a.len() - i,
    {
        assert(a@.skip(i as int).drop_first() =~= a@.skip(i + 1));
        assert(b@.skip(i as int).drop_first() =~= b@.skip(i + 1));
        i = i + 1;
    }
    if i == a.len() {
        return i < b.len();
    }
    if i == b.len() {
        return false;
    }
    assert(a@.skip(i as int)[0] == a@[i as int]);
    assert(b@.skip(i as int)[0] == b@[i as int]);
    a[i] < b[i]
}

/// Whether the volumes are in the order of their mapper names.
pub open spec fn sorted_by_name(v: Seq<ActiveVolume>) -> bool {
    forall|i: int, j: int| 0 <= i < j < v.len() ==> text_le(#[trigger] v[i].mapper_name@, #[trigger] v[j].mapper_name@)
}

/// Inserts a volume after every volume whose name does not come after its own.
#[verifier::loop_isolation(false)]
fn insert_by_name(v: &mut Vec<ActiveVolume>, x: ActiveVolume)
    requires
        sorted_by_name(old(v)@),
    ensures
        sorted_by_name(final(v)@),
        final(v)@.to_multiset() == old(v)@.to_multiset().insert(x),
        exists|j: int| 0 <= j <= old(v)@.len() && final(v)@ == old(v)@.insert(j, x),
{
    let xn = char_vec(x.mapper_name.as_str());
    let mut j: usize = 0;
    while j < v.len()
        invariant
            j <= v.len(),
            v@ == old(v)@,
            sorted_by_name(v@),
            xn@ == x.mapper_name@,
            forall|k: int| 0 <= k < j ==> text_le(#[trigger] v@[k].mapper_name@, x.mapper_name@),
        decreases v.len() - j,
    {
        let yn = char_vec(v[j].mapper_name.as_str());
        if chars_lt(&xn, &yn) {
            break;
        }
        j = j + 1;
    }
    let ghost before = v@;
    proof {
        if j < before.len() {
            assert(text_lt(x.mapper_name@, before[j as int].mapper_name@));
        }
    }
    v.insert(j, x);
    proof {
        assert forall|a: int, b: int| 0 <= a < b < v@.len() implies text_le(#[trigger] v@[a].mapper_name@, #[trigger] v@[b].mapper_name@) by {
            if b < j {
                assert(v@[a] == before[a] && v@[b] == before[b]);
            } else if b == j {
                assert(v@[a] == before[a]);
            } else if a == j {
                assert(v@[b] == before[b - 1]);
                // x comes before before[j], which does not come after before[b - 1]
                let xs = x.mapper_name@;
                let nj = before[j as int].mapper_name@;
                let nb = before[b - 1].mapper_name@;
                assert(text_lt(xs, nj));
                if b - 1 > j {
                    assert(text_le(nj, nb));
                }
                if text_lt(nb, xs) {
                    if nj == nb {
                        text_lt_asymmetric(xs, nj);
                    } else {
                        text_lt_total(nj, nb);
                        if text_lt(nj, nb) {
                            text_lt_transitive(nb, xs, nj);
                            text_lt_asymmetric(nj, nb);
                        } else {
                            text_lt_transitive(nb, xs, nj);
                        }
                    }
                }
            } else if a < j {
                assert(v@[a] == before[a] && v@[b] == before[b - 1]);
            } else {
                assert(v@[a] == before[a - 1] && v@[b] == before[b - 1]);
            }
        }
    }
    assert(v@ =~= before.insert(j as int, x));
    proof {
        vstd::seq_lib::to_multiset_insert(before, j as int, x);
    }
}


/// Whether every volume is an open `lurker_` mapper at its path under `/dev/mapper`.
pub open spec fn lurker_volumes(v: Seq<ActiveVolume>) -> bool {
    forall|i: int| 0 <= i < v.len() ==> {
        &&& has_prefix(#[trigger] v[i].mapper_name@, "lurker_"@)
        &&& crate::paths::file_name(v[i].mapper_path@) == Some(v[i].mapper_name@)
    }
}

/// Where the first mount from position `k` on whose source resolves to `canon` stands, the
/// sources' canonical forms taken from `js` one by one.
pub open spec fn mount_scan(ms: Seq<crate::mountinfo::MountInfo>, k: nat, canon: Seq<char>, js: Seq<Reply>) -> Outcome<Option<nat>>
    decreases ms.len() - k,
{
    if k >= ms.len() {
        Outcome::Ends { result: Ok(None), used: 0 }
    } else {
        match ms[k as int].source {
            None => mount_scan(ms, k + 1, canon, js),
            Some(src) => match linux::canonical_outcome(src@, js) {
                Outcome::Ends { result: Ok(c), used } => if crate::paths::same_path(c, canon) {
                    Outcome::Ends { result: Ok(Some(k)), used }
                } else {
                    after(used, mount_scan(ms, k + 1, canon, js.skip(used as int)))
                },
                Outcome::Ends { result: Err(m), used } => Outcome::Ends { result: Err(m), used },
                Outcome::Short(w) => Outcome::Short(w),
            },
        }
    }
}

/// The volume of the mapper at `path` named `name`, with the mount point and filesystem of
/// the mount at `found`, if any.
pub open spec fn volume_at(path: Seq<char>, name: Seq<char>, ms: Seq<crate::mountinfo::MountInfo>, found: Option<nat>) -> ActiveVolumeView {
    ActiveVolumeView {
        mapper_name: name,
        mapper_path: path,
        mountpoint: match found {
            Some(k) => Some(ms[k as int].mount_point@),
            None => None,
        },
        filesystem_type: match found {
            Some(k) => Some(ms[k as int].fs_type@),
            None => None,
        },
    }
}

/// What the entry `p` of `/dev/mapper` contributes to the volumes: the volume of a `lurker_`
/// mapper (the control node aside), with the first mount whose source resolves to the same
/// path as the mapper; nothing otherwise.
pub open spec fn volume_entry_outcome(p: Seq<char>, ms: Seq<crate::mountinfo::MountInfo>, js: Seq<Reply>) -> Outcome<Seq<ActiveVolumeView>> {
    if crate::paths::same_path(p, "/dev/mapper/control"@) {
        Outcome::Ends { result: Ok(Seq::empty()), used: 0 }
    } else {
        match crate::paths::file_name(p) {
            Some(name) => if has_prefix(name, "lurker_"@) {
                match linux::canonical_outcome(p, js) {
                    Outcome::Short(w) => Outcome::Short(w),
                    Outcome::Ends { result: Err(m), used } => Outcome::Ends { result: Err(m), used },
                    Outcome::Ends { result: Ok(c), used } => match mount_scan(ms, 0, c, js.skip(used as int)) {
                        Outcome::Short(w) => Outcome::Short(w),
                        Outcome::Ends { result: Err(m), used: u2 } => Outcome::Ends { result: Err(m), used: used + u2 },
                        Outcome::Ends { result: Ok(found), used: u2 } => Outcome::Ends {
                            result: Ok(seq![volume_at(p, name, ms, found)]),
                            used: used + u2,
                        },
                    },
                }
            } else {
                Outcome::Ends { result: Ok(Seq::empty()), used: 0 }
            },
            None => Outcome::Ends { result: Ok(Seq::empty()), used: 0 },
        }
    }
}

/// An outcome whose volumes, if it ends with some, have `front` put before them.
pub open spec fn volumes_led_by(front: Seq<ActiveVolumeView>, o: Outcome<Seq<ActiveVolumeView>>) -> Outcome<Seq<ActiveVolumeView>> {
    match o {
        Outcome::Ends { result: Ok(list), used } => Outcome::Ends { result: Ok(front + list), used },
        other => other,
    }
}

/// The volumes of the entries of `/dev/mapper`, in the order of the entries.
pub open spec fn volume_scan(entries: Seq<Result<String, IoFailure>>, ms: Seq<crate::mountinfo::MountInfo>, js: Seq<Reply>) -> Outcome<Seq<ActiveVolumeView>>
    decreases entries.len(),
{
    if entries.len() == 0 {
        Outcome::Ends { result: Ok(Seq::empty()), used: 0 }
    } else {
        match entries[0] {
            Err(f) => Outcome::Ends { result: Err(io_message("Failed to inspect /dev/mapper"@, f.message@)), used: 0 },
            Ok(p) => match volume_entry_outcome(p@, ms, js) {
                Outcome::Short(w) => Outcome::Short(w),
                Outcome::Ends { result: Err(m), used } => Outcome::Ends { result: Err(m), used },
                Outcome::Ends { result: Ok(found), used } => after(used, volumes_led_by(found, volume_scan(entries.drop_first(), ms, js.skip(used as int)))),
            },
        }
    }
}

/// What listing the active volumes comes to: the volumes of the entries of `/dev/mapper`,
/// with the mount table and the entries read first, taken without regard to order.
pub open spec fn volumes_outcome(js: Seq<Reply>) -> Outcome<Multiset<ActiveVolumeView>> {
    match linux::mounts_outcome(js) {
        Outcome::Short(w) => Outcome::Short(w),
        Outcome::Ends { result: Err(m), used } => Outcome::Ends { result: Err(m), used },
        Outcome::Ends { result: Ok(ms), used } => match linux::entries_outcome("/dev/mapper"@, js.skip(used as int)) {
            Outcome::Short(w) => Outcome::Short(w),
            Outcome::Ends { result: Err(m), used: u2 } => Outcome::Ends { result: Err(m), used: used + u2 },
            Outcome::Ends { result: Ok(Err(f)), used: u2 } => Outcome::Ends {
                result: Err(io_message("Failed to inspect /dev/mapper"@, f.message@)),
                used: used + u2,
            },
            Outcome::Ends { result: Ok(Ok(es)), used: u2 } => match volume_scan(es@, ms, js.skip((used + u2) as int)) {
                Outcome::Ends { result: Ok(list), used: u3 } => Outcome::Ends { result: Ok(list.to_multiset()), used: used + u2 + u3 },
                Outcome::Ends { result: Err(m), used: u3 } => Outcome::Ends { result: Err(m), used: used + u2 + u3 },
                Outcome::Short(w) => Outcome::Short(w),
            },
        },
    }
}

/// The volumes seen as character sequences.
pub open spec fn volume_views(v: Seq<ActiveVolume>) -> Seq<ActiveVolumeView> {
    v.map_values(|x: ActiveVolume| x@)
}

/// The first mount whose source resolves to the same path as the mapper.
#[verifier::loop_isolation(false)]
fn mount_of_mapper(s: &mut Session, mounts: &Vec<crate::mountinfo::MountInfo>, canonical_mapper: &str) -> (r: Step<Option<usize>>)
    ensures
        quiet(*old(s), *final(s)),
        r matches Ok(Some(k)) ==> k < mounts.len(),
        settles(*old(s), *final(s), r, mount_scan(mounts@, 0, canonical_mapper@, journal(*old(s))),
            |o: Option<usize>| match o { Some(k) => Some(k as nat), None => None }),
{
    let mut k: usize = 0;
    assert(journal(*s).skip(0) =~= journal(*s));
    while k < mounts.len()
        invariant
            k <= mounts.len(),
            quiet(*old(s), *s),
            journal(*s).len() <= journal(*old(s)).len(),
            journal(*s) == journal(*old(s)).skip(journal(*old(s)).len() - journal(*s).len()),
            mount_scan(mounts@, 0, canonical_mapper@, journal(*old(s)))
                == after((journal(*old(s)).len() - journal(*s).len()) as nat, mount_scan(mounts@, k as nat, canonical_mapper@, journal(*s))),
        decreases mounts.len() - k,
    {
        match &mounts[k].source {
            Some(source) => {
                let c = match linux::canonical_device_path(s, source.as_str()) {
                    Ok(c) => c,
                    Err(h) => return Err(h),
                };
                if crate::paths::paths_equal(c.as_str(), canonical_mapper) {
                    return Ok(Some(k));
                }
                assert(journal(*s) == journal(*old(s)).skip(journal(*old(s)).len() - journal(*s).len()));
            },
            None => {},
        }
        k = k + 1;
    }
    Ok(None)
}

/// The volume that the entry `path` of `/dev/mapper` contributes, if any.
#[verifier::rlimit(30)]
fn volume_of_entry(s: &mut Session, path: &String, mounts: &Vec<crate::mountinfo::MountInfo>) -> (r: Step<Option<ActiveVolume>>)
    ensures
        quiet(*old(s), *final(s)),
        r matches Ok(Some(v)) ==> has_prefix(v.mapper_name@, "lurker_"@) && crate::paths::file_name(v.mapper_path@) == Some(v.mapper_name@),
        settles(*old(s), *final(s), r, volume_entry_outcome(path@, mounts@, journal(*old(s))),
            |o: Option<ActiveVolume>| match o { Some(v) => seq![v@], None => Seq::empty() }),
{
    let prefix = char_vec("lurker_");
    if crate::paths::paths_equal(path.as_str(), "/dev/mapper/control") {
        assert(journal(*s).skip(0) =~= journal(*s));
        return Ok(None);
    }
    let name = match crate::paths::path_file_name(path.as_str()) {
        Some(name) => name,
        None => {
            assert(journal(*s).skip(0) =~= journal(*s));
            return Ok(None);
        },
    };
    if !chars_start_with(&name, &prefix) {
        assert(journal(*s).skip(0) =~= journal(*s));
        return Ok(None);
    }
    let canonical_mapper = linux::canonical_device_path(s, path.as_str())?;
    let found = mount_of_mapper(s, mounts, canonical_mapper.as_str())?;
    let (mountpoint, filesystem_type) = match found {
        Some(k) => (Some(mounts[k].mount_point.clone()), Some(mounts[k].fs_type.clone())),
        None => (None, None),
    };
    Ok(Some(ActiveVolume {
        mapper_name: string_from_chars(&name),
        mapper_path: path.clone(),
        mountpoint,
        filesystem_type,
    }))
}

/// Puts `x` into sorted volumes, keeping them sorted, lurker-named, and with their views
/// those of before and `x`.
proof fn lemma_insert_views(before: Seq<ActiveVolume>, after_insert: Seq<ActiveVolume>, x: ActiveVolume)
    requires
        exists|j: int| 0 <= j <= before.len() && after_insert == before.insert(j, x),
    ensures
        volume_views(after_insert).to_multiset() == volume_views(before).to_multiset().insert(x@),
{
    let j = choose|j: int| 0 <= j <= before.len() && after_insert == before.insert(j, x);
    assert(volume_views(after_insert) =~= volume_views(before).insert(j, x@));
    vstd::seq_lib::to_multiset_insert(volume_views(before), j, x@);
}

/// The open `lurker_` mappers, each with the mount point and filesystem of the first mount
/// whose source resolves to it, in the order of their names. Listing only looks; it runs
/// nothing.
#[verifier::rlimit(30)]
pub fn active_volumes(s: &mut Session) -> (r: Step<Vec<ActiveVolume>>)
    ensures
        quiet(*old(s), *final(s)),
        r matches Ok(v) ==> sorted_by_name(v@) && lurker_volumes(v@),
        settles(*old(s), *final(s), r, volumes_outcome(journal(*old(s))), |v: Vec<ActiveVolume>| volume_views(v@).to_multiset()),
{
    let mounts = linux::read_mountinfo(s)?;
    let entries = match linux::list_dir(s, "/dev/mapper")? {
        Ok(v) => v,
        Err(f) => return Err(crate::session::io_error("Failed to inspect /dev/mapper", &f)),
    };
    collect_volumes(s, &entries, &mounts)
}

/// The volumes of the entries of `/dev/mapper`, in the order of their names.
#[verifier::rlimit(30)]
fn collect_volumes(s: &mut Session, entries: &Vec<Result<String, IoFailure>>, mounts: &Vec<crate::mountinfo::MountInfo>) -> (r: Step<Vec<ActiveVolume>>)
    ensures
        quiet(*old(s), *final(s)),
        r matches Ok(v) ==> sorted_by_name(v@) && lurker_volumes(v@),
        settles(*old(s), *final(s), r, match volume_scan(entries@, mounts@, journal(*old(s))) {
            Outcome::Ends { result: Ok(list), used } => Outcome::Ends { result: Ok(list.to_multiset()), used },
            Outcome::Ends { result: Err(m), used } => Outcome::Ends { result: Err(m), used },
            Outcome::Short(w) => Outcome::Short(w),
        }, |v: Vec<ActiveVolume>| volume_views(v@).to_multiset()),
{
    let ghost start = *s;
    let mut volumes: Vec<ActiveVolume> = Vec::new();
    let ghost mut collected: Seq<ActiveVolumeView> = Seq::empty();
    let mut i: usize = 0;
    assert(entries@.skip(0) =~= entries@);
    assert(journal(*s).skip(0) =~= journal(*s));
    assert(volume_views(volumes@) =~= Seq::<ActiveVolumeView>::empty());
    assert(collected + volume_views(volumes@) =~= collected);
    while i < entries.len()
        invariant
            i <= entries.len(),
            start == *old(s),
            quiet(start, *s),
            sorted_by_name(volumes@),
            lurker_volumes(volumes@),
            volume_views(volumes@).to_multiset() == collected.to_multiset(),
            journal(*s).len() <= journal(start).len(),
            journal(*s) == journal(start).skip(journal(start).len() - journal(*s).len()),
            volume_scan(entries@, mounts@, journal(start))
                == after((journal(start).len() - journal(*s).len()) as nat,
                    volumes_led_by(collected, volume_scan(entries@.skip(i as int), mounts@, journal(*s)))),
        decreases entries.len() - i,
    {
        assert(entries@.skip(i as int).drop_first() =~= entries@.skip(i + 1));
        assert(entries@.skip(i as int)[0] == entries@[i as int]);
        let path = match &entries[i] {
            Err(f) => return Err(crate::session::io_error("Failed to inspect /dev/mapper", f)),
            Ok(p) => p,
        };
        let ghost mid = *s;
        let found = match volume_of_entry(s, path, mounts) {
            Ok(f) => f,
            Err(h) => return Err(h),
        };
        let ghost before = volumes@;
        let ghost added: Seq<ActiveVolumeView> = match &found { Some(v) => seq![v@], None => Seq::empty() };
        proof {
            let k = (journal(start).len() - journal(mid).len()) as nat;
            let u = (journal(mid).len() - journal(*s).len()) as nat;
            let rest = volume_scan(entries@.skip(i + 1), mounts@, journal(*s));
            if let Outcome::Ends { result: Ok(list), used } = rest {
                assert(collected + (added + list) =~= (collected + added) + list);
            }
        }
        match found {
            Some(v) => {
                let ghost vv = v;
                insert_by_name(&mut volumes, v);
                proof {
                    lemma_insert_views(before, volumes@, vv);
                    vstd::seq_lib::to_multiset_build(collected, vv@);
                    assert(collected + added =~= collected.push(vv@));
                    assert forall|j: int| 0 <= j < volumes@.len() implies {
                        &&& has_prefix(#[trigger] volumes@[j].mapper_name@, "lurker_"@)
                        &&& crate::paths::file_name(volumes@[j].mapper_path@) == Some(volumes@[j].mapper_name@)
                    } by {
                        let jj = choose|jj: int| 0 <= jj <= before.len() && volumes@ == before.insert(jj, vv);
                        if j < jj {
                            assert(volumes@[j] == before[j]);
                        } else if j > jj {
                            assert(volumes@[j] == before[j - 1]);
                        }
                    }
                    collected = collected + added;
                }
            },
            None => {
                proof {
                    assert(collected + added =~= collected);
                    collected = collected + added;
                }
            },
        }
        assert(journal(*s) == journal(start).skip(journal(start).len() - journal(*s).len()));
        i = i + 1;
    }
    assert(entries@.skip(i as int) =~= Seq::<Result<String, IoFailure>>::empty());
    assert(collected + Seq::<ActiveVolumeView>::empty() =~= collected);
    Ok(volumes)
}

/// What the caller does next while listing volumes.
pub enum Listing {
    /// Perform this request, append its reply to the journal, and list again.
    Need(Effect),
    /// The volumes, or why they could not be listed.
    Done(AppResult<Vec<ActiveVolume>>),
}

/// Lists the active volumes against the replies gathered so far.
pub fn list_active_volumes(journal: Vec<Reply>) -> (r: Listing)
    ensures
        !(r matches Listing::Need(e) && crate::session::is_exec(e)),
        r matches Listing::Done(Ok(v)) ==> sorted_by_name(v@) && lurker_volumes(v@),
        match volumes_outcome(journal@) {
            Outcome::Ends { result: Ok(m), .. } => r matches Listing::Done(Ok(v)) && volume_views(v@).to_multiset() == m,
            Outcome::Ends { result: Err(m), .. } => r matches Listing::Done(Err(e)) && e.message@ == m,
            Outcome::Short(w) => r matches Listing::Need(e) && w matches Some(q) && crate::session::query_of(e) == Some(q),
        },
{
    let mut s = Session::new(crate::system::AppContext::observer(), journal);
    match active_volumes(&mut s) {
        Ok(v) => Listing::Done(Ok(v)),
        Err(Halt::Failed(e)) => Listing::Done(Err(e)),
        Err(Halt::Pending) => match s.need.take() {
            Some(e) => Listing::Need(e),
            None => {
            let m = owned("The listing stopped without a request.");
            proof { reveal_strlit("The listing stopped without a request."); }
            Listing::Done(Err(crate::error::AppError::new(m)))
        },
        },
    }
}

} // verus!
