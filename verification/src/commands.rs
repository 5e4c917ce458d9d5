//! The command lines of the external tools: the create profiles of each cipher, and the
//! queries and actions of `cryptsetup`, `veracrypt`, `mkfs.btrfs`, `mount`, `umount`, `blkid`
//! and `lsblk`.

use vstd::prelude::*;
use crate::cli::strings_view;
use crate::model::{CreateCipher, SourceKind};
use crate::text::{concat3, decimal, decimal_string, eq_ignore_case, chars_eq_ignore_case, char_vec, owned};

verus! {

broadcast use vstd::string::group_string_axioms;

/// Appends `s` to a list of strings.
pub fn push_text(v: &mut Vec<String>, s: &str)
    ensures
        strings_view(final(v)@) == strings_view(old(v)@).push(s@),
{
    v.push(owned(s));
    assert(strings_view(v@) =~= strings_view(old(v)@).push(s@));
}

/// The `luksFormat` options of a cipher profile: LUKS2 with Argon2id, a 512-bit XTS key,
/// key material from `/dev/urandom`, and passphrase verification.
pub open spec fn luks_profile(cipher: CreateCipher) -> Seq<Seq<char>> {
    match cipher {
        CreateCipher::Aes => seq![
            "-v"@, "--type"@, "luks2"@, "-c"@, "aes-xts-plain64"@, "-s"@, "512"@,
            "--pbkdf"@, "argon2id"@, "--pbkdf-memory"@, "1048576"@, "-i"@, "5000"@,
            "--use-urandom"@, "-y"@,
        ],
        CreateCipher::Serpent => seq![
            "-v"@, "--type"@, "luks2"@, "-c"@, "serpent-xts-plain64"@, "-s"@, "512"@,
            "--pbkdf"@, "argon2id"@, "--pbkdf-memory"@, "2097152"@, "--pbkdf-parallel"@, "4"@, "-i"@, "10000"@,
            "--use-urandom"@, "-y"@,
        ],
        CreateCipher::Twofish => seq![
            "-v"@, "--type"@, "luks2"@, "-c"@, "twofish-xts-plain64"@, "-s"@, "512"@,
            "--pbkdf"@, "argon2id"@, "--pbkdf-memory"@, "1048576"@, "--pbkdf-parallel"@, "4"@, "-i"@, "5000"@,
            "--sector-size"@, "4096"@,
            "--use-urandom"@, "-y"@,
        ],
    }
}

/// The option that makes `cryptsetup` read the passphrase from standard input, when the
/// passphrase is handed over rather than typed.
pub open spec fn key_from_stdin(keyed: bool) -> Seq<Seq<char>> {
    if keyed { seq!["--key-file=-"@] } else { Seq::empty() }
}

/// `cryptsetup` arguments that format `target` with the profile of `cipher`, without asking
/// for confirmation.
pub open spec fn luks_format_line(cipher: CreateCipher, target: Seq<char>, keyed: bool) -> Seq<Seq<char>> {
    luks_profile(cipher) + key_from_stdin(keyed) + seq!["-q"@, "luksFormat"@, target]
}

/// The `cryptsetup` arguments that format `target` as LUKS2 with the profile of `cipher`.
pub fn luks_format_args(cipher: CreateCipher, target: &str, keyed: bool) -> (r: Vec<String>)
    ensures
        strings_view(r@) == luks_format_line(cipher, target@, keyed),
{
    let mut v: Vec<String> = Vec::new();
    push_text(&mut v, "-v");
    push_text(&mut v, "--type");
    push_text(&mut v, "luks2");
    push_text(&mut v, "-c");
    match cipher {
        CreateCipher::Aes => push_text(&mut v, "aes-xts-plain64"),
        CreateCipher::Serpent => push_text(&mut v, "serpent-xts-plain64"),
        CreateCipher::Twofish => push_text(&mut v, "twofish-xts-plain64"),
    }
    push_text(&mut v, "-s");
    push_text(&mut v, "512");
    push_text(&mut v, "--pbkdf");
    push_text(&mut v, "argon2id");
    push_text(&mut v, "--pbkdf-memory");
    match cipher {
        CreateCipher::Serpent => push_text(&mut v, "2097152"),
        _ => push_text(&mut v, "1048576"),
    }
    match cipher {
        CreateCipher::Aes => {},
        _ => {
            push_text(&mut v, "--pbkdf-parallel");
            push_text(&mut v, "4");
        },
    }
    push_text(&mut v, "-i");
    match cipher {
        CreateCipher::Serpent => push_text(&mut v, "10000"),
        _ => push_text(&mut v, "5000"),
    }
    match cipher {
        CreateCipher::Twofish => {
            push_text(&mut v, "--sector-size");
            push_text(&mut v, "4096");
        },
        _ => {},
    }
    push_text(&mut v, "--use-urandom");
    push_text(&mut v, "-y");
    assert(strings_view(v@) =~= luks_profile(cipher));
    if keyed {
        push_text(&mut v, "--key-file=-");
    }
    assert(strings_view(v@) =~= luks_profile(cipher) + key_from_stdin(keyed));
    push_text(&mut v, "-q");
    push_text(&mut v, "luksFormat");
    push_text(&mut v, target);
    assert(strings_view(v@) =~= luks_format_line(cipher, target@, keyed));
    v
}


/// The open-time options that speed up Twofish volumes on fast disks.
pub open spec fn twofish_perf_flags() -> Seq<Seq<char>> {
    seq!["--perf-no_read_workqueue"@, "--perf-no_write_workqueue"@, "--perf-submit_from_crypt_cpus"@]
}

/// `cryptsetup` arguments that open the LUKS volume `source` as `mapper`, with the Twofish
/// performance options when `perf` holds.
pub open spec fn luks_open_line(source: Seq<char>, mapper: Seq<char>, perf: bool, keyed: bool) -> Seq<Seq<char>> {
    seq!["luksOpen"@] + (if perf { twofish_perf_flags() } else { Seq::empty() }) + key_from_stdin(keyed) + seq![source, mapper]
}

/// The `cryptsetup` arguments that open a LUKS volume.
pub fn luks_open_args(source: &str, mapper: &str, perf: bool, keyed: bool) -> (r: Vec<String>)
    ensures
        strings_view(r@) == luks_open_line(source@, mapper@, perf, keyed),
{
    let mut v: Vec<String> = Vec::new();
    push_text(&mut v, "luksOpen");
    if perf {
        push_text(&mut v, "--perf-no_read_workqueue");
        push_text(&mut v, "--perf-no_write_workqueue");
        push_text(&mut v, "--perf-submit_from_crypt_cpus");
    }
    if keyed {
        push_text(&mut v, "--key-file=-");
    }
    push_text(&mut v, source);
    push_text(&mut v, mapper);
    assert(strings_view(v@) =~= luks_open_line(source@, mapper@, perf, keyed));
    v
}

/// `cryptsetup` arguments that open the VeraCrypt volume `source` as `mapper`.
pub open spec fn tcrypt_open_line(source: Seq<char>, mapper: Seq<char>, keyed: bool) -> Seq<Seq<char>> {
    seq!["open"@, "--type"@, "tcrypt"@, "--veracrypt"@] + key_from_stdin(keyed) + seq![source, mapper]
}

/// The `cryptsetup` arguments that open a VeraCrypt volume.
pub fn tcrypt_open_args(source: &str, mapper: &str, keyed: bool) -> (r: Vec<String>)
    ensures
        strings_view(r@) == tcrypt_open_line(source@, mapper@, keyed),
{
    let mut v: Vec<String> = Vec::new();
    push_text(&mut v, "open");
    push_text(&mut v, "--type");
    push_text(&mut v, "tcrypt");
    push_text(&mut v, "--veracrypt");
    if keyed {
        push_text(&mut v, "--key-file=-");
    }
    push_text(&mut v, source);
    push_text(&mut v, mapper);
    assert(strings_view(v@) =~= tcrypt_open_line(source@, mapper@, keyed));
    v
}

/// A list of texts of the given views.
fn texts2(a: &str, b: &str) -> (r: Vec<String>)
    ensures
        strings_view(r@) == seq![a@, b@],
{
    let mut v: Vec<String> = Vec::new();
    push_text(&mut v, a);
    push_text(&mut v, b);
    assert(strings_view(v@) =~= seq![a@, b@]);
    v
}

/// The `cryptsetup` arguments that close a mapper.
pub fn close_args(mapper: &str) -> (r: Vec<String>)
    ensures
        strings_view(r@) == seq!["close"@, mapper@],
{
    texts2("close", mapper)
}

/// The `cryptsetup` arguments that report the status of a mapper.
pub fn status_args(mapper: &str) -> (r: Vec<String>)
    ensures
        strings_view(r@) == seq!["status"@, mapper@],
{
    texts2("status", mapper)
}

/// The `cryptsetup` arguments that test for a LUKS header.
pub fn is_luks_args(source: &str) -> (r: Vec<String>)
    ensures
        strings_view(r@) == seq!["isLuks"@, source@],
{
    texts2("isLuks", source)
}

/// The `cryptsetup` arguments that print a LUKS header.
pub fn luks_dump_args(source: &str) -> (r: Vec<String>)
    ensures
        strings_view(r@) == seq!["luksDump"@, source@],
{
    texts2("luksDump", source)
}

/// The `cryptsetup` arguments that test for a VeraCrypt header.
pub fn tcrypt_dump_args(source: &str) -> (r: Vec<String>)
    ensures
        strings_view(r@) == seq!["tcryptDump"@, "--type"@, "tcrypt"@, "--veracrypt"@, source@],
{
    let mut v: Vec<String> = Vec::new();
    push_text(&mut v, "tcryptDump");
    push_text(&mut v, "--type");
    push_text(&mut v, "tcrypt");
    push_text(&mut v, "--veracrypt");
    push_text(&mut v, source);
    assert(strings_view(v@) =~= seq!["tcryptDump"@, "--type"@, "tcrypt"@, "--veracrypt"@, source@]);
    v
}

/// The name VeraCrypt gives a cipher profile.
pub open spec fn veracrypt_cipher(cipher: CreateCipher) -> Seq<char> {
    match cipher {
        CreateCipher::Aes => "AES"@,
        CreateCipher::Serpent => "Serpent"@,
        CreateCipher::Twofish => "Twofish"@,
    }
}

/// The name VeraCrypt gives a cipher profile.
pub fn veracrypt_cipher_name(cipher: CreateCipher) -> (r: &'static str)
    ensures
        r@ == veracrypt_cipher(cipher),
{
    match cipher {
        CreateCipher::Aes => "AES",
        CreateCipher::Serpent => "Serpent",
        CreateCipher::Twofish => "Twofish",
    }
}

/// The encryption `veracrypt` is asked for is the cipher profile that was chosen: its VeraCrypt
/// name is the profile's command-line name up to ASCII case, reads back as that profile, and
/// no two profiles share a VeraCrypt name.
pub proof fn veracrypt_encryption_is_the_chosen_cipher(c: CreateCipher, d: CreateCipher)
    ensures
        crate::text::ascii_lowercase(veracrypt_cipher(c)) == crate::model::cipher_name(c),
        crate::model::spec_cipher(crate::text::ascii_lowercase(veracrypt_cipher(c))) == Some(c),
        veracrypt_cipher(c) == veracrypt_cipher(d) ==> c == d,
{
    reveal_strlit("AES");
    reveal_strlit("Serpent");
    reveal_strlit("Twofish");
    reveal_strlit("aes");
    reveal_strlit("serpent");
    reveal_strlit("twofish");
    assert(crate::text::ascii_lowercase("AES"@) =~= "aes"@);
    assert(crate::text::ascii_lowercase("Serpent"@) =~= "serpent"@);
    assert(crate::text::ascii_lowercase("Twofish"@) =~= "twofish"@);
    assert("AES"@ != "Serpent"@);
    assert("AES"@ != "Twofish"@);
    assert("Serpent"@[0] != "Twofish"@[0]);
    crate::model::cipher_name_round_trip(c);
}

/// The option that makes `veracrypt` read the password from standard input.
pub open spec fn password_from_stdin(keyed: bool) -> Seq<Seq<char>> {
    if keyed { seq!["--stdin"@] } else { Seq::empty() }
}

/// `veracrypt` arguments that create a normal, password-only volume on `path` with the given
/// cipher and SHA-512, no filesystem: of `size_mib` MiB in a file, or filling a device with a
/// quick format.
pub open spec fn veracrypt_create_line(cipher: CreateCipher, kind: SourceKind, size_mib: u64, path: Seq<char>, keyed: bool) -> Seq<Seq<char>> {
    seq![
        "-t"@, "--create"@, "--force"@, "--volume-type=normal"@, "--encryption="@ + veracrypt_cipher(cipher),
        "--hash=SHA-512"@, "--filesystem=none"@, "--random-source=/dev/urandom"@, "--pim=0"@, "-k"@, ""@,
    ] + password_from_stdin(keyed) + (match kind {
        SourceKind::File => seq!["--size="@ + decimal(size_mib as nat) + "M"@],
        SourceKind::Block => seq!["--size=max"@, "--quick"@],
    }) + seq![path]
}

/// The `veracrypt` arguments that create a volume.
pub fn veracrypt_create_args(cipher: CreateCipher, kind: SourceKind, size_mib: u64, path: &str, keyed: bool) -> (r: Vec<String>)
    ensures
        strings_view(r@) == veracrypt_create_line(cipher, kind, size_mib, path@, keyed),
{
    let mut v: Vec<String> = Vec::new();
    push_text(&mut v, "-t");
    push_text(&mut v, "--create");
    push_text(&mut v, "--force");
    push_text(&mut v, "--volume-type=normal");
    let encryption = crate::text::concat2("--encryption=", veracrypt_cipher_name(cipher));
    push_text(&mut v, encryption.as_str());
    push_text(&mut v, "--hash=SHA-512");
    push_text(&mut v, "--filesystem=none");
    push_text(&mut v, "--random-source=/dev/urandom");
    push_text(&mut v, "--pim=0");
    push_text(&mut v, "-k");
    push_text(&mut v, "");
    if keyed {
        push_text(&mut v, "--stdin");
    }
    match kind {
        SourceKind::File => {
            let size = decimal_string(size_mib);
            let opt = concat3("--size=", size.as_str(), "M");
            push_text(&mut v, opt.as_str());
        },
        SourceKind::Block => {
            push_text(&mut v, "--size=max");
            push_text(&mut v, "--quick");
        },
    }
    push_text(&mut v, path);
    assert(strings_view(v@) =~= veracrypt_create_line(cipher, kind, size_mib, path@, keyed));
    v
}

/// `veracrypt` arguments that mount `source` at `mountpoint`.
pub open spec fn veracrypt_mount_line(source: Seq<char>, mountpoint: Seq<char>, keyed: bool) -> Seq<Seq<char>> {
    seq!["-t"@, "--mount"@, "-k"@, ""@, "--pim=0"@, "--protect-hidden=no"@] + password_from_stdin(keyed) + seq![source, mountpoint]
}

/// The `veracrypt` arguments that mount a volume.
pub fn veracrypt_mount_args(source: &str, mountpoint: &str, keyed: bool) -> (r: Vec<String>)
    ensures
        strings_view(r@) == veracrypt_mount_line(source@, mountpoint@, keyed),
{
    let mut v: Vec<String> = Vec::new();
    push_text(&mut v, "-t");
    push_text(&mut v, "--mount");
    push_text(&mut v, "-k");
    push_text(&mut v, "");
    push_text(&mut v, "--pim=0");
    push_text(&mut v, "--protect-hidden=no");
    if keyed {
        push_text(&mut v, "--stdin");
    }
    push_text(&mut v, source);
    push_text(&mut v, mountpoint);
    assert(strings_view(v@) =~= veracrypt_mount_line(source@, mountpoint@, keyed));
    v
}

fn texts3(a: &str, b: &str, c: &str) -> (r: Vec<String>)
    ensures
        strings_view(r@) == seq![a@, b@, c@],
{
    let mut v: Vec<String> = Vec::new();
    push_text(&mut v, a);
    push_text(&mut v, b);
    push_text(&mut v, c);
    assert(strings_view(v@) =~= seq![a@, b@, c@]);
    v
}

/// The `veracrypt` arguments that dismount a volume.
pub fn veracrypt_umount_args(identifier: &str) -> (r: Vec<String>)
    ensures
        strings_view(r@) == seq!["-t"@, "-u"@, identifier@],
{
    texts3("-t", "-u", identifier)
}

/// The `veracrypt` arguments that list a mounted volume.
pub fn veracrypt_list_args(identifier: &str) -> (r: Vec<String>)
    ensures
        strings_view(r@) == seq!["-t"@, "-l"@, identifier@],
{
    texts3("-t", "-l", identifier)
}

/// The `mkfs.btrfs` arguments that create a filesystem on a device.
pub fn mkfs_args(device: &str) -> (r: Vec<String>)
    ensures
        strings_view(r@) == seq!["-q"@, device@],
{
    texts2("-q", device)
}

/// Whether a detected filesystem is Btrfs (the name compared ignoring ASCII case).
pub open spec fn is_btrfs(filesystem: Option<Seq<char>>) -> bool {
    filesystem matches Some(f) && eq_ignore_case(f, "btrfs"@)
}

/// `mount` arguments for the mapper device at `mountpoint`: Btrfs is mounted with
/// `compress=zstd`, anything else without options.
pub open spec fn mount_line(filesystem: Option<Seq<char>>, device: Seq<char>, mountpoint: Seq<char>) -> Seq<Seq<char>> {
    (if is_btrfs(filesystem) { seq!["-o"@, "compress=zstd"@] } else { Seq::empty() }) + seq![device, mountpoint]
}

/// The `mount` arguments for a mapper device.
pub fn mount_args(filesystem: &Option<String>, device: &str, mountpoint: &str) -> (r: Vec<String>)
    ensures
        strings_view(r@) == mount_line(crate::api::opt_text(*filesystem), device@, mountpoint@),
{
    let btrfs = match filesystem {
        Some(f) => {
            let fv = char_vec(f.as_str());
            let bv = char_vec("btrfs");
            chars_eq_ignore_case(&fv, &bv)
        },
        None => false,
    };
    let mut v: Vec<String> = Vec::new();
    if btrfs {
        push_text(&mut v, "-o");
        push_text(&mut v, "compress=zstd");
    }
    push_text(&mut v, device);
    push_text(&mut v, mountpoint);
    assert(strings_view(v@) =~= mount_line(crate::api::opt_text(*filesystem), device@, mountpoint@));
    v
}

/// The `lsblk` arguments that print one column for a device alone.
pub fn lsblk_column_args(column: &str, device: &str) -> (r: Vec<String>)
    ensures
        strings_view(r@) == seq!["-ndo"@, column@, "--"@, device@],
{
    let mut v: Vec<String> = Vec::new();
    push_text(&mut v, "-ndo");
    push_text(&mut v, column);
    push_text(&mut v, "--");
    push_text(&mut v, device);
    assert(strings_view(v@) =~= seq!["-ndo"@, column@, "--"@, device@]);
    v
}

/// The `lsblk` arguments that print the mountpoints of a device and its children.
pub fn lsblk_tree_mounts_args(device: &str) -> (r: Vec<String>)
    ensures
        strings_view(r@) == seq!["-nrpo"@, "MOUNTPOINT"@, "--"@, device@],
{
    let mut v: Vec<String> = Vec::new();
    push_text(&mut v, "-nrpo");
    push_text(&mut v, "MOUNTPOINT");
    push_text(&mut v, "--");
    push_text(&mut v, device);
    assert(strings_view(v@) =~= seq!["-nrpo"@, "MOUNTPOINT"@, "--"@, device@]);
    v
}

/// The `blkid` arguments that print the filesystem type of a device.
pub fn blkid_type_args(device: &str) -> (r: Vec<String>)
    ensures
        strings_view(r@) == seq!["-o"@, "value"@, "-s"@, "TYPE"@, "--"@, device@],
{
    let mut v: Vec<String> = Vec::new();
    push_text(&mut v, "-o");
    push_text(&mut v, "value");
    push_text(&mut v, "-s");
    push_text(&mut v, "TYPE");
    push_text(&mut v, "--");
    push_text(&mut v, device);
    assert(strings_view(v@) =~= seq!["-o"@, "value"@, "-s"@, "TYPE"@, "--"@, device@]);
    v
}

/// A Btrfs filesystem is mounted with `compress=zstd`, and no other filesystem is.
pub proof fn btrfs_mounts_compressed(filesystem: Option<Seq<char>>, device: Seq<char>, mountpoint: Seq<char>)
    ensures
        is_btrfs(filesystem) <==> (mount_line(filesystem, device, mountpoint).len() == 4
            && mount_line(filesystem, device, mountpoint)[0] == "-o"@
            && mount_line(filesystem, device, mountpoint)[1] == "compress=zstd"@),
        !is_btrfs(filesystem) ==> mount_line(filesystem, device, mountpoint) == seq![device, mountpoint],
{
    if !is_btrfs(filesystem) {
        assert(mount_line(filesystem, device, mountpoint) =~= seq![device, mountpoint]);
    } else {
        assert(mount_line(filesystem, device, mountpoint) =~= seq!["-o"@, "compress=zstd"@, device, mountpoint]);
    }
}

/// Every create profile formats LUKS2 with Argon2id, a 512-bit key and passphrase
/// verification, and the command formats the target it was given, last.
pub proof fn luks_profiles_share_the_basics(cipher: CreateCipher, target: Seq<char>, keyed: bool)
    ensures
        luks_profile(cipher).subrange(0, 3) == seq!["-v"@, "--type"@, "luks2"@],
        luks_profile(cipher)[5] == "-s"@ && luks_profile(cipher)[6] == "512"@,
        luks_profile(cipher)[7] == "--pbkdf"@ && luks_profile(cipher)[8] == "argon2id"@,
        luks_profile(cipher).last() == "-y"@,
        luks_format_line(cipher, target, keyed).last() == target,
        luks_format_line(cipher, target, keyed)[luks_format_line(cipher, target, keyed).len() - 2] == "luksFormat"@,
{
    assert(luks_profile(cipher).subrange(0, 3) =~= seq!["-v"@, "--type"@, "luks2"@]);
}


/// VeraCrypt volumes are always created with SHA-512 and the chosen cipher, password-only and
/// without a filesystem, whatever the cipher and the kind of target.
pub proof fn veracrypt_create_keeps_sha512(cipher: CreateCipher, kind: SourceKind, size_mib: u64, path: Seq<char>, keyed: bool)
    ensures
        veracrypt_create_line(cipher, kind, size_mib, path, keyed)[4] == "--encryption="@ + veracrypt_cipher(cipher),
        veracrypt_create_line(cipher, kind, size_mib, path, keyed)[5] == "--hash=SHA-512"@,
        veracrypt_create_line(cipher, kind, size_mib, path, keyed)[6] == "--filesystem=none"@,
        veracrypt_create_line(cipher, kind, size_mib, path, keyed).last() == path,
{
}

/// The profiles differ as documented: AES takes 1 GiB and 5 s of Argon2id; Serpent 2 GiB, four
/// lanes and 10 s; Twofish 1 GiB, four lanes, 5 s and 4 KiB sectors. All three use a 512-bit
/// XTS key.
pub proof fn cipher_profiles_differ_as_documented()
    ensures
        luks_profile(CreateCipher::Aes).len() == 15,
        luks_profile(CreateCipher::Aes)[4] == "aes-xts-plain64"@,
        luks_profile(CreateCipher::Aes).subrange(9, 13) == seq!["--pbkdf-memory"@, "1048576"@, "-i"@, "5000"@],
        luks_profile(CreateCipher::Serpent).len() == 17,
        luks_profile(CreateCipher::Serpent)[4] == "serpent-xts-plain64"@,
        luks_profile(CreateCipher::Serpent).subrange(9, 15) == seq!["--pbkdf-memory"@, "2097152"@, "--pbkdf-parallel"@, "4"@, "-i"@, "10000"@],
        luks_profile(CreateCipher::Twofish).len() == 19,
        luks_profile(CreateCipher::Twofish)[4] == "twofish-xts-plain64"@,
        luks_profile(CreateCipher::Twofish).subrange(9, 17) == seq!["--pbkdf-memory"@, "1048576"@, "--pbkdf-parallel"@, "4"@, "-i"@, "5000"@, "--sector-size"@, "4096"@],
{
    assert(luks_profile(CreateCipher::Aes).subrange(9, 13) =~= seq!["--pbkdf-memory"@, "1048576"@, "-i"@, "5000"@]);
    assert(luks_profile(CreateCipher::Serpent).subrange(9, 15) =~= seq!["--pbkdf-memory"@, "2097152"@, "--pbkdf-parallel"@, "4"@, "-i"@, "10000"@]);
    assert(luks_profile(CreateCipher::Twofish).subrange(9, 17) =~= seq!["--pbkdf-memory"@, "1048576"@, "--pbkdf-parallel"@, "4"@, "-i"@, "5000"@, "--sector-size"@, "4096"@]);
}

} // verus!
