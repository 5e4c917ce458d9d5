use lurker::api::{CommandAction, MountCommand, UnmountCommand};
use lurker::commands::{
    luks_format_args, luks_open_args, mount_args, tcrypt_open_args, veracrypt_create_args, veracrypt_list_args,
    veracrypt_mount_args, veracrypt_umount_args,
};
use lurker::error::{AppError, AppResult};
use lurker::help::render_help;
use lurker::helper::{elevation_failure, helper_invocation, no_output_error, silent_reply_error, uid_is_root};
use lurker::model::{ColorMode, CreateCipher, SourceKind, VolumeType};
use lurker::mountinfo::{mountinfo_line_fits, MountInfo};
use lurker::operation::{operation_error, operation_response};
use lurker::output::{Output, OutputLevel};
use lurker::paths::{path_file_name, path_parent, paths_equal};
use lurker::session::{Effect, FileFacts, FileKind, IoFailure, Reply};
use lurker::system::{effective_uid_from_status, probe_system, AppContext, FoundTools, ToolPaths};
use lurker::volumes::{list_active_volumes, Listing};
use lurker::workflow::{
    fill_percent, fill_progress_line, header_is_twofish, lists_a_mount, mapper_type_from_status, resolve_volume_type,
    temp_candidate, trim_stdout,
};

fn strings(items: &[&str]) -> Vec<String> {
    items.iter().map(|s| s.to_string()).collect()
}

#[test]
fn aes_profile_matches_the_documented_command() {
    let args = luks_format_args(CreateCipher::Aes, "/dev/sdx", false);
    assert_eq!(
        args,
        strings(&[
            "-v", "--type", "luks2", "-c", "aes-xts-plain64", "-s", "512", "--pbkdf", "argon2id", "--pbkdf-memory",
            "1048576", "-i", "5000", "--use-urandom", "-y", "-q", "luksFormat", "/dev/sdx",
        ])
    );
}

#[test]
fn twofish_profile_uses_large_sectors_and_a_handed_over_key() {
    let args = luks_format_args(CreateCipher::Twofish, "v.img", true);
    assert_eq!(
        args,
        strings(&[
            "-v", "--type", "luks2", "-c", "twofish-xts-plain64", "-s", "512", "--pbkdf", "argon2id", "--pbkdf-memory",
            "1048576", "--pbkdf-parallel", "4", "-i", "5000", "--sector-size", "4096", "--use-urandom", "-y",
            "--key-file=-", "-q", "luksFormat", "v.img",
        ])
    );
}

#[test]
fn open_commands_name_source_then_mapper() {
    assert_eq!(luks_open_args("s", "m", false, false), strings(&["luksOpen", "s", "m"]));
    assert_eq!(
        luks_open_args("s", "m", true, true),
        strings(&[
            "luksOpen", "--perf-no_read_workqueue", "--perf-no_write_workqueue", "--perf-submit_from_crypt_cpus",
            "--key-file=-", "s", "m",
        ])
    );
    assert_eq!(tcrypt_open_args("s", "m", false), strings(&["open", "--type", "tcrypt", "--veracrypt", "s", "m"]));
}

#[test]
fn veracrypt_commands_keep_sha512() {
    assert_eq!(
        veracrypt_create_args(CreateCipher::Serpent, SourceKind::File, 4096, "/v.hc", false),
        strings(&[
            "-t", "--create", "--force", "--volume-type=normal", "--encryption=Serpent", "--hash=SHA-512",
            "--filesystem=none", "--random-source=/dev/urandom", "--pim=0", "-k", "", "--size=4096M", "/v.hc",
        ])
    );
    let block = veracrypt_create_args(CreateCipher::Aes, SourceKind::Block, 0, "/dev/sdb", true);
    assert_eq!(&block[11..], &strings(&["--stdin", "--size=max", "--quick", "/dev/sdb"])[..]);
    assert_eq!(
        veracrypt_mount_args("/v.hc", "/mnt/v", false),
        strings(&["-t", "--mount", "-k", "", "--pim=0", "--protect-hidden=no", "/v.hc", "/mnt/v"])
    );
    assert_eq!(veracrypt_umount_args("/mnt/v"), strings(&["-t", "-u", "/mnt/v"]));
    assert_eq!(veracrypt_list_args("/mnt/v"), strings(&["-t", "-l", "/mnt/v"]));
}

#[test]
fn only_btrfs_gets_compression() {
    assert_eq!(mount_args(&Some("BTRFS".into()), "/dev/mapper/a", "/mnt"), strings(&["-o", "compress=zstd", "/dev/mapper/a", "/mnt"]));
    assert_eq!(mount_args(&Some("ext4".into()), "/dev/mapper/a", "/mnt"), strings(&["/dev/mapper/a", "/mnt"]));
    assert_eq!(mount_args(&None, "/dev/mapper/a", "/mnt"), strings(&["/dev/mapper/a", "/mnt"]));
}

#[test]
fn status_and_dump_texts_are_read() {
    assert_eq!(mapper_type_from_status("/dev/mapper/x is active.\n  type:    LUKS2\n"), Some(VolumeType::Luks));
    assert_eq!(mapper_type_from_status("  type:    TCRYPT\n"), Some(VolumeType::Veracrypt));
    assert_eq!(mapper_type_from_status("  type:    PLAIN\n"), None);
    assert!(header_is_twofish("Data segments:\n  0: crypt\n\tcipher: twofish-xts-plain64\n"));
    assert!(!header_is_twofish("\tcipher: aes-xts-plain64\n"));
    assert!(lists_a_mount("\n  \n/mnt/a\n"));
    assert!(!lists_a_mount("\n   \n"));
    assert_eq!(trim_stdout(&b"  part \n".to_vec()), "part");
}

#[test]
fn temporary_files_sit_next_to_the_target() {
    assert_eq!(temp_candidate("/srv/vault.img", 7, 12345, 3), "/srv/.vault.img.lurker-tmp-7-12345-3");
    assert_eq!(temp_candidate("vault.img", 1, 2, 0), ".vault.img.lurker-tmp-1-2-0");
    assert_eq!(temp_candidate("/srv/", 1, 2, 0), "/.srv.lurker-tmp-1-2-0");
}

#[test]
fn fill_progress_is_right_aligned() {
    assert_eq!(fill_progress_line(0), "  -> Writing random data:   0%");
    assert_eq!(fill_progress_line(42), "  -> Writing random data:  42%");
    assert_eq!(fill_progress_line(100), "  -> Writing random data: 100%");
    assert_eq!(fill_percent(1, 3), 33);
    assert_eq!(fill_percent(0, 0), 100);
}

#[test]
fn type_resolution_messages() {
    assert_eq!(resolve_volume_type(VolumeType::Auto, Some(VolumeType::Luks), "/v", "source", false).unwrap(), VolumeType::Luks);
    assert_eq!(
        resolve_volume_type(VolumeType::Veracrypt, Some(VolumeType::Luks), "/v", "source", false).unwrap_err().message,
        "Requested --type veracrypt but detected luks container for source: /v"
    );
    assert_eq!(
        resolve_volume_type(VolumeType::Luks, None, "/v", "source", false).unwrap_err().message,
        "Requested --type luks but could not verify that source as a luks container: /v"
    );
    assert_eq!(resolve_volume_type(VolumeType::Luks, None, "/v", "target", true).unwrap(), VolumeType::Luks);
}

#[test]
fn paths_follow_path_semantics() {
    assert_eq!(path_parent("/a/b"), Some("/a".to_string()));
    assert_eq!(path_parent("/a"), Some("/".to_string()));
    assert_eq!(path_parent("a"), Some("".to_string()));
    assert_eq!(path_parent("./a"), Some(".".to_string()));
    assert_eq!(path_parent("a/b/"), Some("a".to_string()));
    assert_eq!(path_parent("/"), None);
    assert_eq!(path_parent(""), None);
    assert_eq!(path_file_name("/a/b.img").map(|v| v.into_iter().collect::<String>()), Some("b.img".to_string()));
    assert_eq!(path_file_name("/a/.."), None);
    assert!(paths_equal("/mnt//v/", "/mnt/v"));
    assert!(!paths_equal("mnt/v", "/mnt/v"));
}

#[test]
fn helper_arguments_and_root_detection() {
    assert_eq!(helper_invocation(&strings(&["run"])), Some(false));
    assert_eq!(helper_invocation(&strings(&["--as-root", "run"])), Some(true));
    assert_eq!(helper_invocation(&strings(&["--as-root"])), None);
    assert_eq!(helper_invocation(&strings(&[])), None);
    assert!(uid_is_root(&Some("0".into()), &Some("1000".into())));
    assert!(!uid_is_root(&Some("x".into()), &Some("0".into())));
    assert!(uid_is_root(&None, &Some("0".into())));
    assert!(!uid_is_root(&None, &None));
}

#[test]
fn silent_helpers_are_reported() {
    assert_eq!(silent_reply_error("pkexec", "  denied \n", Some(126)), "denied");
    assert_eq!(silent_reply_error("sudo", "", Some(1)), "sudo helper failed with exit status Some(1).");
    assert_eq!(silent_reply_error("sudo", " ", None), "sudo helper failed with exit status None.");
    assert_eq!(no_output_error("", Some(-2)), "lurker-helper returned no output (exit code Some(-2)).");
    assert_eq!(elevation_failure("a", "b"), "a\n\nb");
}

#[test]
fn responses_end_with_the_error() {
    let mut output = Output::buffered();
    output.msg("step");
    let ok = operation_response(&Ok(()), &output);
    assert!(ok.ok);
    assert_eq!(ok.logs.len(), 1);
    let failed = operation_response(&Err(AppError::new("bad".into())), &output);
    assert!(!failed.ok);
    assert_eq!(failed.error.as_deref(), Some("bad"));
    assert_eq!(failed.logs.last().unwrap().level, OutputLevel::Error);
    let early = operation_error("Helper request was empty.".into());
    assert_eq!(early.logs.len(), 1);
    assert_eq!(early.error.as_deref(), Some("Helper request was empty."));
}

#[test]
fn silent_outputs_keep_nothing_and_terminals_render() {
    let mut silent = Output::silent();
    silent.warn("x");
    assert!(silent.entries.is_empty());
    let mut terminal = Output::new(ColorMode::Never, false, false);
    terminal.warn("careful");
    terminal.msg2("detail");
    let (to_stderr, text) = terminal.render(&terminal.entries[0]).unwrap();
    assert!(to_stderr);
    assert_eq!(text, "warning: careful\n");
    assert_eq!(terminal.render(&terminal.entries[1]).unwrap(), (false, "  -> detail\n".to_string()));
    let colored = Output::new(ColorMode::Always, false, false);
    assert_eq!(colored.render(&terminal.entries[1]).unwrap().1, "\u{1b}[1;34m  ->\u{1b}[0m detail\n");
}

#[test]
fn effective_uid_is_read_from_status_text() {
    assert_eq!(effective_uid_from_status("Name: x\nUid:\t1000\t0\t0\t0\n").unwrap(), 0);
    assert_eq!(effective_uid_from_status("Uid:\t1000\n").unwrap_err().message, "Failed to parse effective uid.");
    assert_eq!(effective_uid_from_status("Gid:\t1\n").unwrap_err().message, "Failed to locate effective uid.");
    assert_eq!(effective_uid_from_status("Uid: 1 +7\n").unwrap(), 7);
}

fn all_tools() -> FoundTools {
    FoundTools {
        cryptsetup: Some("/sbin/cryptsetup".into()),
        mkfs_btrfs: None,
        mount: Some("/bin/mount".into()),
        umount: None,
        lsblk: Some("/bin/lsblk".into()),
        blkid: None,
        veracrypt: None,
        sudo: None,
        pkexec: Some("/bin/pkexec".into()),
    }
}

#[test]
fn probe_lists_nine_tools_in_order() {
    let status: AppResult<String> = Ok("Uid:\t0\t0\t0\t0\n".into());
    let probe = probe_system(&status, &all_tools()).unwrap();
    assert!(probe.is_root);
    let names: Vec<&str> = probe.tools.iter().map(|t| t.name.as_str()).collect();
    assert_eq!(names, vec!["cryptsetup", "mkfs.btrfs", "mount", "umount", "lsblk", "blkid", "veracrypt", "sudo", "pkexec"]);
    assert_eq!(probe.tools[1].path, None);
    assert!(probe.tools[4].required);
    assert!(!probe.tools[8].required);
    let unreadable: AppResult<String> = Err(AppError::new("Failed to read /proc/self/status: denied".into()));
    assert_eq!(probe_system(&unreadable, &all_tools()).unwrap_err().message, "Failed to read /proc/self/status: denied");
}

#[test]
fn tools_are_required_per_operation() {
    let mount = CommandAction::Mount(MountCommand {
        source: "a".into(),
        mountpoint: "b".into(),
        tag: None,
        volume_type: VolumeType::Auto,
        passphrase: None,
        readonly: false,
    });
    let tools: ToolPaths = ToolPaths::resolve(&mount, &all_tools()).unwrap();
    assert_eq!(tools.mount.as_deref(), Some("/bin/mount"));
    let unmount = CommandAction::Unmount(UnmountCommand { target: "a".into(), tag: None, volume_type: VolumeType::Auto });
    assert_eq!(ToolPaths::resolve(&unmount, &all_tools()).unwrap_err().message, "Required command not found: umount");
}

#[test]
fn help_names_the_program() {
    let text = render_help("vaultctl", ColorMode::Never, true, false, false);
    assert!(text.contains("vaultctl create"));
    assert!(!text.contains("\u{1b}["));
}

#[test]
fn mount_lines_with_wide_escapes_do_not_fit() {
    assert!(mountinfo_line_fits("1 2 3 4 /mnt/a\\040b rw - ext4 /dev/sda rw"));
    assert!(!mountinfo_line_fits("1 2 3 4 /mnt/a\\777b rw - ext4 /dev/sda rw"));
}

fn missing() -> IoFailure {
    IoFailure { not_found: true, message: "gone".into() }
}

/// Answers the listing requests of a machine with two lurker mappers, one of them mounted.
fn answer(effect: &Effect) -> Reply {
    match effect {
        Effect::ReadMounts => Reply::Mounts(Ok(vec![
            MountInfo { mount_point: "/".into(), source: Some("/dev/sda1".into()), fs_type: "ext4".into() },
            MountInfo { mount_point: "/mnt/b".into(), source: Some("/dev/mapper/lurker_b".into()), fs_type: "btrfs".into() },
        ])),
        Effect::ListDir { .. } => Reply::Entries(Ok(vec![
            Ok("/dev/mapper/lurker_b".into()),
            Ok("/dev/mapper/control".into()),
            Ok("/dev/mapper/other".into()),
            Ok("/dev/mapper/lurker_a".into()),
        ])),
        Effect::Canonicalize { path } => match path.as_str() {
            "/dev/mapper/lurker_b" => Reply::Canonical(Ok("/dev/dm-1".into())),
            "/dev/mapper/lurker_a" => Reply::Canonical(Ok("/dev/dm-0".into())),
            "/dev/sda1" => Reply::Canonical(Ok("/dev/sda1".into())),
            _ => Reply::Canonical(Err(missing())),
        },
        Effect::Metadata { .. } => Reply::Facts(Ok(FileFacts { kind: FileKind::Block, readonly: false })),
        _ => Reply::Done(Err(missing())),
    }
}

#[test]
fn active_volumes_are_listed_by_name_with_their_mounts() {
    let mut effects: Vec<Effect> = Vec::new();
    let volumes = loop {
        let journal: Vec<Reply> = effects.iter().map(answer).collect();
        match list_active_volumes(journal) {
            Listing::Need(e) => {
                assert!(!matches!(e, Effect::Exec { .. }));
                effects.push(e);
            }
            Listing::Done(result) => break result.unwrap(),
        }
    };
    assert_eq!(volumes.len(), 2);
    assert_eq!(volumes[0].mapper_name, "lurker_a");
    assert_eq!(volumes[0].mountpoint, None);
    assert_eq!(volumes[1].mapper_name, "lurker_b");
    assert_eq!(volumes[1].mountpoint.as_deref(), Some("/mnt/b"));
    assert_eq!(volumes[1].filesystem_type.as_deref(), Some("btrfs"));
}

#[test]
fn the_veracrypt_fallback_is_noticed_once() {
    let tools = ToolPaths {
        cryptsetup: "/sbin/cryptsetup".into(),
        mkfs_btrfs: None,
        mount: None,
        umount: None,
        blkid: None,
        lsblk: None,
        veracrypt: None,
        sudo: None,
    };
    let mut ctx = AppContext { output: Output::buffered(), tools, is_root: true, sudo_ready: false, cleanup_mapper: None, veracrypt_fallback_noticed: false };
    assert!(!ctx.have_veracrypt());
    let missing = ctx.veracrypt_path().unwrap_err();
    assert_eq!(missing.message, "Required command not found: veracrypt");
    assert_eq!(missing.exit_code, 1);
    for _ in 0..3 {
        ctx.notice_veracrypt_fallback();
    }
    let entries = ctx.output.entries;
    assert_eq!(entries.len(), 1);
    assert_eq!(entries[0].level, OutputLevel::Detail);
    assert_eq!(entries[0].message, "veracrypt not found; falling back to cryptsetup for veracrypt container");
}
