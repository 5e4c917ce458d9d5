use lurker::api::{CommandAction, CreateCommand, MountCommand, UnmountCommand};
use lurker::error::AppResult;
use lurker::model::{CreateCipher, SourceKind, VolumeType};
use lurker::mountinfo::MountInfo;
use lurker::operation::{run, run_buffered, BufferedTurn, Progress};
use lurker::output::{Output, OutputEntry, OutputLevel};
use lurker::session::{Effect, FileFacts, FileKind, IoFailure, Ran, Reply, StdioMode};
use lurker::linux::resolve_umount_target;
use lurker::session::Session;
use lurker::system::{AppContext, FoundTools, ToolPaths};

/// A pretend machine: which paths exist and what, what is mounted, and what commands print.
#[derive(Clone, Default)]
struct Fake {
    dirs: Vec<String>,
    files: Vec<String>,
    blocks: Vec<String>,
    mounts: Vec<(String, String, String)>,
    failing: Vec<String>,
    outputs: Vec<(String, String)>,
    tty: bool,
}

fn missing() -> IoFailure {
    IoFailure { not_found: true, message: "No such file or directory (os error 2)".into() }
}

impl Fake {
    fn facts(&self, path: &str) -> Result<FileFacts, IoFailure> {
        let kind = if self.dirs.iter().any(|d| d == path) {
            FileKind::Dir
        } else if self.files.iter().any(|f| f == path) {
            FileKind::File
        } else if self.blocks.iter().any(|b| b == path) {
            FileKind::Block
        } else {
            return Err(missing());
        };
        Ok(FileFacts { kind, readonly: false })
    }

    fn reply(&self, effect: &Effect) -> Reply {
        match effect {
            Effect::Exec { argv, .. } => {
                let line = argv.join(" ");
                let success = !self.failing.iter().any(|f| line.contains(f.as_str()));
                let stdout = self
                    .outputs
                    .iter()
                    .find(|(needle, _)| line.contains(needle.as_str()))
                    .map(|(_, out)| out.as_bytes().to_vec())
                    .unwrap_or_default();
                Reply::Ran(Ok(Ran { success, stdout }))
            }
            Effect::Metadata { path } | Effect::SymlinkMetadata { path } => Reply::Facts(self.facts(path)),
            Effect::Canonicalize { path } => match self.facts(path) {
                Ok(_) => Reply::Canonical(Ok(path.clone())),
                Err(e) => Reply::Canonical(Err(e)),
            },
            Effect::ReadMounts => Reply::Mounts(Ok(self
                .mounts
                .iter()
                .map(|(point, source, fs)| MountInfo { mount_point: point.clone(), source: Some(source.clone()), fs_type: fs.clone() })
                .collect())),
            Effect::ListDir { .. } => Reply::Entries(Ok(Vec::new())),
            Effect::ReadText { .. } => Reply::Text(Err(missing())),
            Effect::StdinIsTty => Reply::Tty(self.tty),
            Effect::Clock => Reply::Clock { pid: 42, nanos: 7 },
            Effect::FillRandom { .. } => Reply::Filled(Ok(())),
            Effect::SetPrivate { .. } | Effect::Rename { .. } | Effect::RemoveFile { .. } => Reply::Done(Ok(())),
        }
    }
}

fn tools() -> FoundTools {
    let at = |name: &str| Some(format!("/usr/bin/{name}"));
    FoundTools {
        cryptsetup: at("cryptsetup"),
        mkfs_btrfs: at("mkfs.btrfs"),
        mount: at("mount"),
        umount: at("umount"),
        lsblk: at("lsblk"),
        blkid: at("blkid"),
        veracrypt: None,
        sudo: at("sudo"),
        pkexec: None,
    }
}

fn root_status() -> AppResult<String> {
    Ok("Name:\tlurker\nUid:\t0\t0\t0\t0\nGid:\t0\t0\t0\t0\n".to_string())
}

fn user_status() -> AppResult<String> {
    Ok("Uid:\t1000\t1000\t1000\t1000\n".to_string())
}

/// Runs an operation to its end against the fake, returning every request and the outcome.
fn drive(command: &CommandAction, found: &FoundTools, status: &AppResult<String>, fake: &Fake) -> (Vec<Effect>, AppResult<()>, Vec<OutputEntry>) {
    let mut effects: Vec<Effect> = Vec::new();
    for _ in 0..200 {
        let journal: Vec<Reply> = effects.iter().map(|e| fake.reply(e)).collect();
        let turn = run(command, Output::buffered(), found, status, journal);
        match turn.progress {
            Progress::Need(e) => effects.push(e),
            Progress::Finished(result) => return (effects, result, turn.output.entries),
        }
    }
    panic!("the operation did not end");
}

fn argv_of(e: &Effect) -> Option<Vec<String>> {
    match e {
        Effect::Exec { argv, .. } => Some(argv.clone()),
        _ => None,
    }
}

fn runs(effects: &[Effect]) -> Vec<Vec<String>> {
    effects.iter().filter_map(argv_of).collect()
}

fn create(target: &str, size: Option<&str>, kind: SourceKind, force: bool, cipher: CreateCipher, volume_type: VolumeType) -> CommandAction {
    CommandAction::Create(CreateCommand {
        target: target.into(),
        size_gb: size.map(|s| s.to_string()),
        force,
        source_kind: kind,
        volume_type,
        cipher,
        passphrase: None,
    })
}

#[test]
fn block_create_without_force_runs_nothing() {
    let fake = Fake { blocks: vec!["/dev/sdz1".into()], tty: true, ..Fake::default() };
    let command = create("/dev/sdz1", None, SourceKind::Block, false, CreateCipher::Aes, VolumeType::Luks);
    let (effects, result, _) = drive(&command, &tools(), &root_status(), &fake);
    assert!(runs(&effects).is_empty());
    assert_eq!(result.unwrap_err().message, "Block-device create is destructive. Re-run with -F to continue: /dev/sdz1");
}

#[test]
fn create_on_a_mapper_is_refused() {
    let fake = Fake { blocks: vec!["/dev/mapper/x".into()], tty: true, ..Fake::default() };
    let command = create("/dev/mapper/x", None, SourceKind::Block, true, CreateCipher::Aes, VolumeType::Luks);
    let (effects, result, _) = drive(&command, &tools(), &root_status(), &fake);
    assert!(runs(&effects).is_empty());
    assert_eq!(result.unwrap_err().message, "Refusing to create on an active mapper device: /dev/mapper/x");
}

#[test]
fn file_create_uses_the_cipher_profile_and_a_temporary_file() {
    let fake = Fake { dirs: vec!["/tmp".into()], tty: true, ..Fake::default() };
    let command = create("/tmp/vault.img", Some("1"), SourceKind::File, false, CreateCipher::Serpent, VolumeType::Luks);
    let (effects, result, entries) = drive(&command, &tools(), &root_status(), &fake);
    result.unwrap();
    let temp = "/tmp/.vault.img.lurker-tmp-42-7-0";
    assert!(effects.iter().any(|e| matches!(e, Effect::FillRandom { path, size_mib: 1024, .. } if path == temp)));
    let ran = runs(&effects);
    let format: Vec<&str> = vec![
        "/usr/bin/cryptsetup", "-v", "--type", "luks2", "-c", "serpent-xts-plain64", "-s", "512", "--pbkdf", "argon2id",
        "--pbkdf-memory", "2097152", "--pbkdf-parallel", "4", "-i", "10000", "--use-urandom", "-y", "-q", "luksFormat", temp,
    ];
    assert_eq!(ran[0], format);
    assert_eq!(ran[1][1], "luksOpen");
    assert_eq!(ran[1][2], temp);
    let mapper = ran[1][3].clone();
    assert!(mapper.starts_with("lurker_vault.img_"));
    assert_eq!(ran[2], vec!["/usr/bin/mkfs.btrfs".to_string(), "-q".into(), format!("/dev/mapper/{mapper}")]);
    assert_eq!(ran[3], vec!["/usr/bin/cryptsetup".to_string(), "close".into(), mapper.clone()]);
    assert!(matches!(effects.last().unwrap(), Effect::Rename { from, to } if from == temp && to == "/tmp/vault.img"));
    assert!(entries.iter().any(|e| e.level == OutputLevel::Success && e.message == "Created LUKS+Btrfs volume on /tmp/vault.img"));
    assert!(entries.iter().any(|e| e.message == "Target size: 1 GB (1024 MiB)"));
}

#[test]
fn veracrypt_file_create_writes_the_header_then_secures_the_file() {
    let fake = Fake { dirs: vec!["/tmp".into()], tty: true, ..Fake::default() };
    let mut found = tools();
    found.veracrypt = Some("/usr/bin/veracrypt".into());
    let command = create("/tmp/vault.hc", Some("2"), SourceKind::File, false, CreateCipher::Aes, VolumeType::Veracrypt);
    let (effects, result, entries) = drive(&command, &found, &root_status(), &fake);
    result.unwrap();
    let temp = "/tmp/.vault.hc.lurker-tmp-42-7-0";
    let ran = runs(&effects);
    assert_eq!(ran[0][0], "/usr/bin/veracrypt");
    assert_eq!(ran[0].last().unwrap(), temp);
    let header_at = effects.iter().position(|e| argv_of(e).map_or(false, |a| a[0] == "/usr/bin/veracrypt")).unwrap();
    assert!(matches!(&effects[header_at + 1], Effect::SetPrivate { path } if path == temp));
    assert_eq!(ran[1][..4].to_vec(), vec!["/usr/bin/cryptsetup", "open", "--type", "tcrypt"]);
    assert_eq!(ran[1][ran[1].len() - 2], temp);
    let mapper = ran[1].last().unwrap().clone();
    assert_eq!(ran[2], vec!["/usr/bin/mkfs.btrfs".to_string(), "-q".into(), format!("/dev/mapper/{mapper}")]);
    assert_eq!(ran[3], vec!["/usr/bin/cryptsetup".to_string(), "close".into(), mapper]);
    assert_eq!(ran.len(), 4);
    assert!(matches!(effects.last().unwrap(), Effect::Rename { from, to } if from == temp && to == "/tmp/vault.hc"));
    assert!(entries.iter().any(|e| e.level == OutputLevel::Success && e.message == "Created VeraCrypt+Btrfs volume on /tmp/vault.hc"));
}

#[test]
fn create_with_auto_type_is_refused_after_the_target_check() {
    let fake = Fake { dirs: vec!["/tmp".into()], tty: true, ..Fake::default() };
    let command = create("/tmp/v.img", Some("1"), SourceKind::File, false, CreateCipher::Aes, VolumeType::Auto);
    let (effects, result, _) = drive(&command, &tools(), &root_status(), &fake);
    assert!(runs(&effects).is_empty());
    assert_eq!(effects.len(), 2);
    assert_eq!(result.unwrap_err().message, "Option --type auto is not valid with create.");
}

#[test]
fn failed_mkfs_closes_the_mapper_and_removes_the_temporary_file() {
    let fake = Fake { dirs: vec!["/tmp".into()], tty: true, failing: vec!["mkfs.btrfs".into()], ..Fake::default() };
    let mut fake_with_mapper = fake.clone();
    let command = create("/tmp/vault.img", Some("1"), SourceKind::File, false, CreateCipher::Aes, VolumeType::Luks);
    let (effects, _, _) = drive(&command, &tools(), &root_status(), &fake);
    let mapper = runs(&effects)[1][3].clone();
    fake_with_mapper.blocks.push(format!("/dev/mapper/{mapper}"));
    let (effects, result, entries) = drive(&command, &tools(), &root_status(), &fake_with_mapper);
    assert_eq!(result.unwrap_err().message, "Failed to create Btrfs filesystem failed.");
    assert!(effects.iter().any(|e| matches!(e, Effect::RemoveFile { path } if path == "/tmp/.vault.img.lurker-tmp-42-7-0")));
    let ran = runs(&effects);
    assert_eq!(ran.last().unwrap(), &vec!["/usr/bin/cryptsetup".to_string(), "close".into(), mapper.clone()]);
    assert!(entries.iter().any(|e| e.level == OutputLevel::Warning && e.message == format!("Closing mapper {mapper} after failed action.")));
}

#[test]
fn block_create_checks_the_device_then_formats_it_privileged() {
    let fake = Fake {
        blocks: vec!["/dev/sdz1".into()],
        tty: true,
        outputs: vec![("FSTYPE".into(), "ext4\n".into()), ("TYPE".into(), "part\n".into())],
        ..Fake::default()
    };
    let command = create("/dev/sdz1", None, SourceKind::Block, true, CreateCipher::Twofish, VolumeType::Luks);
    let (effects, result, entries) = drive(&command, &tools(), &user_status(), &fake);
    result.unwrap();
    let ran = runs(&effects);
    assert_eq!(ran[0], vec!["/usr/bin/lsblk", "-ndo", "TYPE", "--", "/dev/sdz1"]);
    assert_eq!(ran[1], vec!["/usr/bin/lsblk", "-nrpo", "MOUNTPOINT", "--", "/dev/sdz1"]);
    assert_eq!(ran[2], vec!["/usr/bin/lsblk", "-ndo", "FSTYPE", "--", "/dev/sdz1"]);
    assert_eq!(ran[3], vec!["/usr/bin/sudo", "-v"]);
    assert_eq!(ran[4][0], "/usr/bin/sudo");
    assert_eq!(ran[4][1], "/usr/bin/cryptsetup");
    assert!(ran[4].contains(&"--sector-size".to_string()));
    assert!(entries.iter().any(|e| e.level == OutputLevel::Warning && e.message == "Existing on-disk signature detected on /dev/sdz1: ext4"));
}

#[test]
fn block_create_refuses_mounted_or_odd_devices() {
    let base = Fake { blocks: vec!["/dev/sdz".into()], tty: true, ..Fake::default() };
    let command = create("/dev/sdz", None, SourceKind::Block, true, CreateCipher::Aes, VolumeType::Luks);
    let rom = Fake { outputs: vec![("TYPE".into(), "rom\n".into())], ..base.clone() };
    assert_eq!(drive(&command, &tools(), &root_status(), &rom).1.unwrap_err().message, "Unsupported block device type for create: /dev/sdz (rom)");
    let unknown = Fake { outputs: vec![], ..base.clone() };
    assert_eq!(drive(&command, &tools(), &root_status(), &unknown).1.unwrap_err().message, "Failed to inspect block device: /dev/sdz");
    let mounted = Fake { outputs: vec![("TYPE".into(), "disk\n".into()), ("MOUNTPOINT".into(), "\n/boot\n".into())], ..base };
    assert_eq!(drive(&command, &tools(), &root_status(), &mounted).1.unwrap_err().message, "Block device or one of its children is mounted: /dev/sdz");
}

#[test]
fn file_create_refuses_an_existing_file_without_force() {
    let fake = Fake { dirs: vec!["/tmp".into()], files: vec!["/tmp/v.img".into()], tty: true, ..Fake::default() };
    let command = create("/tmp/v.img", Some("1"), SourceKind::File, false, CreateCipher::Aes, VolumeType::Luks);
    let (_, result, _) = drive(&command, &tools(), &root_status(), &fake);
    assert_eq!(result.unwrap_err().message, "Target file already exists. Re-run with -F to overwrite it.");
    let in_missing_dir = create("/nowhere/v.img", Some("1"), SourceKind::File, false, CreateCipher::Aes, VolumeType::Luks);
    let (_, result, _) = drive(&in_missing_dir, &tools(), &root_status(), &fake);
    assert_eq!(result.unwrap_err().message, "Directory does not exist: /nowhere: No such file or directory (os error 2)");
}

#[test]
fn create_needs_a_terminal_for_the_prompt() {
    let fake = Fake { dirs: vec!["/tmp".into()], tty: false, ..Fake::default() };
    let command = create("/tmp/v.img", Some("1"), SourceKind::File, false, CreateCipher::Aes, VolumeType::Luks);
    let (_, result, _) = drive(&command, &tools(), &root_status(), &fake);
    assert_eq!(result.unwrap_err().message, "This action requires an interactive TTY for the passphrase prompt.");
}

#[test]
fn missing_tools_stop_before_anything_runs() {
    let mut found = tools();
    found.mkfs_btrfs = None;
    let command = create("/tmp/v.img", Some("1"), SourceKind::File, false, CreateCipher::Aes, VolumeType::Luks);
    let (effects, result, _) = drive(&command, &found, &root_status(), &Fake::default());
    assert!(effects.is_empty());
    assert_eq!(result.unwrap_err().message, "Required command not found: mkfs.btrfs");
}

fn mount(source: &str, mountpoint: &str) -> CommandAction {
    CommandAction::Mount(MountCommand {
        source: source.into(),
        mountpoint: mountpoint.into(),
        tag: None,
        volume_type: VolumeType::Auto,
        passphrase: Some("pw".into()),
        readonly: false,
    })
}

#[test]
fn btrfs_is_mounted_with_zstd_compression() {
    let fake = Fake {
        files: vec!["/srv/v.img".into()],
        dirs: vec!["/srv".into()],
        outputs: vec![("blkid".into(), "btrfs\n".into())],
        failing: vec!["tcryptDump".into()],
        ..Fake::default()
    };
    let (effects, result, _) = drive(&mount("/srv/v.img", "/mnt/v"), &tools(), &root_status(), &fake);
    result.unwrap();
    let ran = runs(&effects);
    let last = ran.last().unwrap();
    assert_eq!(&last[0..3], &["/usr/bin/mount".to_string(), "-o".into(), "compress=zstd".into()]);
    assert_eq!(last[4], "/mnt/v");
    let open = ran.iter().find(|a| a.get(1).map(|s| s == "luksOpen").unwrap_or(false)).unwrap();
    assert!(open.contains(&"--key-file=-".to_string()));
    assert!(effects.iter().any(|e| matches!(e, Effect::Exec { stdio: StdioMode::Feed(p), .. } if p == "pw")));
}

#[test]
fn twofish_headers_open_with_performance_flags() {
    let fake = Fake {
        files: vec!["/srv/v.img".into()],
        dirs: vec!["/srv".into()],
        outputs: vec![("luksDump".into(), "LUKS header\n\tcipher: twofish-xts-plain64\n".into()), ("blkid".into(), "ext4\n".into())],
        ..Fake::default()
    };
    let (effects, result, _) = drive(&mount("/srv/v.img", "/mnt/v"), &tools(), &root_status(), &fake);
    result.unwrap();
    let ran = runs(&effects);
    let open = ran.iter().find(|a| a.get(1).map(|s| s == "luksOpen").unwrap_or(false)).unwrap();
    assert_eq!(open[2], "--perf-no_read_workqueue");
    let last = ran.last().unwrap();
    assert_eq!(last[1], format!("/dev/mapper/{}", open.last().unwrap()));
}

#[test]
fn unrecognized_sources_are_refused() {
    let fake = Fake { files: vec!["/srv/v.img".into()], dirs: vec!["/srv".into()], failing: vec!["isLuks".into(), "tcryptDump".into()], ..Fake::default() };
    let (_, result, _) = drive(&mount("/srv/v.img", "/mnt/v"), &tools(), &root_status(), &fake);
    assert_eq!(result.unwrap_err().message, "Unsupported or unrecognized encrypted source: /srv/v.img");
}

#[test]
fn unmount_by_mapper_path_unmounts_then_closes() {
    let fake = Fake {
        blocks: vec!["/dev/mapper/lurker_work".into()],
        mounts: vec![("/mnt/work".into(), "/dev/mapper/lurker_work".into(), "btrfs".into())],
        outputs: vec![("status".into(), "  type:    LUKS2\n".into())],
        ..Fake::default()
    };
    let command = CommandAction::Unmount(UnmountCommand { target: "/dev/mapper/lurker_work".into(), tag: None, volume_type: VolumeType::Auto });
    let (effects, result, entries) = drive(&command, &tools(), &root_status(), &fake);
    result.unwrap();
    let ran = runs(&effects);
    assert_eq!(ran[ran.len() - 2], vec!["/usr/bin/umount", "/mnt/work"]);
    assert_eq!(ran[ran.len() - 1], vec!["/usr/bin/cryptsetup", "close", "lurker_work"]);
    assert!(entries.iter().any(|e| e.message == "Closed mapper lurker_work"));
    assert!(entries.iter().any(|e| e.message == "Resolved input kind: mapper"));
}

#[test]
fn unmount_of_a_veracrypt_mapper_with_a_tag_is_refused() {
    let fake = Fake { blocks: vec!["/dev/mapper/v".into()], outputs: vec![("status".into(), "type: TCRYPT\n".into())], ..Fake::default() };
    let command = CommandAction::Unmount(UnmountCommand { target: "/dev/mapper/v".into(), tag: Some("t".into()), volume_type: VolumeType::Auto });
    let (_, result, entries) = drive(&command, &tools(), &root_status(), &fake);
    assert_eq!(result.unwrap_err().message, "Tags are not yet supported for VeraCrypt containers.");
    assert!(entries.iter().any(|e| e.level == OutputLevel::Warning));
}

#[test]
fn buffered_runs_report_their_log_and_error() {
    let fake = Fake { blocks: vec!["/dev/sdz1".into()], ..Fake::default() };
    let command = create("/dev/sdz1", None, SourceKind::Block, false, CreateCipher::Aes, VolumeType::Luks);
    let mut effects: Vec<Effect> = Vec::new();
    loop {
        let journal: Vec<Reply> = effects.iter().map(|e| fake.reply(e)).collect();
        match run_buffered(&command, &tools(), &root_status(), journal) {
            BufferedTurn::Need(e) => effects.push(e),
            BufferedTurn::Done(response) => {
                assert!(!response.ok);
                let message = "Block-device create is destructive. Re-run with -F to continue: /dev/sdz1";
                assert_eq!(response.error.as_deref(), Some(message));
                let last = response.logs.last().unwrap();
                assert_eq!(last.level, OutputLevel::Error);
                assert_eq!(last.message, message);
                break;
            }
        }
    }
}

#[test]
fn a_handed_over_passphrase_is_fed_to_format_and_open() {
    let fake = Fake { dirs: vec!["/tmp".into()], tty: false, ..Fake::default() };
    let command = CommandAction::Create(CreateCommand {
        target: "/tmp/keyed.img".into(),
        size_gb: Some("1".into()),
        force: false,
        source_kind: SourceKind::File,
        volume_type: VolumeType::Luks,
        cipher: CreateCipher::Aes,
        passphrase: Some("s3cret".into()),
    });
    let (effects, result, _) = drive(&command, &tools(), &root_status(), &fake);
    result.unwrap();
    let fed: Vec<&Effect> = effects.iter().filter(|e| matches!(e, Effect::Exec { stdio: StdioMode::Feed(p), .. } if p == "s3cret")).collect();
    assert_eq!(fed.len(), 2);
    assert!(matches!(fed[0], Effect::Exec { argv, .. } if argv.contains(&"luksFormat".to_string())));
    assert!(matches!(fed[1], Effect::Exec { argv, .. } if argv.contains(&"luksOpen".to_string())));
    assert!(!effects.iter().any(|e| matches!(e, Effect::StdinIsTty)));
}

#[test]
fn unmount_resolution_first_asks_about_the_target_itself() {
    let tools = ToolPaths {
        cryptsetup: "/usr/bin/cryptsetup".into(),
        mkfs_btrfs: None,
        mount: None,
        umount: None,
        blkid: None,
        lsblk: None,
        veracrypt: None,
        sudo: None,
    };
    let ctx = || AppContext { output: Output::buffered(), tools: tools.clone(), is_root: true, sudo_ready: false, cleanup_mapper: None, veracrypt_fallback_noticed: false };
    let mut s = Session::new(ctx(), Vec::new());
    assert!(resolve_umount_target(&mut s, "/srv/vault.img", &None).is_err());
    assert!(matches!(&s.need, Some(Effect::Metadata { path }) if path == "/srv/vault.img"));
    let mut s = Session::new(ctx(), vec![Reply::Facts(Err(missing()))]);
    assert!(resolve_umount_target(&mut s, "/srv/vault.img", &None).is_err());
    assert!(matches!(&s.need, Some(Effect::Metadata { path }) if path == "/srv/vault.img"));
    let mut s = Session::new(ctx(), vec![Reply::Facts(Err(missing())), Reply::Facts(Ok(FileFacts { kind: FileKind::Block, readonly: false }))]);
    assert!(resolve_umount_target(&mut s, "/dev/sdz", &None).is_err());
    assert!(matches!(&s.need, Some(Effect::Canonicalize { path }) if path == "/dev/sdz"));
}

#[test]
fn each_turn_names_the_request_whose_reply_is_missing() {
    let command = mount("/srv/vault.img", "/mnt/vault");
    let first = run(&command, Output::buffered(), &tools(), &root_status(), Vec::new());
    assert!(matches!(&first.progress, Progress::Need(Effect::Metadata { path }) if path == "/srv/vault.img"));
    let not_block = Reply::Facts(Ok(FileFacts { kind: FileKind::File, readonly: false }));
    let second = run(&command, Output::buffered(), &tools(), &root_status(), vec![not_block]);
    assert!(matches!(&second.progress, Progress::Need(Effect::Metadata { path }) if path == "/srv/vault.img"));
    match run_buffered(&command, &tools(), &root_status(), Vec::new()) {
        BufferedTurn::Need(Effect::Metadata { path }) => assert_eq!(path, "/srv/vault.img"),
        _ => panic!("expected a request"),
    }
}
