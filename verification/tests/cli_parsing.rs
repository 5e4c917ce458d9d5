use lurker::api::CommandAction;
use lurker::cli::{parse_env_args, ParseOutcome};
use lurker::cli_spec::{ArgFacts, LinkKind};
use lurker::model::{ColorMode, CreateCipher, SourceKind, VolumeType};

/// Facts for a command line whose paths do not exist.
fn nothing_exists(args: &[String]) -> Vec<ArgFacts> {
    let mut words: Vec<String> = args.iter().skip(1).cloned().collect();
    words.push("-h".into());
    words.push("-F".into());
    words
        .into_iter()
        .map(|arg| ArgFacts { arg, link: LinkKind::Missing, link_error: String::new(), kind: None, is_dir: false })
        .collect()
}

fn strings(items: &[&str]) -> Vec<String> {
    items.iter().map(|s| s.to_string()).collect()
}

fn parse(items: &[&str]) -> Result<ParseOutcome, lurker::cli::ParseFailure> {
    let args = strings(items);
    let facts = nothing_exists(&args);
    parse_env_args(&args, &facts)
}

#[test]
fn parses_createvc_alias() {
    let command = match parse(&["lurker", "createvc", "vault.hc", "4"]).unwrap() {
        ParseOutcome::Run(command) => command,
        ParseOutcome::Help(_) => panic!("unexpected help"),
    };
    match command.command {
        CommandAction::Create(create) => {
            assert_eq!(create.volume_type, VolumeType::Veracrypt);
            assert_eq!(create.source_kind, SourceKind::File);
        }
        _ => panic!("unexpected command"),
    }
}

#[test]
fn parses_luks_cipher_profile() {
    let command = match parse(&["lurker", "create", "--cipher", "serpent", "vault.img", "4"]).unwrap() {
        ParseOutcome::Run(command) => command,
        ParseOutcome::Help(_) => panic!("unexpected help"),
    };
    match command.command {
        CommandAction::Create(create) => {
            assert_eq!(create.volume_type, VolumeType::Luks);
            assert_eq!(create.cipher, CreateCipher::Serpent);
        }
        _ => panic!("unexpected command"),
    }
}

#[test]
fn createvc_accepts_cipher_profile() {
    let command = match parse(&["lurker", "createvc", "--cipher", "twofish", "vault.hc", "4"]).unwrap() {
        ParseOutcome::Run(command) => command,
        ParseOutcome::Help(_) => panic!("unexpected help"),
    };
    match command.command {
        CommandAction::Create(create) => {
            assert_eq!(create.volume_type, VolumeType::Veracrypt);
            assert_eq!(create.cipher, CreateCipher::Twofish);
        }
        _ => panic!("unexpected command"),
    }
}

#[test]
fn help_goes_to_stdout() {
    match parse(&["lurker", "help"]).unwrap() {
        ParseOutcome::Help(help) => {
            assert!(help.to_stdout);
            assert_eq!(help.script_name, "lurker");
        }
        ParseOutcome::Run(_) => panic!("unexpected command"),
    }
}

#[test]
fn mount_takes_a_tag_and_a_type() {
    let args = strings(&["lurker", "mount", "--type", "luks", "-t", "work", "vault.img", "/mnt/v"]);
    let mut facts = nothing_exists(&args);
    for f in facts.iter_mut() {
        if f.arg == "vault.img" {
            f.link = LinkKind::File;
            f.kind = Some(SourceKind::File);
        }
        if f.arg == "/mnt/v" {
            f.link = LinkKind::Other;
            f.is_dir = true;
        }
    }
    match parse_env_args(&args, &facts).unwrap() {
        ParseOutcome::Run(cli) => match cli.command {
            CommandAction::Mount(m) => {
                assert_eq!(m.source, "vault.img");
                assert_eq!(m.mountpoint, "/mnt/v");
                assert_eq!(m.tag.as_deref(), Some("work"));
                assert_eq!(m.volume_type, VolumeType::Luks);
                assert_eq!(cli.color_mode, ColorMode::Auto);
            }
            _ => panic!("unexpected command"),
        },
        ParseOutcome::Help(_) => panic!("unexpected help"),
    }
}

#[test]
fn create_refuses_a_tag() {
    let failure = match parse(&["lurker", "create", "-t", "work", "vault.img", "4"]) {
        Err(f) => f,
        Ok(_) => panic!("expected a refusal"),
    };
    assert_eq!(failure.message.as_deref(), Some("Option -t is only valid with mount or umount."));
    assert_eq!(failure.exit_code, 1);
}

#[test]
fn unknown_color_is_refused() {
    assert!(parse(&["lurker", "--color=purple", "create", "vault.img", "4"]).is_err());
}
