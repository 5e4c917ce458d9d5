use lurker::api::{ActiveVolume, OperationResponse};
use lurker::desktop::{ResetKind, build_create_command, build_mount_command, build_unmount_command_for_volume, response_error, volume_rows};
use lurker::model::{CreateCipher, SourceKind, VolumeType};
use lurker::preferences::{
    clamp_ui_scale, resolve_preferences_path, zoom_in_scale, zoom_label, zoom_out_scale, TaskMode, ThemeMode,
    DEFAULT_UI_SCALE, MAX_UI_SCALE, MIN_UI_SCALE, UI_SCALE_STEP,
};

/// The size field of the create form in gigabytes, as the form converts it.
fn size_in_gb(size: &str, unit: &str) -> Result<String, String> {
    let raw = size.trim();
    if raw.is_empty() {
        return Err("Size is required.".to_string());
    }
    let value: f64 = raw.parse().map_err(|_| format!("Size must be a number, got: {raw}"))?;
    let in_gb = match unit {
        "GB" | "gb" => value,
        "MB" | "mb" => value / 1024.0,
        other => return Err(format!("Unsupported size unit: {other}")),
    };
    Ok(format!("{in_gb}"))
}

#[allow(clippy::too_many_arguments)]
fn create(
    target_kind: &str,
    format: &str,
    file_path: &str,
    file_name: &str,
    partition: &str,
    size: &str,
    unit: &str,
    cipher: &str,
    passphrase: &str,
    confirm: &str,
) -> Result<lurker::api::CreateCommand, String> {
    build_create_command(target_kind, format, file_path, file_name, partition, size_in_gb(size, unit), cipher, passphrase, confirm)
}

#[test]
fn build_create_command_joins_file_path_and_name() {
    let cmd = create("file", "luks", "~/vaults/", "archive.luks", "", "4", "GB", "aes", "secret", "secret").unwrap();
    assert_eq!(cmd.target, "~/vaults/archive.luks");
    assert_eq!(cmd.source_kind, SourceKind::File);
    assert_eq!(cmd.volume_type, VolumeType::Luks);
    assert_eq!(cmd.cipher, CreateCipher::Aes);
    assert_eq!(cmd.size_gb.as_deref(), Some("4"));
}

#[test]
fn build_create_command_converts_mb_to_gb() {
    let cmd = create("file", "luks", "~/", "a.luks", "", "1024", "MB", "aes", "secret", "secret").unwrap();
    assert_eq!(cmd.size_gb.as_deref(), Some("1"));
}

#[test]
fn build_create_command_for_partition_skips_size() {
    let cmd = create("partition", "vera", "", "", "/dev/sdb1", "", "GB", "twofish", "secret", "secret").unwrap();
    assert_eq!(cmd.target, "/dev/sdb1");
    assert_eq!(cmd.source_kind, SourceKind::Block);
    assert_eq!(cmd.volume_type, VolumeType::Veracrypt);
    assert_eq!(cmd.cipher, CreateCipher::Twofish);
    assert_eq!(cmd.size_gb, None);
}

#[test]
fn build_create_command_rejects_mismatched_confirm() {
    let err = create("file", "luks", "~/", "a", "", "1", "GB", "aes", "alpha", "bravo").unwrap_err();
    assert!(err.contains("confirmation"));
}

#[test]
fn build_mount_command_accepts_readonly_flag() {
    let cmd = build_mount_command("/tmp/v.luks", "/mnt/v", "pass", "secret", "", true, "file").unwrap();
    assert_eq!(cmd.source, "/tmp/v.luks");
    assert_eq!(cmd.mountpoint, "/mnt/v");
    assert!(cmd.readonly);
    assert_eq!(cmd.tag, None);
}

#[test]
fn build_mount_command_rejects_key_file_auth() {
    let err = build_mount_command("/tmp/v.luks", "/mnt/v", "key", "", "/tmp/k.key", false, "file").unwrap_err();
    assert!(err.contains("Key"));
}

#[test]
fn volume_rows_projects_active_volumes() {
    let rows = volume_rows(&vec![ActiveVolume {
        mapper_name: "lurker_test".into(),
        mapper_path: "/dev/mapper/lurker_test".into(),
        mountpoint: Some("/mnt/test".into()),
        filesystem_type: Some("btrfs".into()),
    }]);
    assert_eq!(rows.len(), 1);
    assert_eq!(rows[0].name, "lurker_test");
    assert_eq!(rows[0].mount, "/mnt/test");
    assert_eq!(rows[0].cipher, "btrfs");
}

#[test]
fn zoom_constants_are_ordered() {
    assert!(MIN_UI_SCALE < DEFAULT_UI_SCALE);
    assert!(DEFAULT_UI_SCALE < MAX_UI_SCALE);
    assert!(UI_SCALE_STEP > 0);
}

#[test]
fn theme_and_task_modes_match_ui_values() {
    assert_eq!(ThemeMode::parse_ui_value(ThemeMode::Light.as_ui_value()), Some(ThemeMode::Light));
    assert_eq!(TaskMode::parse_ui_value(TaskMode::Mount.as_ui_value()), Some(TaskMode::Mount));
    assert_eq!(ThemeMode::parse_ui_value("unknown"), None);
    assert_eq!(TaskMode::parse_ui_value("other"), None);
}

#[test]
fn resolve_preferences_path_prefers_xdg_home() {
    let path = resolve_preferences_path(Some("/tmp/xdg-test".into()), Some("/tmp/home-test".into())).unwrap();
    assert_eq!(path, "/tmp/xdg-test/lurker/desktop-ui.json");
}

#[test]
fn resolve_preferences_path_falls_back_to_home_config() {
    let path = resolve_preferences_path(None, Some("/tmp/home-test".into())).unwrap();
    assert_eq!(path, "/tmp/home-test/.config/lurker/desktop-ui.json");
}

#[test]
fn resolve_preferences_path_needs_a_home() {
    assert_eq!(resolve_preferences_path(None, None), None);
}

#[test]
fn create_form_reports_missing_fields_in_order() {
    assert_eq!(create("file", "luks", "", "a", "", "1", "GB", "aes", "s", "s").unwrap_err(), "Location is required.");
    assert_eq!(create("file", "luks", "~/", " ", "", "1", "GB", "aes", "s", "s").unwrap_err(), "Filename is required.");
    assert_eq!(create("partition", "luks", "", "", "  ", "", "GB", "aes", "s", "s").unwrap_err(), "Partition is required.");
    assert_eq!(create("file", "luks", "~/", "a", "", "1", "GB", "aes", "", "s").unwrap_err(), "Passphrase is required.");
    assert_eq!(create("disk", "luks", "~/", "a", "", "1", "GB", "aes", "s", "s").unwrap_err(), "Unsupported target kind: disk");
    assert_eq!(create("file", "zip", "~/", "a", "", "1", "GB", "aes", "s", "s").unwrap_err(), "Unsupported format: zip");
    assert_eq!(create("file", "luks", "~/", "a", "", "1", "GB", "rot13", "s", "s").unwrap_err(), "Unsupported create cipher: rot13");
    assert_eq!(create("file", "luks", "~/", "a", "", "x", "GB", "aes", "s", "s").unwrap_err(), "Size must be a number, got: x");
}

#[test]
fn create_form_joins_location_without_a_trailing_slash() {
    let cmd = create("file", "veracrypt", " /srv/vaults ", "box.hc", "", "2", "GB", "serpent", "pw", "pw").unwrap();
    assert_eq!(cmd.target, "/srv/vaults/box.hc");
    assert!(!cmd.force);
    assert_eq!(cmd.passphrase.as_deref(), Some("pw"));
    let block = create("partition", "luks", "", "", "/dev/sdc1", "", "GB", "aes", "pw", "pw").unwrap();
    assert!(block.force);
}

#[test]
fn mount_form_trims_and_requires_fields() {
    assert_eq!(build_mount_command(" ", "/mnt/v", "pass", "pw", "", false, "file").unwrap_err(), "Source is required.");
    assert_eq!(build_mount_command("/v", "", "pass", "pw", "", false, "file").unwrap_err(), "Mount point is required.");
    let cmd = build_mount_command(" /v ", " /mnt/v ", "pass", " pw ", "", false, "file").unwrap();
    assert_eq!(cmd.source, "/v");
    assert_eq!(cmd.volume_type, VolumeType::Auto);
    assert_eq!(cmd.passphrase.as_deref(), Some("pw"));
}

#[test]
fn unmount_targets_the_mountpoint_or_the_mapper() {
    let mounted = ActiveVolume {
        mapper_name: "lurker_a".into(),
        mapper_path: "/dev/mapper/lurker_a".into(),
        mountpoint: Some("/mnt/a".into()),
        filesystem_type: None,
    };
    assert_eq!(build_unmount_command_for_volume(&mounted).target, "/mnt/a");
    let open = ActiveVolume { mountpoint: None, ..mounted.clone() };
    let cmd = build_unmount_command_for_volume(&open);
    assert_eq!(cmd.target, "/dev/mapper/lurker_a");
    assert_eq!(cmd.volume_type, VolumeType::Auto);
    let rows = volume_rows(&vec![open]);
    assert_eq!(rows[0].mount, "(unmounted)");
    assert_eq!(rows[0].cipher, "");
    assert_eq!(rows[0].source_kind, "partition");
}

#[test]
fn failed_response_without_error_has_a_default_message() {
    let response = OperationResponse { ok: false, logs: Vec::new(), error: None };
    assert_eq!(response_error(&response), "The operation failed.");
    let response = OperationResponse { ok: false, logs: Vec::new(), error: Some("boom".into()) };
    assert_eq!(response_error(&response), "boom");
}

#[test]
fn zoom_steps_stay_within_bounds() {
    assert_eq!(zoom_in_scale(DEFAULT_UI_SCALE), 110);
    assert_eq!(zoom_out_scale(DEFAULT_UI_SCALE), 90);
    assert_eq!(zoom_in_scale(MAX_UI_SCALE), MAX_UI_SCALE);
    assert_eq!(zoom_out_scale(MIN_UI_SCALE), MIN_UI_SCALE);
    assert_eq!(clamp_ui_scale(280), 200);
    assert_eq!(clamp_ui_scale(10), 80);
    assert_eq!(zoom_label(120), "120%");
}

fn window() -> lurker::desktop::WindowState {
    lurker::desktop::WindowState {
        busy: false,
        busy_label: String::new(),
        status_message: "old status".into(),
        error_message: "old error".into(),
        create_passphrase: "c1".into(),
        create_passphrase_confirm: "c2".into(),
        mount_passphrase: "m".into(),
    }
}

#[test]
fn operations_without_a_helper_show_why_and_clear_secrets() {
    let mut w = window();
    let runs = w.start_operation(&None, &None, "Creating volume…", ResetKind::CreateSecrets);
    assert!(!runs);
    assert_eq!(w.error_message, "Failed to locate lurker-helper.");
    assert_eq!(w.create_passphrase, "");
    assert_eq!(w.mount_passphrase, "m");
    let mut w = window();
    assert!(w.start_operation(&Some("/usr/bin/lurker-helper".into()), &None, "Mounting volume…", ResetKind::MountSecrets));
    assert!(w.busy);
    assert_eq!(w.busy_label, "Mounting volume…");
    assert_eq!(w.error_message, "");
    assert_eq!(w.mount_passphrase, "m");
}

#[test]
fn finished_operations_report_success_or_the_error() {
    let mut w = window();
    w.set_busy("Mounting volume…");
    let ok = OperationResponse { ok: true, logs: Vec::new(), error: None };
    assert!(w.finish_operation(ResetKind::MountSecrets, &Ok(ok), "Volume mounted."));
    assert!(!w.busy);
    assert_eq!(w.status_message, "Volume mounted.");
    assert_eq!(w.mount_passphrase, "");
    let failed = OperationResponse { ok: false, logs: Vec::new(), error: None };
    assert!(!w.finish_operation(ResetKind::Keep, &Ok(failed), "Volume mounted."));
    assert_eq!(w.error_message, "The operation failed.");
    assert_eq!(w.status_message, "");
    assert!(!w.finish_operation(ResetKind::Keep, &Err("spawn failed".into()), "x"));
    assert_eq!(w.error_message, "spawn failed");
}

#[test]
fn refreshes_announce_only_when_asked() {
    let mut w = window();
    w.begin_refresh(false);
    assert!(!w.busy);
    assert_eq!(w.error_message, "");
    w.finish_refresh(false, &Ok(()));
    assert_eq!(w.status_message, "old status");
    w.begin_refresh(true);
    assert_eq!(w.busy_label, "Refreshing active volumes…");
    w.finish_refresh(true, &Err("no mapper dir".into()));
    assert_eq!(w.error_message, "no mapper dir");
    assert_eq!(w.status_message, "");
    w.finish_refresh(true, &Ok(()));
    assert_eq!(w.status_message, "Active volumes refreshed.");
}
