use lurker::mountinfo::{parse_mountinfo_line, unescape_mount_field};
use lurker::naming::{mapper_device_path, mapper_name_for_tag, normalize_mapper_name, resolved_mapper_name_from_path};
use lurker::size::size_gb_to_mib;
use lurker::workflow::require_supported_veracrypt_tag;

#[test]
fn size_parser_accepts_decimals() {
    assert_eq!(size_gb_to_mib("1").unwrap(), 1024);
    assert_eq!(size_gb_to_mib("1.5").unwrap(), 1536);
    assert_eq!(size_gb_to_mib(".5").unwrap(), 512);
}

#[test]
fn tag_sanitization_matches_expected_shape() {
    assert_eq!(mapper_name_for_tag("work").unwrap(), "lurker_work");
    assert_eq!(mapper_name_for_tag(" weird tag ").unwrap(), "lurker_weird_tag");
}

#[test]
fn mountinfo_unescapes_paths() {
    assert_eq!(unescape_mount_field("/mnt/my\\040vault"), b"/mnt/my vault".to_vec());
}

#[test]
fn mountinfo_parsing_extracts_mountpoint_and_source() {
    let line = "123 456 0:45 / /mnt/my\\040vault rw,relatime - btrfs /dev/mapper/lurker_test rw";
    let entry = parse_mountinfo_line(line).unwrap();
    assert_eq!(entry.mount_point, "/mnt/my vault");
    assert_eq!(entry.source.unwrap(), "/dev/mapper/lurker_test");
    assert_eq!(entry.fs_type, "btrfs");
}

#[test]
fn veracrypt_tags_are_rejected() {
    assert!(require_supported_veracrypt_tag(&Some("work".to_string())).is_err());
    assert!(require_supported_veracrypt_tag(&None).is_ok());
}

#[test]
fn size_parser_refuses_bad_sizes() {
    let message = |raw: &str| size_gb_to_mib(raw).unwrap_err().message;
    assert_eq!(message(""), "Size must be a positive number of GB.");
    assert_eq!(message("1.2.3"), "Size must be a positive number of GB.");
    assert_eq!(message("."), "Size must be a positive number of GB.");
    assert_eq!(message("1."), "Size must be a positive number of GB.");
    assert_eq!(message("-1"), "Size must be a positive number of GB.");
    assert_eq!(message("0"), "Size must be greater than zero.");
    assert_eq!(message("0.0001"), "Size must be greater than zero.");
    assert_eq!(message("99999999999999999"), "Size is too large.");
    assert_eq!(size_gb_to_mib("0.001").unwrap(), 1);
    assert_eq!(size_gb_to_mib("2.25").unwrap(), 2304);
}

#[test]
fn tags_without_usable_characters_are_refused() {
    assert_eq!(mapper_name_for_tag(" _ ").unwrap_err().message, "Tag must contain at least one usable character.");
    let long = "x".repeat(80);
    assert_eq!(mapper_name_for_tag(&long).unwrap(), format!("lurker_{}", "x".repeat(56)));
    assert_eq!(mapper_name_for_tag("a/b:c").unwrap(), "lurker_a_b_c");
}

#[test]
fn path_mapper_names_carry_a_checksum() {
    let name = resolved_mapper_name_from_path("/srv/my vault.img");
    assert!(name.starts_with("lurker_my_vault.img_"));
    assert_eq!(name.len(), "lurker_my_vault.img_".len() + 12);
    assert!(name["lurker_my_vault.img_".len()..].chars().all(|c| c.is_ascii_hexdigit() && !c.is_ascii_uppercase()));
    assert_ne!(name, resolved_mapper_name_from_path("/srv/other/my vault.img"));
    assert!(resolved_mapper_name_from_path("/").starts_with("lurker_volume_"));
}

#[test]
fn sha256_checksum_matches_the_known_digest() {
    // SHA-256 of the three bytes "abc" starts with ba7816bf8f01.
    assert_eq!(resolved_mapper_name_from_path("abc"), "lurker_abc_ba7816bf8f01");
}

#[test]
fn mapper_paths_and_names() {
    assert_eq!(mapper_device_path("lurker_x"), "/dev/mapper/lurker_x");
    assert_eq!(normalize_mapper_name("/dev/mapper/lurker_x"), "lurker_x");
    assert_eq!(normalize_mapper_name("lurker_y"), "lurker_y");
}

#[test]
fn mountinfo_lines_without_separator_are_skipped() {
    assert!(parse_mountinfo_line("1 2 3 4 5").is_none());
    assert!(parse_mountinfo_line("1 2 3 - ext4 /dev/sda1").is_none());
    assert!(unescape_mount_field("a\\04").eq(&b"a\\04".to_vec()));
}

#[test]
fn a_mapper_path_names_its_mapper_again() {
    for name in ["lurker_vault", "lurker_vault.img_0123456789ab", "plain"] {
        assert_eq!(normalize_mapper_name(&mapper_device_path(name)), name);
    }
    assert_eq!(mapper_device_path("lurker_x"), "/dev/mapper/lurker_x");
    assert_eq!(normalize_mapper_name("/elsewhere/x"), "/elsewhere/x");
}
