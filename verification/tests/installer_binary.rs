use acp_agent::digest::{check_digest, parse_sha256, verify_sha256};
use acp_agent::failure::Failure;
use acp_agent::installer::binary::archive::{
    archive_format, check_extraction_cancelled, plain_copy_target, zip_link_target, ArchiveFormat,
    CopyMeter, TarEntry, TarExtraction, ZipEntry, ZipExtraction, ZipStep,
};
use acp_agent::installer::binary::download::{
    check_content_length, plan_download, plan_parsed_download, Download,
};
use acp_agent::installer::binary::entry_paths::{
    resolve_cmd_path, validate_archive_component, validate_archive_path,
};
use acp_agent::installer::binary::install::{
    plan_cache_entry, CacheInstall, InstallAction, InstallEvent,
};
use acp_agent::installer::binary::log::{
    install_log_line, install_log_lock_path, must_truncate, truncate_install_log, utc_timestamp,
    InstallAttempt, UtcTime, INSTALL_LOG_MAX_BYTES, INSTALL_LOG_TAIL_BYTES,
};
use acp_agent::installer::binary::payload::{
    file_digest, payload_digest, PayloadChild, PayloadNode,
};
use acp_agent::installer::binary::publication::{
    backup_dir, staging_prefix, unique_work_dir_name, PromotionAction, PromotionEvent,
    PromotionTransaction,
};
use acp_agent::installer::binary::recovery::{
    stale_groups, work_dir_cache_key, FoundDir, GroupSweep, SweepAction, SweepEvent,
};
use acp_agent::installer::binary::validation::{
    changed_failure, complete_metadata, executable_mode, locate_executable, validate_cached_binary,
};
use acp_agent::installer::binary::{ArchiveLimits, CachedBinary};
use acp_agent::installer::cache::{
    binary_cache_paths, BinaryCacheMetadata, BinaryCachePaths,
};
use acp_agent::registry::{AgentDistribution, BinaryTarget, Platform, RegistryAgent};
use sha2::{Digest, Sha256};
use std::io::Cursor;

fn rejects_download_without_declared_sha256() {
    let error = verify_sha256(b"payload", None).unwrap_err();
    assert!(error.message.contains("missing required sha256"));
}

fn accepts_download_matching_declared_sha256() {
    let digest = hex::encode(Sha256::digest(b"payload"));
    verify_sha256(b"payload", Some(&digest)).unwrap();
    verify_sha256(b"payload", Some(&digest.to_uppercase())).unwrap();
}

fn rejects_download_mismatching_declared_sha256() {
    let error = verify_sha256(b"payload", Some(&"0".repeat(64))).unwrap_err();
    assert!(error.message.contains("sha256 checksum mismatch"));
}

fn rejects_malformed_declared_sha256() {
    let error = verify_sha256(b"payload", Some("not-a-sha256")).unwrap_err();
    assert!(error.message.contains("invalid sha256 checksum"));
}

fn resolves_relative_cmd_paths() {
    let base = "/tmp/acp-agent";
    let resolved = resolve_cmd_path(base, "./dist-package/cursor-agent").unwrap();
    assert_eq!(resolved, "/tmp/acp-agent/dist-package/cursor-agent");
}

fn rejects_absolute_cmd_paths() {
    let base = "/tmp/acp-agent";
    let error = resolve_cmd_path(base, "/bin/sh").unwrap_err();
    assert!(error
        .message
        .contains("binary command path must be relative"));
}

fn rejects_parent_dir_cmd_paths() {
    let base = "/tmp/acp-agent";
    let error = resolve_cmd_path(base, "../bin/sh").unwrap_err();
    assert!(error.message.contains("must stay within"));
}

fn install_log_lock_is_a_sibling_for_relative_paths() {
    assert_eq!(
        install_log_lock_path("cache/agent-install.log"),
        "cache/agent-install.log.lock"
    );
}

fn timestamps_are_utc_iso_8601() {
    let timestamp = utc_timestamp();
    assert_eq!(timestamp.len(), 20);
    assert!(timestamp.ends_with('Z'));
    assert_eq!(&timestamp[4..5], "-");
    assert_eq!(&timestamp[7..8], "-");
    assert_eq!(&timestamp[10..11], "T");
    assert_eq!(&timestamp[13..14], ":");
    assert_eq!(&timestamp[16..17], ":");
}

/// Hand-builds a single-entry stored (uncompressed) ZIP so tests can use
/// entry names the writer would sanitize away, such as `../` traversal.
fn build_raw_zip(entry_name: &str, payload: &[u8]) -> Vec<u8> {
    let crc = crc32_ieee(payload);
    let name = entry_name.as_bytes();

    let mut bytes = Vec::new();
    bytes.extend_from_slice(&0x0403_4b50u32.to_le_bytes());
    bytes.extend_from_slice(&20u16.to_le_bytes());
    bytes.extend_from_slice(&0u16.to_le_bytes());
    bytes.extend_from_slice(&0u16.to_le_bytes());
    bytes.extend_from_slice(&0u16.to_le_bytes());
    bytes.extend_from_slice(&0x21u16.to_le_bytes());
    bytes.extend_from_slice(&crc.to_le_bytes());
    bytes.extend_from_slice(&(payload.len() as u32).to_le_bytes());
    bytes.extend_from_slice(&(payload.len() as u32).to_le_bytes());
    bytes.extend_from_slice(&(name.len() as u16).to_le_bytes());
    bytes.extend_from_slice(&0u16.to_le_bytes());
    bytes.extend_from_slice(name);
    bytes.extend_from_slice(payload);

    let mut central = Vec::new();
    central.extend_from_slice(&0x0201_4b50u32.to_le_bytes());
    central.extend_from_slice(&0x031eu16.to_le_bytes());
    central.extend_from_slice(&20u16.to_le_bytes());
    central.extend_from_slice(&0u16.to_le_bytes());
    central.extend_from_slice(&0u16.to_le_bytes());
    central.extend_from_slice(&0u16.to_le_bytes());
    central.extend_from_slice(&0x21u16.to_le_bytes());
    central.extend_from_slice(&crc.to_le_bytes());
    central.extend_from_slice(&(payload.len() as u32).to_le_bytes());
    central.extend_from_slice(&(payload.len() as u32).to_le_bytes());
    central.extend_from_slice(&(name.len() as u16).to_le_bytes());
    central.extend_from_slice(&0u16.to_le_bytes());
    central.extend_from_slice(&0u16.to_le_bytes());
    central.extend_from_slice(&0u16.to_le_bytes());
    central.extend_from_slice(&0u16.to_le_bytes());
    central.extend_from_slice(&(0o100644u32 << 16).to_le_bytes());
    central.extend_from_slice(&0u32.to_le_bytes());
    central.extend_from_slice(name);

    let mut eocd = Vec::new();
    eocd.extend_from_slice(&0x0605_4b50u32.to_le_bytes());
    eocd.extend_from_slice(&0u16.to_le_bytes());
    eocd.extend_from_slice(&0u16.to_le_bytes());
    eocd.extend_from_slice(&1u16.to_le_bytes());
    eocd.extend_from_slice(&1u16.to_le_bytes());
    eocd.extend_from_slice(&(central.len() as u32).to_le_bytes());
    eocd.extend_from_slice(&(bytes.len() as u32).to_le_bytes());
    eocd.extend_from_slice(&0u16.to_le_bytes());

    bytes.extend_from_slice(&central);
    bytes.extend_from_slice(&eocd);
    bytes
}

/// Standard CRC-32 (IEEE 802.3) for hand-built ZIP fixtures.
fn crc32_ieee(data: &[u8]) -> u32 {
    let mut table = [0u32; 256];
    for (index, entry) in table.iter_mut().enumerate() {
        let mut value = index as u32;
        for _ in 0..8 {
            value = if value & 1 != 0 {
                0xedb8_8320 ^ (value >> 1)
            } else {
                value >> 1
            };
        }
        *entry = value;
    }
    let mut crc = 0xffff_ffffu32;
    for &byte in data {
        crc = table[((crc ^ byte as u32) & 0xff) as usize] ^ (crc >> 8);
    }
    !crc
}

fn zip_rejects_path_traversal_entries() {
    let bytes = build_raw_zip("../escape.txt", b"evil");
    let mut archive = zip::ZipArchive::new(Cursor::new(bytes)).unwrap();
    let mut extraction = ZipExtraction::begin(
        "escape.zip",
        "/out",
        archive.len() as u64,
        ArchiveLimits::default(),
    )
    .unwrap();
    let file = archive.by_index(0).unwrap();
    let entry = ZipEntry {
        enclosed_name: file
            .enclosed_name()
            .map(|name| name.to_string_lossy().into_owned()),
        size: file.size(),
        is_dir: file.is_dir(),
        is_symlink: file.is_symlink(),
        unix_mode: file.unix_mode(),
    };
    assert!(extraction.next_entry(false, 0, &entry).is_err());
    let plain = ZipEntry {
        enclosed_name: Some("../escape.txt".to_string()),
        ..entry
    };
    assert!(extraction.next_entry(false, 0, &plain).is_err());
}

#[test]
fn binary_rejects_download_without_declared_sha256() {
    rejects_download_without_declared_sha256();
}

#[test]
fn mod_rejects_download_without_declared_sha256() {
    rejects_download_without_declared_sha256();
}

#[test]
fn binary_accepts_download_matching_declared_sha256() {
    accepts_download_matching_declared_sha256();
}

#[test]
fn mod_accepts_download_matching_declared_sha256() {
    accepts_download_matching_declared_sha256();
}

#[test]
fn binary_rejects_download_mismatching_declared_sha256() {
    rejects_download_mismatching_declared_sha256();
}

#[test]
fn mod_rejects_download_mismatching_declared_sha256() {
    rejects_download_mismatching_declared_sha256();
}

#[test]
fn binary_rejects_malformed_declared_sha256() {
    rejects_malformed_declared_sha256();
}

#[test]
fn mod_rejects_malformed_declared_sha256() {
    rejects_malformed_declared_sha256();
}

#[test]
fn binary_resolves_relative_cmd_paths() {
    resolves_relative_cmd_paths();
}

#[test]
fn mod_resolves_relative_cmd_paths() {
    resolves_relative_cmd_paths();
}

#[test]
fn binary_rejects_absolute_cmd_paths() {
    rejects_absolute_cmd_paths();
}

#[test]
fn mod_rejects_absolute_cmd_paths() {
    rejects_absolute_cmd_paths();
}

#[test]
fn binary_rejects_parent_dir_cmd_paths() {
    rejects_parent_dir_cmd_paths();
}

#[test]
fn mod_rejects_parent_dir_cmd_paths() {
    rejects_parent_dir_cmd_paths();
}

#[test]
fn binary_install_log_lock_is_a_sibling_for_relative_paths() {
    install_log_lock_is_a_sibling_for_relative_paths();
}

#[test]
fn mod_install_log_lock_is_a_sibling_for_relative_paths() {
    install_log_lock_is_a_sibling_for_relative_paths();
}

#[test]
fn binary_timestamps_are_utc_iso_8601() {
    timestamps_are_utc_iso_8601();
}

#[test]
fn mod_timestamps_are_utc_iso_8601() {
    timestamps_are_utc_iso_8601();
}

#[test]
fn binary_zip_rejects_path_traversal_entries() {
    zip_rejects_path_traversal_entries();
}

#[test]
fn mod_zip_rejects_path_traversal_entries() {
    zip_rejects_path_traversal_entries();
}

fn target(archive: &str, sha256: Option<&str>) -> BinaryTarget {
    BinaryTarget {
        archive: archive.to_string(),
        cmd: "demo".to_string(),
        sha256: sha256.map(str::to_string),
        args: None,
        env: None,
    }
}

#[test]
fn digests_are_read_in_either_case() {
    assert_eq!(parse_sha256(&"aB".repeat(32)).unwrap(), vec![0xab; 32]);
    assert_eq!(
        parse_sha256("xyz").unwrap_err().message,
        "invalid sha256 checksum \"xyz\": expected 64 hexadecimal characters"
    );
    let error = check_digest(Some(&"0".repeat(64)), &[1; 32]).unwrap_err();
    assert_eq!(
        error.message,
        format!(
            "sha256 checksum mismatch: expected {}, got {}",
            "0".repeat(64),
            "01".repeat(32)
        )
    );
    assert_eq!(
        file_digest(b"abc"),
        "ba7816bf8f01cfea414140de5dae2223b00361a396177a9cb410ff61f20015ad"
    );
}

#[test]
fn binary_rejects_missing_digest_before_url_parsing() {
    let error = plan_download(&target("not a URL", None), "/tmp").unwrap_err();
    assert!(error.message.contains("missing required sha256"));
}

#[test]
fn downloads_are_named_by_their_url() {
    let digest = "ab".repeat(32);
    let plan = plan_download(
        &target("https://example.com/a/demo.tar.gz?x=1", Some(&digest)),
        "/tmp/t",
    )
    .unwrap();
    assert_eq!(plan.destination, "/tmp/t/demo.tar.gz");
    assert_eq!(plan.expected_digest, vec![0xab; 32]);
    let plan = plan_download(&target("https://example.com/", Some(&digest)), "/tmp/t").unwrap();
    assert_eq!(plan.destination, "/tmp/t/download.bin");
    let error = plan_download(&target("not a URL", Some(&digest)), "/tmp").unwrap_err();
    assert_eq!(error.message, "invalid archive URL: not a URL");
    let error = plan_download(&target("data:x", Some("zz")), "/tmp").unwrap_err();
    assert!(error.message.contains("invalid sha256 checksum"));
    let plan = plan_download(&target("data:x", Some(&digest)), "/tmp").unwrap();
    assert_eq!(plan.destination, "/tmp/download.bin");
    let error = plan_parsed_download(
        &target("u", Some(&digest)),
        "/tmp",
        Ok(Some(vec!["a\\b".to_string()])),
    )
    .unwrap_err();
    assert_eq!(error.message, "unsafe archive filename in URL: a\\b");
    assert_eq!(error.causes, vec!["unsafe archive filename: \"a\\\\b\""]);
}

#[test]
fn downloads_are_limited_and_checked() {
    let digest = hex::encode(Sha256::digest(b"payload"));
    let plan = plan_download(&target("https://e.com/x", Some(&digest)), "/t").unwrap();
    let limits = ArchiveLimits {
        max_download_bytes: 7,
        ..ArchiveLimits::default()
    };
    assert!(check_content_length(Some(7), &limits).is_ok());
    assert!(check_content_length(None, &limits).is_ok());
    assert_eq!(
        check_content_length(Some(8), &limits).unwrap_err().message,
        "archive exceeds download limit of 7 bytes"
    );
    let mut download = Download::start(&plan, &limits);
    download.accept(b"pay").unwrap();
    assert!(download
        .finish()
        .unwrap_err()
        .message
        .contains("sha256 checksum mismatch"));
    download.accept(b"load").unwrap();
    download.finish().unwrap();
    assert_eq!(
        download.accept(b"!").unwrap_err().message,
        "archive exceeds download limit of 7 bytes"
    );
}

#[test]
fn archives_are_told_apart_by_name() {
    assert!(matches!(archive_format("/t/a.zip"), ArchiveFormat::Zip));
    assert!(matches!(archive_format("/t/a.tgz"), ArchiveFormat::TarGz));
    assert!(matches!(
        archive_format("/t/a.tar.gz"),
        ArchiveFormat::TarGz
    ));
    assert!(matches!(
        archive_format("/t/a.tar.bz2"),
        ArchiveFormat::TarBz2
    ));
    assert!(matches!(archive_format("/t/a"), ArchiveFormat::Plain));
}

#[test]
fn archive_paths_stay_below() {
    assert!(validate_archive_path(Some("a/b")).is_ok());
    assert!(validate_archive_path(Some("./a")).is_ok());
    for path in ["../a", "a/../b", "/a", "a\\b", "a\0b"] {
        assert!(validate_archive_path(Some(path))
            .unwrap_err()
            .message
            .starts_with("unsafe archive path: "));
    }
    assert_eq!(
        validate_archive_path(Some("a\n\\")).unwrap_err().message,
        "unsafe archive path: \"a\\n\\\\\""
    );
    assert_eq!(
        validate_archive_path(Some(".")).unwrap_err().message,
        "empty archive path"
    );
    assert_eq!(
        validate_archive_path(None).unwrap_err().message,
        "archive path is not valid UTF-8"
    );
    assert!(validate_archive_component("a.zip").is_ok());
    for name in ["", ".", "..", "a/b"] {
        assert!(validate_archive_component(name).is_err());
    }
}

fn tar_entry(path: &str, size: u64, is_dir: bool) -> TarEntry {
    TarEntry {
        path: Some(path.to_string()),
        link: None,
        size,
        is_dir,
    }
}

#[test]
fn tar_archives_are_limited() {
    let limits = ArchiveLimits {
        max_expanded_bytes: 10,
        max_entries: 3,
        max_files: 1,
        ..ArchiveLimits::default()
    };
    let mut extraction = TarExtraction::new(limits);
    extraction
        .next_entry(false, &tar_entry("d", 0, true))
        .unwrap();
    extraction
        .next_entry(false, &tar_entry("d/f", 10, false))
        .unwrap();
    assert_eq!(
        extraction
            .next_entry(false, &tar_entry("g", 0, false))
            .unwrap_err()
            .message,
        "archive file limit exceeded"
    );
    assert_eq!(
        extraction
            .next_entry(false, &tar_entry("e", 1, true))
            .unwrap_err()
            .message,
        "expanded archive size limit exceeded"
    );
    assert_eq!(
        extraction
            .next_entry(false, &tar_entry("e", u64::MAX, true))
            .unwrap_err()
            .message,
        "expanded archive size overflow"
    );
    assert_eq!(
        extraction
            .next_entry(true, &tar_entry("e", 0, true))
            .unwrap_err()
            .message,
        "extraction cancelled"
    );
    extraction
        .next_entry(false, &tar_entry("e", 0, true))
        .unwrap();
    assert_eq!(
        extraction
            .next_entry(false, &tar_entry("h", 0, true))
            .unwrap_err()
            .message,
        "archive entry limit exceeded"
    );
    let mut link = tar_entry("l", 0, false);
    link.link = Some(Some("../x".to_string()));
    assert!(extraction
        .next_entry(false, &link)
        .unwrap_err()
        .message
        .starts_with("unsafe archive path"));
    assert!(check_extraction_cancelled(false).is_ok());
}

#[test]
fn zip_archives_are_unpacked_step_by_step() {
    let limits = ArchiveLimits {
        max_expanded_bytes: 10,
        max_entries: 2,
        max_files: 2,
        ..ArchiveLimits::default()
    };
    assert_eq!(
        ZipExtraction::begin("a.zip", "/out", 3, limits.clone())
            .err()
            .unwrap()
            .message,
        "archive entry limit exceeded"
    );
    let mut extraction = ZipExtraction::begin("a.zip", "/out", 2, limits).unwrap();
    let entry = |name: Option<&str>, size, is_dir, is_symlink| ZipEntry {
        enclosed_name: name.map(str::to_string),
        size,
        is_dir,
        is_symlink,
        unix_mode: Some(0o755),
    };
    assert_eq!(
        extraction
            .next_entry(false, 4, &entry(None, 0, false, false))
            .unwrap_err()
            .message,
        "unsafe path in ZIP archive a.zip: entry 4"
    );
    assert!(matches!(
        extraction.next_entry(false, 0, &entry(Some("pkg"), 0, true, false)),
        Ok(ZipStep::MakeDirectory { path }) if path == "/out/pkg"
    ));
    assert!(matches!(
        extraction.next_entry(false, 1, &entry(Some("pkg/f"), 4, false, false)),
        Ok(ZipStep::WriteFile { path, max_bytes: 10 }) if path == "/out/pkg/f"
    ));
    assert_eq!(
        extraction
            .file_written("/out/pkg/f", 4, 3, Some(0o644))
            .unwrap_err()
            .message,
        "ZIP entry size mismatch for /out/pkg/f: declared 4, extracted 3"
    );
    extraction
        .file_written("/out/pkg/f", 4, 4, Some(0o644))
        .unwrap();
    assert!(matches!(
        extraction.next_entry(false, 2, &entry(Some("l"), 1, false, true)),
        Ok(ZipStep::MakeLink { max_bytes: 6, .. })
    ));
    assert_eq!(
        extraction
            .next_entry(false, 3, &entry(Some("m"), 0, false, true))
            .unwrap_err()
            .message,
        "archive file limit exceeded"
    );
    let modes: Vec<(String, u32)> = extraction
        .permission_pass()
        .into_iter()
        .map(|change| (change.path, change.mode))
        .collect();
    assert_eq!(
        modes,
        vec![
            ("/out/pkg/f".to_string(), 0o644),
            ("/out/pkg".to_string(), 0o755)
        ]
    );
}

#[test]
fn zip_links_are_checked() {
    assert_eq!(
        zip_link_target("/out/l", 6, b"target".to_vec()).unwrap(),
        "target"
    );
    assert_eq!(
        zip_link_target("/out/l", 5, "grün".as_bytes().to_vec()).unwrap(),
        "grün"
    );
    assert_eq!(
        zip_link_target("/out/l", 5, b"target".to_vec())
            .unwrap_err()
            .message,
        "ZIP symlink size mismatch for /out/l: declared 5, extracted 6"
    );
    let error = zip_link_target("/out/l", 1, vec![0xff]).unwrap_err();
    assert_eq!(
        error.message,
        "symlink target for /out/l is not valid UTF-8"
    );
    assert_eq!(error.causes.len(), 1);
    let error = zip_link_target("/out/l", 4, b"../x".to_vec()).unwrap_err();
    assert_eq!(error.message, "unsafe symlink target for /out/l");
}

#[test]
fn plain_payloads_are_copied() {
    let limits = ArchiveLimits {
        max_expanded_bytes: 10,
        ..ArchiveLimits::default()
    };
    assert_eq!(
        plain_copy_target("/t/demo", 10, "/out", &limits).unwrap(),
        "/out/demo"
    );
    assert_eq!(
        plain_copy_target("/t/demo", 11, "/out", &limits)
            .unwrap_err()
            .message,
        "expanded archive size limit exceeded"
    );
    assert_eq!(
        plain_copy_target("/", 1, "/out", &limits)
            .unwrap_err()
            .message,
        "unsupported archive format for /"
    );
    let mut meter = CopyMeter::new(10);
    meter.accept(10).unwrap();
    assert!(meter.accept(1).is_err());
}

fn file(name: &str, content: &[u8]) -> PayloadChild {
    PayloadChild {
        name: name.as_bytes().to_vec(),
        node: PayloadNode::File {
            declared_len: content.len() as u64,
            content: content.to_vec(),
        },
    }
}

fn payload_hash_has_unambiguous_tree_boundaries() {
    let two_files = PayloadNode::directory(vec![file("a", b"x"), file("b", b"y")]);
    let encoded_as_content = PayloadNode::directory(vec![file(
        "a",
        &[b'x', 0xff, b'b', 0, b'f', 0, b'y'],
    )]);
    assert_ne!(
        payload_digest(&two_files).unwrap(),
        payload_digest(&encoded_as_content).unwrap()
    );
}

#[test]
fn binary_payload_hash_has_unambiguous_tree_boundaries() {
    payload_hash_has_unambiguous_tree_boundaries();
}

#[test]
fn mod_payload_hash_has_unambiguous_tree_boundaries() {
    payload_hash_has_unambiguous_tree_boundaries();
}

#[test]
fn payload_digest_ignores_the_order_of_a_listing() {
    let inner = |names: [&str; 2]| PayloadChild {
        name: b"d".to_vec(),
        node: PayloadNode::directory(names.iter().map(|name| file(name, b"x")).collect()),
    };
    let one = PayloadNode::directory(vec![file("a", b"1"), file("b", b"2"), inner(["p", "q"])]);
    let two = PayloadNode::directory(vec![inner(["q", "p"]), file("b", b"2"), file("a", b"1")]);
    let other = PayloadNode::directory(vec![inner(["q", "p"]), file("b", b"1"), file("a", b"2")]);
    assert_eq!(
        payload_digest(&one).unwrap(),
        payload_digest(&two).unwrap()
    );
    assert_ne!(
        payload_digest(&one).unwrap(),
        payload_digest(&other).unwrap()
    );
}

#[test]
fn payloads_are_encoded_in_order() {
    let listed = PayloadNode::directory(vec![
        PayloadChild {
            name: b"l".to_vec(),
            node: PayloadNode::Link {
                target: b"to".to_vec(),
            },
        },
        PayloadChild {
            name: b"d".to_vec(),
            node: PayloadNode::directory(vec![file("f", b"x")]),
        },
    ]);
    let mut bytes = b"acp-agent-payload-tree-v2\0".to_vec();
    bytes.extend(0u64.to_le_bytes());
    bytes.extend(b"d");
    bytes.extend(2u64.to_le_bytes());
    bytes.extend(1u64.to_le_bytes());
    bytes.extend(b"dd");
    bytes.extend(1u64.to_le_bytes());
    bytes.extend(3u64.to_le_bytes());
    bytes.extend(b"d/ff");
    bytes.extend(1u64.to_le_bytes());
    bytes.extend(b"x");
    bytes.extend(1u64.to_le_bytes());
    bytes.extend(b"ll");
    bytes.extend(2u64.to_le_bytes());
    bytes.extend(b"to");
    assert_eq!(
        payload_digest(&listed).unwrap(),
        hex::encode(Sha256::digest(&bytes))
    );
    let changing = PayloadNode::directory(vec![PayloadChild {
        name: b"f".to_vec(),
        node: PayloadNode::File {
            declared_len: 2,
            content: b"x".to_vec(),
        },
    }]);
    let change = payload_digest(&changing).unwrap_err();
    assert_eq!(change.relative, b"f");
    assert_eq!(
        changed_failure("/out", &change).message,
        "payload file changed while hashing: /out/f"
    );
}

fn entry() -> BinaryCachePaths {
    binary_cache_paths("/root", "demo", "1", Platform::LinuxX86_64)
}

fn described(sha256: Option<&str>) -> BinaryCacheMetadata {
    BinaryCacheMetadata::new(
        "demo",
        "1",
        Platform::LinuxX86_64,
        "https://e.com/demo.zip",
        "./demo",
        sha256,
    )
}

fn tree(content: &[u8]) -> PayloadNode {
    PayloadNode::directory(vec![file("demo", content)])
}

#[test]
fn cached_binaries_are_vouched_for() {
    let expected = described(Some("ab"));
    let path = locate_executable(&entry(), &expected, Some(&expected)).unwrap();
    assert_eq!(path, "/root/agents/demo/linux-x86_64/1/extracted/demo");
    let complete = complete_metadata(
        described(Some("ab")),
        &path,
        Some(b"payload"),
        "/out",
        &tree(b"payload"),
    )
    .unwrap();
    assert_eq!(complete.executable_sha256, Some(file_digest(b"payload")));
    let check = |found: Option<&BinaryCacheMetadata>, executable: &[u8], tree: &PayloadNode| {
        validate_cached_binary(&entry(), &expected, found, Some(executable), tree)
            .unwrap()
            .is_some()
    };
    assert!(check(Some(&complete), b"payload", &tree(b"payload")));
    assert!(!check(Some(&complete), b"changed", &tree(b"payload")));
    assert!(!check(Some(&complete), b"payload", &tree(b"changed")));
    assert!(!check(Some(&expected), b"payload", &tree(b"payload")));
    assert!(!check(None, b"payload", &tree(b"payload")));
    let mut other = complete.clone();
    other.archive = "https://e.com/other.zip".to_string();
    assert!(!check(Some(&other), b"payload", &tree(b"payload")));
    let loose = described(None);
    assert!(
        validate_cached_binary(&entry(), &loose, Some(&loose), Some(b"x"), &tree(b"x"))
            .unwrap()
            .is_some()
    );
    assert_eq!(
        complete_metadata(loose, "/out/demo", None, "/out", &tree(b"x"))
            .unwrap_err()
            .message,
        "downloaded payload does not contain executable /out/demo"
    );
}

#[test]
fn executables_stay_as_they_are_otherwise() {
    assert_eq!(executable_mode(0o640), 0o740);
    assert_eq!(executable_mode(0o755), 0o755);
}

fn append_install_log(log: &mut Vec<u8>, line: &str) {
    if must_truncate(log.len() as u64, line.len() as u64) {
        *log = truncate_install_log(log);
    }
    log.extend_from_slice(line.as_bytes());
}

fn install_log_is_capped_and_keeps_a_complete_tail() {
    let mut log: Vec<u8> = Vec::new();
    let oversized = "a".repeat(INSTALL_LOG_MAX_BYTES as usize + 64 * 1024);

    append_install_log(&mut log, &oversized);
    append_install_log(&mut log, &oversized);
    append_install_log(&mut log, "final-marker\n");

    let contents = String::from_utf8(log).unwrap();
    assert!(
        contents.len() as u64 <= INSTALL_LOG_MAX_BYTES,
        "log exceeded its cap: {}",
        contents.len()
    );
    assert!(contents.starts_with("[install log truncated;"));
    assert!(contents.ends_with("final-marker\n"));
    assert!(contents
        .lines()
        .all(|line| line.len() < INSTALL_LOG_MAX_BYTES as usize));
}

#[test]
fn a_cut_log_keeps_its_last_lines() {
    let mut log: Vec<u8> = Vec::new();
    for index in 0..40_000 {
        append_install_log(&mut log, &format!("line {index} {}\n", "a".repeat(40)));
    }
    append_install_log(&mut log, "final-marker\n");
    let contents = String::from_utf8(log).unwrap();
    assert!(contents.len() as u64 <= INSTALL_LOG_MAX_BYTES);
    assert!(contents.starts_with("[install log truncated;"));
    assert!(contents.ends_with("final-marker\n"));
    assert!(contents.lines().nth(1).unwrap().starts_with("line "));
}

#[test]
fn a_cut_log_loses_a_partial_line_only() {
    let header = "[install log truncated; keeping the last 262144 bytes]\n";
    let cut = |log: &str| String::from_utf8(truncate_install_log(log.as_bytes())).unwrap();
    assert_eq!(cut("a\nb\n"), format!("{header}a\nb\n"));
    let line = format!("{}\n", "x".repeat(63));
    let tail = line.repeat(INSTALL_LOG_TAIL_BYTES as usize / line.len());
    assert_eq!(tail.len() as u64, INSTALL_LOG_TAIL_BYTES);
    assert_eq!(cut(&tail), format!("{header}{tail}"));
    assert_eq!(cut(&format!("first\n{tail}")), format!("{header}{tail}"));
    let broken = format!("{tail}last\n");
    assert_eq!(cut(&broken), format!("{header}{}", &broken[line.len()..]));
}

#[test]
fn binary_install_log_is_capped_and_keeps_a_complete_tail() {
    install_log_is_capped_and_keeps_a_complete_tail();
}

#[test]
fn mod_install_log_is_capped_and_keeps_a_complete_tail() {
    install_log_is_capped_and_keeps_a_complete_tail();
}

fn agent() -> RegistryAgent {
    RegistryAgent {
        id: "demo".to_string(),
        name: "Demo".to_string(),
        version: "1".to_string(),
        description: String::new(),
        repository: None,
        website: None,
        authors: Vec::new(),
        license: "MIT".to_string(),
        icon: None,
        distribution: AgentDistribution {
            binary: None,
            npx: None,
            uvx: None,
        },
    }
}

#[test]
fn attempts_are_logged() {
    let time = UtcTime {
        year: 2026,
        month: 3,
        day: 4,
        hour: 5,
        minute: 6,
        second: 7,
    };
    assert_eq!(time.to_text(), "2026-03-04T05:06:07Z");
    assert_eq!(
        install_log_line(
            "T",
            &agent(),
            Platform::LinuxX86_64,
            InstallAttempt::Ready("/x")
        ),
        "[T] ready agent=demo version=1 platform=linux-x86_64 executable=/x\n"
    );
    assert_eq!(
        install_log_line(
            "T",
            &agent(),
            Platform::LinuxX86_64,
            InstallAttempt::Failed("a: b")
        ),
        "[T] FAILED agent=demo version=1 platform=linux-x86_64 error=a: b\n"
    );
}

fn cached() -> CachedBinary {
    CachedBinary {
        executable_path: "/c/extracted/demo".to_string(),
        extracted_dir: "/c/extracted".to_string(),
        cache_dir: "/c".to_string(),
    }
}

fn failure() -> Failure {
    Failure::new("broken".to_string())
}

#[test]
fn failed_promotions_restore_the_previous_cache() {
    let mut transaction = PromotionTransaction::new("/s", "/c", true);
    transaction.run(PromotionEvent::Probed(Ok(true)));
    assert_eq!(transaction.action, PromotionAction::PreserveEntry);
    transaction.run(PromotionEvent::Done(Ok(())));
    assert_eq!(transaction.action, PromotionAction::Publish);
    transaction.run(PromotionEvent::Done(Err(failure())));
    assert_eq!(transaction.action, PromotionAction::ProbeForRestore);
    transaction.run(PromotionEvent::Probed(Ok(false)));
    assert_eq!(transaction.action, PromotionAction::RestoreBackup);
    transaction.run(PromotionEvent::Done(Ok(())));
    assert_eq!(transaction.action, PromotionAction::CleanStaging);
    transaction.run(PromotionEvent::Done(Ok(())));
    assert_eq!(transaction.action, PromotionAction::Finish);
    assert_eq!(
        transaction.outcome.unwrap().unwrap_err().chain(),
        "failed to promote staged cache /s to /c: broken"
    );
}

#[test]
fn forced_promotions_replace_the_cache() {
    let mut transaction = PromotionTransaction::new("/s", "/c", true);
    for event in [
        PromotionEvent::Probed(Ok(true)),
        PromotionEvent::Done(Ok(())),
        PromotionEvent::Done(Ok(())),
        PromotionEvent::Checked(Ok(Some(cached()))),
    ] {
        transaction.run(event);
    }
    assert_eq!(transaction.action, PromotionAction::RemoveBackup);
    transaction.run(PromotionEvent::Done(Err(failure())));
    assert_eq!(transaction.action, PromotionAction::Finish);
    assert!(transaction.committed);
    assert_eq!(transaction.outcome.unwrap().unwrap().cache_dir, "/c");
}

#[test]
fn promotions_keep_a_usable_entry() {
    let mut transaction = PromotionTransaction::new("/s", "/c", false);
    transaction.run(PromotionEvent::Probed(Ok(true)));
    assert_eq!(transaction.action, PromotionAction::CheckExisting);
    transaction.run(PromotionEvent::Checked(Ok(Some(cached()))));
    assert_eq!(transaction.action, PromotionAction::DiscardStaging);
    transaction.run(PromotionEvent::Done(Ok(())));
    assert_eq!(transaction.action, PromotionAction::Finish);
    assert!(transaction.outcome.unwrap().is_ok());
}

#[test]
fn working_directories_lead_back_to_their_entry() {
    assert_eq!(
        unique_work_dir_name("1.0", "backup", 7, 9),
        ".1.0-backup-7-9"
    );
    assert_eq!(
        work_dir_cache_key(".1.0-backup-7-9").as_deref(),
        Some("1.0")
    );
    assert_eq!(
        work_dir_cache_key(".1.0-staging-abc").as_deref(),
        Some("1.0")
    );
    assert_eq!(
        work_dir_cache_key(".1-staging-2-backup-3").as_deref(),
        Some("1-staging-2")
    );
    assert_eq!(work_dir_cache_key("1.0-backup-7"), None);
    assert_eq!(work_dir_cache_key(".-backup-7"), None);
    assert_eq!(
        backup_dir(&entry(), 1, 2),
        "/root/agents/demo/linux-x86_64/.1-backup-1-2"
    );
    assert_eq!(staging_prefix(&entry()), ".1-staging-");
}

fn found(name: &str) -> FoundDir {
    FoundDir {
        platform_dir: "/p".to_string(),
        name: name.to_string(),
        path: format!("/p/{name}"),
    }
}

#[test]
fn sweeps_remove_stale_directories() {
    let groups = stale_groups(&vec![
        found(".1-staging-a"),
        found("1"),
        found(".1-backup-b"),
    ]);
    assert_eq!(groups.len(), 1);
    assert_eq!(groups[0].cache_dir, "/p/1");
    assert_eq!(groups[0].entries.len(), 2);
    let mut sweep = GroupSweep::new(&groups[0]);
    assert_eq!(sweep.action, SweepAction::TryLock);
    sweep.run(SweepEvent::Locked(true));
    sweep.run(SweepEvent::Probed(Some(true)));
    assert_eq!(sweep.action, SweepAction::RemoveCurrent);
    sweep.run(SweepEvent::Done(true));
    sweep.run(SweepEvent::Done(true));
    assert_eq!(sweep.action, SweepAction::Finish);
    assert_eq!(sweep.removed, 2);
}

#[test]
fn sweeps_restore_the_latest_backup() {
    let groups = stale_groups(&vec![
        found(".1-backup-1"),
        found(".1-backup-2"),
        found(".1-staging-a"),
    ]);
    let mut sweep = GroupSweep::new(&groups[0]);
    sweep.run(SweepEvent::Locked(true));
    sweep.run(SweepEvent::Probed(Some(false)));
    assert_eq!(sweep.action, SweepAction::RestoreLatest);
    assert_eq!(sweep.untried.last().unwrap().path, "/p/.1-backup-2");
    sweep.run(SweepEvent::Done(true));
    assert_eq!(sweep.restored.as_deref(), Some("/p/.1-backup-2"));
    while sweep.action == SweepAction::RemoveCurrent {
        assert_ne!(sweep.entries[sweep.position].path, "/p/.1-backup-2");
        sweep.run(SweepEvent::Done(true));
    }
    assert_eq!(sweep.removed, 2);
}

#[test]
fn sweeps_leave_locked_entries_alone() {
    let groups = stale_groups(&vec![found(".1-staging-a")]);
    let mut sweep = GroupSweep::new(&groups[0]);
    sweep.run(SweepEvent::Locked(false));
    assert_eq!(sweep.action, SweepAction::Finish);
    assert_eq!(sweep.removed, 0);
    let mut sweep = GroupSweep::new(&groups[0]);
    sweep.run(SweepEvent::Locked(true));
    sweep.run(SweepEvent::Probed(None));
    assert_eq!(sweep.action, SweepAction::Finish);
}

#[test]
fn installations_run_in_stages() {
    let digest = "ab".repeat(32);
    let plan = plan_cache_entry(
        "/root",
        &agent(),
        Platform::LinuxX86_64,
        &target("https://e.com/x.zip", Some(&digest)),
    )
    .unwrap();
    assert_eq!(
        plan.entry.cache_dir,
        format!("/root/agents/demo/linux-x86_64/1-sha256-{digest}")
    );
    let mut install = CacheInstall::new(plan, true);
    assert!(matches!(
        install.on(InstallEvent::Done),
        InstallAction::LockEntry
    ));
    assert!(matches!(
        install.on(InstallEvent::Done),
        InstallAction::ShareUse
    ));
    assert!(matches!(
        install.on(InstallEvent::Done),
        InstallAction::Check
    ));
    assert!(matches!(
        install.on(InstallEvent::Checked(None)),
        InstallAction::Stage(prefix) if prefix == format!(".1-sha256-{digest}-staging-")
    ));
    assert!(matches!(
        install.on(InstallEvent::Done),
        InstallAction::Prepare
    ));
    assert!(matches!(
        install.on(InstallEvent::Done),
        InstallAction::OwnUse
    ));
    assert!(matches!(
        install.on(InstallEvent::Done),
        InstallAction::Publish(true)
    ));
    assert!(matches!(
        install.on(InstallEvent::Published(cached())),
        InstallAction::ShareUse
    ));
    assert!(matches!(
        install.on(InstallEvent::Done),
        InstallAction::Finish(Ok(_))
    ));
    assert!(matches!(
        install.on(InstallEvent::Done),
        InstallAction::Wait
    ));
}

#[test]
fn usable_entries_are_taken_as_they_are() {
    let digest = "ab".repeat(32);
    let plan = |sha256: Option<&str>| {
        plan_cache_entry(
            "/root",
            &agent(),
            Platform::LinuxX86_64,
            &target("https://e.com/x.zip", sha256),
        )
    };
    assert!(plan(None).unwrap_err().message.contains("missing required"));
    assert!(plan(Some("zz"))
        .unwrap_err()
        .message
        .contains("invalid sha256"));
    let mut install = CacheInstall::new(plan(Some(&digest)).unwrap(), false);
    for _ in 0..3 {
        install.on(InstallEvent::Done);
    }
    assert!(matches!(
        install.on(InstallEvent::Checked(Some(cached()))),
        InstallAction::Finish(Ok(_))
    ));
    let mut install = CacheInstall::new(plan(Some(&digest)).unwrap(), false);
    match install.on(InstallEvent::Failed(failure())) {
        InstallAction::Finish(Err(error)) => assert_eq!(
            error.chain(),
            "failed to create /root/agents/demo/linux-x86_64: broken"
        ),
        other => panic!("unexpected action: {other:?}"),
    }
}
