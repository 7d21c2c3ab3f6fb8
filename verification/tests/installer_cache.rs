use acp_agent::installer::cache::{
    binary_cache_lock_path, binary_cache_paths, binary_cache_paths_with_digest,
    binary_cache_use_lock_path, cache_root_dir, emptied_cache_parents, entries_to_remove,
    entry_name_of, entry_paths_of, list_cached_agents, platform_cache_key, read_cached_agent,
    safe_path_component, BinaryCacheMetadata, BinaryCachePaths, ScannedEntry,
};
use acp_agent::installer::removal::{RemovalOutcome, RemovalRun};
use acp_agent::registry::Platform;
use std::path::Path;

#[test]
fn builds_binary_cache_paths_under_namespace() {
    let root_dir = "/tmp/cache/acp-agent";
    let paths = binary_cache_paths(root_dir, "demo/agent", "1.2.3", Platform::LinuxX86_64);

    assert_eq!(paths.root_dir, root_dir);
    assert_eq!(
        paths.parent_dir,
        "/tmp/cache/acp-agent/agents/demo_agent-0b26afc5211b/linux-x86_64"
    );
    assert_eq!(
        paths.cache_dir,
        "/tmp/cache/acp-agent/agents/demo_agent-0b26afc5211b/linux-x86_64/1.2.3"
    );
}

#[test]
fn keeps_clean_path_components_unchanged() {
    assert_eq!(safe_path_component("demo"), "demo");
    assert_eq!(safe_path_component("1.2.3"), "1.2.3");
    assert_eq!(safe_path_component("demo_agent"), "demo_agent");
    assert_eq!(safe_path_component("a.b-c_d"), "a.b-c_d");
}

#[test]
fn disambiguates_lossy_path_components_with_a_stable_digest() {
    assert_eq!(
        safe_path_component("demo/agent:beta"),
        "demo_agent_beta-c1a81a1eef70"
    );
    assert_eq!(safe_path_component("..."), "_-ab5df625bc76");
    assert_eq!(safe_path_component("."), "_-cdb4ee2aea69");
    // The digest is deterministic for the same input.
    assert_eq!(safe_path_component("demo/agent"), "demo_agent-0b26afc5211b");
    assert_eq!(safe_path_component("demo/agent"), "demo_agent-0b26afc5211b");
}

#[test]
fn digest_bound_cache_paths_are_case_insensitive() {
    let root = "/tmp/cache";
    let lower = binary_cache_paths_with_digest(
        root,
        "demo",
        "1.0.0",
        Platform::LinuxX86_64,
        &"ab".repeat(32),
    );
    let upper = binary_cache_paths_with_digest(
        root,
        "demo",
        "1.0.0",
        Platform::LinuxX86_64,
        &"AB".repeat(32),
    );
    assert_eq!(lower.cache_dir, upper.cache_dir);
}

#[test]
fn distinct_logical_ids_never_resolve_to_the_same_directory() {
    let mut components = [
        safe_path_component("a/b"),
        safe_path_component("a:b"),
        safe_path_component("a?b"),
        safe_path_component("a_b"),
        safe_path_component("."),
        safe_path_component("_"),
        safe_path_component(""),
    ]
    .to_vec();
    components.sort_unstable();
    components.dedup();

    assert_eq!(
        components.len(),
        7,
        "distinct logical IDs and versions must map to distinct directories"
    );
}

#[test]
fn entries_have_their_places() {
    let paths = binary_cache_paths("/root", "demo", "1", Platform::DarwinAarch64);
    assert_eq!(paths.cache_dir, "/root/agents/demo/darwin-aarch64/1");
    assert_eq!(
        paths.extracted_dir,
        "/root/agents/demo/darwin-aarch64/1/extracted"
    );
    assert_eq!(
        paths.metadata_path,
        "/root/agents/demo/darwin-aarch64/1/metadata.json"
    );
    assert_eq!(entry_name_of(&paths.cache_dir), "1");
    assert_eq!(
        entry_paths_of("/root", &paths.cache_dir).parent_dir,
        paths.parent_dir
    );
    assert_ne!(
        binary_cache_lock_path(&paths),
        binary_cache_use_lock_path(&paths)
    );
    assert_eq!(
        cache_root_dir(Some("/home/me/.cache")).unwrap(),
        "/home/me/.cache/acp-agent"
    );
    assert!(cache_root_dir(None).is_err());
    for (platform, key) in [
        (Platform::DarwinAarch64, "darwin-aarch64"),
        (Platform::DarwinX86_64, "darwin-x86_64"),
        (Platform::LinuxAarch64, "linux-aarch64"),
        (Platform::LinuxX86_64, "linux-x86_64"),
        (Platform::WindowsAarch64, "windows-aarch64"),
        (Platform::WindowsX86_64, "windows-x86_64"),
    ] {
        assert_eq!(platform_cache_key(platform), key);
    }
    assert_eq!(
        emptied_cache_parents("/root", "/root/agents/demo/linux-x86_64/1"),
        vec![
            "/root/agents/demo/linux-x86_64",
            "/root/agents/demo",
            "/root/agents"
        ]
    );
}

const CACHE_ROOT: &str = "/tmp/cache/acp-agent";

fn metadata(agent_id: &str, version: &str, platform: Platform, cmd: &str) -> BinaryCacheMetadata {
    BinaryCacheMetadata::new(
        agent_id,
        version,
        platform,
        "https://example.com/agent.tar.gz",
        cmd,
        None,
    )
}

fn scanned(cache_dir: &str, metadata: Option<BinaryCacheMetadata>) -> ScannedEntry {
    let parent_dir = entry_paths_of(CACHE_ROOT, cache_dir).parent_dir;
    ScannedEntry {
        platform_name: entry_name_of(&parent_dir),
        name: entry_name_of(cache_dir),
        path: cache_dir.to_string(),
        is_dir: true,
        metadata,
    }
}

fn cache_entry(
    paths: &BinaryCachePaths,
    agent_id: &str,
    version: &str,
    platform: Platform,
) -> ScannedEntry {
    scanned(
        &paths.cache_dir,
        Some(metadata(agent_id, version, platform, "./agent")),
    )
}

fn remove(
    entries: &mut Vec<ScannedEntry>,
    agent_id: &str,
    platform: Option<&str>,
    keep: Option<&str>,
) -> bool {
    let namespace_dir = format!("{CACHE_ROOT}/agents/{}/", safe_path_component(agent_id));
    let namespace: Vec<ScannedEntry> = entries
        .iter()
        .filter(|entry| entry.path.starts_with(&namespace_dir))
        .cloned()
        .collect();
    let doomed = entries_to_remove(entries, &namespace, agent_id, platform, keep);
    let mut run = RemovalRun::new(doomed);
    while let Some(entry) = run.next_entry() {
        let cache_dir = entry.cache_dir.clone();
        entries.retain(|entry| entry.path != cache_dir);
        run.record(RemovalOutcome::Removed);
    }
    run.finish().unwrap()
}

fn remove_cached_agent(entries: &mut Vec<ScannedEntry>, agent_id: &str) -> bool {
    remove(entries, agent_id, None, None)
}

fn remove_cached_platform_except(
    entries: &mut Vec<ScannedEntry>,
    agent_id: &str,
    platform: Platform,
    keep: &str,
) -> bool {
    remove(entries, agent_id, Some(platform_cache_key(platform)), Some(keep))
}

fn is_there(entries: &[ScannedEntry], paths: &BinaryCachePaths) -> bool {
    entries.iter().any(|entry| entry.path == paths.cache_dir)
}

#[test]
fn lists_cached_binaries_across_agents_and_platforms() {
    let demo_100 = binary_cache_paths(CACHE_ROOT, "demo", "1.0.0", Platform::LinuxX86_64);
    let demo_110 = binary_cache_paths(CACHE_ROOT, "demo", "1.1.0", Platform::LinuxX86_64);
    let zebra = binary_cache_paths(CACHE_ROOT, "zebra", "0.2.0", Platform::DarwinAarch64);

    let mut entries = Vec::new();
    for (paths, agent_id, version, platform, cmd) in [
        (
            &demo_100,
            "demo",
            "1.0.0",
            Platform::LinuxX86_64,
            "./bin/demo",
        ),
        (
            &demo_110,
            "demo",
            "1.1.0",
            Platform::LinuxX86_64,
            "./bin/demo",
        ),
        (&zebra, "zebra", "0.2.0", Platform::DarwinAarch64, "zebra"),
    ] {
        entries.push(scanned(
            &paths.cache_dir,
            Some(metadata(agent_id, version, platform, cmd)),
        ));
    }

    let cached = list_cached_agents(&entries);
    assert_eq!(cached.len(), 3);

    let demo_100_entry = cached
        .iter()
        .find(|agent| agent.agent_version == "1.0.0")
        .unwrap();
    assert_eq!(demo_100_entry.agent_id, "demo");
    assert_eq!(demo_100_entry.platform, "linux-x86_64");
    assert_eq!(demo_100_entry.cache_dir, demo_100.cache_dir);
    assert_eq!(
        Path::new(&demo_100_entry.executable_path),
        Path::new(&demo_100.cache_dir)
            .join("extracted")
            .join("bin")
            .join("demo")
    );

    let zebra_entry = cached
        .iter()
        .find(|agent| agent.agent_id == "zebra")
        .unwrap();
    assert_eq!(zebra_entry.agent_version, "0.2.0");
    assert_eq!(zebra_entry.platform, "darwin-aarch64");
}

#[test]
fn skips_corrupt_and_staging_entries_when_listing() {
    let paths = binary_cache_paths(CACHE_ROOT, "demo", "1.0.0", Platform::LinuxX86_64);
    let staging_dir = format!("{}/.1.0.0-staging-1-2", paths.parent_dir);
    let described = BinaryCacheMetadata::new(
        "demo",
        "1.0.0",
        Platform::LinuxX86_64,
        "https://example.com/a",
        "./demo",
        None,
    );
    let entries = vec![
        scanned(&paths.cache_dir, None),
        scanned(&staging_dir, Some(described)),
    ];

    assert!(list_cached_agents(&entries).is_empty());
    assert!(read_cached_agent(&entries[1]).is_none());
}

#[test]
fn removes_cached_agent_directories() {
    let paths = binary_cache_paths(CACHE_ROOT, "demo", "1.0.0", Platform::LinuxX86_64);
    let mut entries = vec![cache_entry(&paths, "demo", "1.0.0", Platform::LinuxX86_64)];

    assert!(remove_cached_agent(&mut entries, "demo"));
    assert!(!remove_cached_agent(&mut entries, "demo"));
    assert!(!remove_cached_agent(&mut entries, "absent"));
}

#[test]
fn uninstall_removes_corrupt_cache_without_metadata() {
    let paths = binary_cache_paths_with_digest(
        CACHE_ROOT,
        "demo",
        "1.0.0",
        Platform::LinuxX86_64,
        &"a".repeat(64),
    );
    let mut entries = vec![scanned(&paths.cache_dir, None)];

    assert!(remove_cached_agent(&mut entries, "demo"));
    assert!(!is_there(&entries, &paths));
}

#[test]
fn removes_only_requested_platform_when_updating() {
    let linux = binary_cache_paths(CACHE_ROOT, "demo", "1.0.0", Platform::LinuxX86_64);
    let darwin = binary_cache_paths(CACHE_ROOT, "demo", "1.0.0", Platform::DarwinAarch64);
    let mut entries = vec![
        cache_entry(&linux, "demo", "1.0.0", Platform::LinuxX86_64),
        cache_entry(&darwin, "demo", "1.0.0", Platform::DarwinAarch64),
    ];

    assert!(remove_cached_platform_except(
        &mut entries,
        "demo",
        Platform::LinuxX86_64,
        "/tmp/cache/acp-agent/does-not-exist",
    ));
    assert!(is_there(&entries, &darwin));
    assert!(!is_there(&entries, &linux));
}

#[test]
fn removal_is_keyed_by_exact_metadata_identity_not_path() {
    let underscore = binary_cache_paths(CACHE_ROOT, "_", "1.0.0", Platform::LinuxX86_64);
    let dot = binary_cache_paths(CACHE_ROOT, ".", "1.0.0", Platform::LinuxX86_64);
    let mut entries = vec![
        cache_entry(&underscore, "_", "1.0.0", Platform::LinuxX86_64),
        cache_entry(&dot, ".", "1.0.0", Platform::LinuxX86_64),
    ];

    assert!(!remove_cached_agent(&mut entries, "absent"));
    assert!(is_there(&entries, &underscore));
    assert!(is_there(&entries, &dot));
    assert!(remove_cached_agent(&mut entries, "."));
    assert!(!is_there(&entries, &dot));
    assert!(is_there(&entries, &underscore));
}

#[test]
fn entries_of_another_agent_in_the_directory_stay() {
    let paths = binary_cache_paths(CACHE_ROOT, "demo", "1.0.0", Platform::LinuxX86_64);
    let mut entries = vec![cache_entry(&paths, "other", "1.0.0", Platform::LinuxX86_64)];
    assert!(!remove_cached_agent(&mut entries, "demo"));
    assert!(is_there(&entries, &paths));
    assert!(remove_cached_agent(&mut entries, "other"));
    assert!(!is_there(&entries, &paths));
}

#[test]
fn platform_cleanup_preserves_the_newly_installed_version() {
    let old = binary_cache_paths(CACHE_ROOT, "demo", "1.0.0", Platform::LinuxX86_64);
    let current = binary_cache_paths(CACHE_ROOT, "demo", "2.0.0", Platform::LinuxX86_64);
    let mut entries = vec![
        cache_entry(&old, "demo", "1.0.0", Platform::LinuxX86_64),
        cache_entry(&current, "demo", "2.0.0", Platform::LinuxX86_64),
    ];

    assert!(remove_cached_platform_except(
        &mut entries,
        "demo",
        Platform::LinuxX86_64,
        &current.cache_dir,
    ));
    assert!(!is_there(&entries, &old));
    assert!(is_there(&entries, &current));
}

#[test]
fn origins_are_compared_field_by_field() {
    let described = BinaryCacheMetadata::new(
        "demo",
        "1",
        Platform::LinuxX86_64,
        "https://example.com/demo.zip",
        "demo",
        Some("ab"),
    );
    assert_eq!(described.platform, "linux-x86_64");
    assert_eq!(described.executable_sha256, None);
    let complete = described
        .clone()
        .with_digests("e".to_string(), "p".to_string());
    assert!(complete.same_origin(&described));
    assert_eq!(complete.payload_sha256.as_deref(), Some("p"));
    let mut other = described.clone();
    other.sha256 = None;
    assert!(!other.same_origin(&described));
    let mut other = described.clone();
    other.cmd = "x".to_string();
    assert!(!other.same_origin(&described));
}
