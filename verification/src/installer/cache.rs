//! Layout of the binary cache, and what it holds.

use vstd::prelude::*;
use crate::digest;
use crate::digest::{hex_encode, sha256_digest};
use crate::failure::Failure;
use crate::installer::binary::entry_paths;
use crate::paths;
use crate::paths::{file_name_of, is_same_path, join_path, parent_of};
use crate::registry::Platform;
use crate::text;
use crate::text::{chars_of, same, to_ascii_lower};

verus! {

/// Whether a character may stand in a path component as it is.
pub open spec fn is_clean_char(c: char) -> bool {
    ||| '0' <= c <= '9'
    ||| 'a' <= c <= 'z'
    ||| 'A' <= c <= 'Z'
    ||| c == '.'
    ||| c == '-'
    ||| c == '_'
}

/// Whether a value is a path component as it is.
pub open spec fn is_clean(value: Seq<char>) -> bool {
    &&& value.len() > 0
    &&& forall|i: int| 0 <= i < value.len() ==> is_clean_char(#[trigger] value[i])
    &&& value[0] != '.'
    &&& value.last() != '.'
}

/// `value` with an underscore in place of each character that may not stand there.
pub open spec fn sanitized(value: Seq<char>) -> Seq<char> {
    value.map_values(
        |c: char|
            if is_clean_char(c) {
                c
            } else {
                '_'
            },
    )
}

/// `s` without the dots at its start.
pub open spec fn drop_leading_dots(s: Seq<char>) -> Seq<char>
    decreases s.len(),
{
    if s.len() > 0 && s[0] == '.' {
        drop_leading_dots(s.drop_first())
    } else {
        s
    }
}

/// `s` without the dots at its end.
pub open spec fn drop_trailing_dots(s: Seq<char>) -> Seq<char>
    decreases s.len(),
{
    if s.len() > 0 && s.last() == '.' {
        drop_trailing_dots(s.drop_last())
    } else {
        s
    }
}

/// The part of a component that a reader recognises the value by.
pub open spec fn readable(value: Seq<char>) -> Seq<char> {
    let trimmed = drop_trailing_dots(drop_leading_dots(sanitized(value)));
    if trimmed.len() == 0 {
        seq!['_']
    } else {
        trimmed
    }
}

/// The twelve hexadecimal digits that tell values apart whose readable parts are equal.
pub open spec fn path_digest(value: Seq<char>) -> Seq<char> {
    digest::hex_text(digest::sha256(vstd::utf8::encode_utf8(value)).take(6))
}

/// The path component for a registry id or a version: the value itself where it can be one, and
/// otherwise its readable part with a digest of the value.
pub open spec fn component(value: Seq<char>) -> Seq<char> {
    if is_clean(value) {
        value
    } else {
        readable(value) + "-"@ + path_digest(value)
    }
}

fn clean_char(c: char) -> (r: bool)
    ensures
        r == is_clean_char(c),
{
    ('0' <= c && c <= '9') || ('a' <= c && c <= 'z') || ('A' <= c && c <= 'Z') || c == '.' || c
        == '-' || c == '_'
}

proof fn lemma_dots(s: Seq<char>)
    ensures
        drop_leading_dots(s).len() <= s.len(),
        drop_leading_dots(s) == s.skip(s.len() - drop_leading_dots(s).len()),
        drop_leading_dots(s).len() > 0 ==> drop_leading_dots(s)[0] != '.',
        s.len() > 0 && s[0] == '.' ==> drop_leading_dots(s).len() < s.len(),
    decreases s.len(),
{
    if s.len() > 0 && s[0] == '.' {
        lemma_dots(s.drop_first());
        let n = drop_leading_dots(s).len() as int;
        assert(s.drop_first().skip(s.len() - 1 - n) == s.skip(s.len() - n));
    } else {
        assert(s.skip(0) == s);
    }
}

proof fn lemma_trailing_dots(s: Seq<char>)
    ensures
        drop_trailing_dots(s).len() <= s.len(),
        drop_trailing_dots(s) == s.take(drop_trailing_dots(s).len() as int),
        drop_trailing_dots(s).len() > 0 ==> drop_trailing_dots(s).last() != '.',
        s.len() > 0 && s.last() == '.' ==> drop_trailing_dots(s).len() < s.len(),
    decreases s.len(),
{
    if s.len() > 0 && s.last() == '.' {
        lemma_trailing_dots(s.drop_last());
        let n = drop_trailing_dots(s).len() as int;
        assert(s.drop_last().take(n) == s.take(n));
    } else {
        assert(s.take(s.len() as int) == s);
    }
}

/// The readable part of a value is itself a component, and it is the value exactly where the
/// value is one.
proof fn lemma_readable(value: Seq<char>)
    ensures
        is_clean(readable(value)),
        is_clean(value) <==> readable(value) == value,
{
    let safe = sanitized(value);
    let front = drop_leading_dots(safe);
    let both = drop_trailing_dots(front);
    lemma_dots(safe);
    lemma_trailing_dots(front);
    assert forall|i: int| 0 <= i < both.len() implies is_clean_char(#[trigger] both[i]) by {
        assert(both[i] == front[i]);
        assert(front[i] == safe[i + (safe.len() - front.len())]);
    }
    if both.len() > 0 {
        assert(both[0] == front[0]);
    }
    if is_clean(value) {
        assert forall|i: int| 0 <= i < value.len() implies safe[i] == value[i] by {
            assert(is_clean_char(value[i]));
        }
        assert(safe == value);
    }
}

fn trim_dots(chars: &Vec<char>) -> (r: Vec<char>)
    ensures
        r@ == drop_trailing_dots(drop_leading_dots(chars@)),
{
    let mut start: usize = 0;
    assert(chars@.skip(0) == chars@);
    while start < chars.len() && chars[start] == '.'
        invariant
            start <= chars.len(),
            drop_leading_dots(chars@) == drop_leading_dots(chars@.skip(start as int)),
        decreases chars.len() - start,
    {
        assert(chars@.skip(start as int).drop_first() == chars@.skip(start + 1));
        start += 1;
    }
    let ghost rest = chars@.skip(start as int);
    assert(drop_leading_dots(chars@) == rest);
    let mut end: usize = chars.len();
    assert(rest.take(rest.len() as int) == rest);
    while end > start && chars[end - 1] == '.'
        invariant
            start <= end <= chars.len(),
            rest == chars@.skip(start as int),
            drop_trailing_dots(rest) == drop_trailing_dots(rest.take(end - start)),
        decreases end,
    {
        assert(rest.take(end - start).drop_last() == rest.take(end - start - 1));
        assert(rest.take(end - start).last() == chars@[end - 1]);
        end -= 1;
    }
    assert(end > start ==> rest.take(end - start).last() == chars@[end - 1]);
    let mut r: Vec<char> = Vec::new();
    let mut i: usize = start;
    while i < end
        invariant
            start <= i <= end <= chars.len(),
            rest == chars@.skip(start as int),
            r@ == rest.take(i - start),
        decreases end - i,
    {
        r.push(chars[i]);
        assert(rest.take(i + 1 - start) == rest.take(i - start).push(chars@[i as int]));
        i += 1;
    }
    r
}

/// Short stable digest used to tell lossy path components apart.
fn stable_path_digest(value: &str) -> (r: String)
    ensures
        r@ == path_digest(value@),
{
    let all = sha256_digest(value.as_bytes());
    let mut first: Vec<u8> = Vec::new();
    let mut i: usize = 0;
    while i < 6
        invariant
            i <= 6,
            first@ == all@.take(i as int),
        decreases 6 - i,
    {
        first.push(all[i]);
        assert(all@.take(i + 1) == all@.take(i as int).push(all@[i as int]));
        i += 1;
    }
    hex_encode(first.as_slice())
}

/// Builds a path component for a registry id or a version.
///
/// A value that is a component already is kept. Otherwise a digest of the value is appended, so
/// that values with the same readable part stay apart.
pub fn safe_path_component(value: &str) -> (r: String)
    ensures
        r@ == component(value@),
{
    let chars = chars_of(value);
    let mut safe: Vec<char> = Vec::new();
    let mut i: usize = 0;
    while i < chars.len()
        invariant
            i <= chars.len(),
            chars@ == value@,
            safe@ == sanitized(value@).take(i as int),
        decreases chars.len() - i,
    {
        if clean_char(chars[i]) {
            safe.push(chars[i]);
        } else {
            safe.push('_');
        }
        assert(sanitized(value@).take(i + 1) == sanitized(value@).take(i as int).push(
            sanitized(value@)[i as int],
        ));
        i += 1;
    }
    assert(sanitized(value@).take(chars@.len() as int) == sanitized(value@));
    let mut trimmed = trim_dots(&safe);
    if trimmed.len() == 0 {
        trimmed.push('_');
        assert(trimmed@ == seq!['_']);
    }
    let shown = text::string_of(&trimmed);
    proof {
        assert(shown@ == readable(value@));
        lemma_readable(value@);
    }
    if same(shown.as_str(), value) {
        shown
    } else {
        shown.concat("-").concat(stable_path_digest(value).as_str())
    }
}

/// Every component is one that needs no change: it names a file in a directory, and making a
/// component of it again gives it back.
pub proof fn law_components_are_clean(value: Seq<char>)
    ensures
        is_clean(component(value)),
        component(component(value)) == component(value),
        entry_paths::is_safe_component(component(value)),
{
    reveal_strlit("");
    reveal_strlit(".");
    reveal_strlit("..");
    reveal_strlit("-");
    lemma_readable(value);
    let r = component(value);
    if !is_clean(value) {
        let shown = readable(value);
        let hex = path_digest(value);
        assert(hex.len() == 12);
        assert(r == shown + "-"@ + hex);
        assert forall|i: int| 0 <= i < r.len() implies is_clean_char(#[trigger] r[i]) by {
            if i < shown.len() {
                assert(r[i] == shown[i]);
            } else if i == shown.len() {
                assert(r[i] == '-');
            } else {
                assert(r[i] == hex[i - shown.len() - 1]);
            }
        }
        assert(r[0] == shown[0]);
        assert(r.last() == hex[11]);
    }
    assert forall|i: int| 0 <= i < r.len() implies r[i] != '/' && r[i] != '\\' && r[i] != '\0' by {
        assert(is_clean_char(r[i]));
    }
}

/// Two values share a component only where one of them is the other's component, or where their
/// readable parts and their digests agree.
pub proof fn law_distinct_values_stay_apart(a: Seq<char>, b: Seq<char>)
    requires
        a != b,
        a != component(b),
        b != component(a),
        !is_clean(a) && !is_clean(b) && readable(a) == readable(b) ==> path_digest(a)
            != path_digest(b),
    ensures
        component(a) != component(b),
{
    reveal_strlit("-");
    if !is_clean(a) && !is_clean(b) && component(a) == component(b) {
        let x = component(a);
        assert(path_digest(a).len() == 12);
        assert(path_digest(b).len() == 12);
        assert(path_digest(a) == x.skip(x.len() - 12));
        assert(path_digest(b) == x.skip(x.len() - 12));
        assert(readable(a) == x.take(x.len() - 13));
        assert(readable(b) == x.take(x.len() - 13));
    }
}

/// The name of a platform in the cache.
pub open spec fn platform_key(platform: Platform) -> Seq<char> {
    match platform {
        Platform::DarwinAarch64 => "darwin-aarch64"@,
        Platform::DarwinX86_64 => "darwin-x86_64"@,
        Platform::LinuxAarch64 => "linux-aarch64"@,
        Platform::LinuxX86_64 => "linux-x86_64"@,
        Platform::WindowsAarch64 => "windows-aarch64"@,
        Platform::WindowsX86_64 => "windows-x86_64"@,
    }
}

/// Names a platform in the cache.
pub fn platform_cache_key(platform: Platform) -> (r: &'static str)
    ensures
        r@ == platform_key(platform),
{
    match platform {
        Platform::DarwinAarch64 => "darwin-aarch64",
        Platform::DarwinX86_64 => "darwin-x86_64",
        Platform::LinuxAarch64 => "linux-aarch64",
        Platform::LinuxX86_64 => "linux-x86_64",
        Platform::WindowsAarch64 => "windows-aarch64",
        Platform::WindowsX86_64 => "windows-x86_64",
    }
}

/// Where one cache entry lies.
#[derive(Debug, Clone, PartialEq, Eq)]
pub struct BinaryCachePaths {
    pub root_dir: String,
    pub parent_dir: String,
    pub cache_dir: String,
    pub extracted_dir: String,
    pub metadata_path: String,
}

/// A [`BinaryCachePaths`] over sequences of characters.
#[verifier::ext_equal]
pub struct CachePathsView {
    pub root_dir: Seq<char>,
    pub parent_dir: Seq<char>,
    pub cache_dir: Seq<char>,
    pub extracted_dir: Seq<char>,
    pub metadata_path: Seq<char>,
}

impl View for BinaryCachePaths {
    type V = CachePathsView;

    open spec fn view(&self) -> CachePathsView {
        CachePathsView {
            root_dir: self.root_dir@,
            parent_dir: self.parent_dir@,
            cache_dir: self.cache_dir@,
            extracted_dir: self.extracted_dir@,
            metadata_path: self.metadata_path@,
        }
    }
}

/// The paths of the entry in `cache_dir`, which lies in `parent_dir`.
pub open spec fn entry_view(
    root_dir: Seq<char>,
    parent_dir: Seq<char>,
    cache_dir: Seq<char>,
) -> CachePathsView {
    CachePathsView {
        root_dir,
        parent_dir,
        cache_dir,
        extracted_dir: paths::join(cache_dir, "extracted"@),
        metadata_path: paths::join(cache_dir, "metadata.json"@),
    }
}

/// The directory of all entries of an agent.
pub open spec fn agent_directory(root_dir: Seq<char>, agent_id: Seq<char>) -> Seq<char> {
    paths::join(paths::join(root_dir, "agents"@), component(agent_id))
}

/// The paths of the entry for a version of an agent.
pub open spec fn cache_paths(
    root_dir: Seq<char>,
    agent_id: Seq<char>,
    agent_version: Seq<char>,
    platform: Platform,
) -> CachePathsView {
    let parent_dir = paths::join(agent_directory(root_dir, agent_id), platform_key(platform));
    entry_view(root_dir, parent_dir, paths::join(parent_dir, component(agent_version)))
}

/// The version under which an archive with a known digest is cached.
pub open spec fn digest_key(agent_version: Seq<char>, sha256: Seq<char>) -> Seq<char> {
    agent_version + "-sha256-"@ + text::ascii_lower(sha256)
}

/// Gives the root of the cache below the platform's cache directory.
pub fn cache_root_dir(platform_cache_dir: Option<&str>) -> (r: Result<String, Failure>)
    ensures
        match (r, platform_cache_dir) {
            (Ok(root), Some(dir)) => root@ == paths::join(dir@, "acp-agent"@),
            (Err(e), None) => e@ == crate::failure::failure(
                "could not determine the platform cache directory"@,
            ),
            _ => false,
        },
{
    match platform_cache_dir {
        None => Err(
            Failure::new("could not determine the platform cache directory".to_owned()),
        ),
        Some(dir) => Ok(join_path(dir, "acp-agent")),
    }
}

fn entry_paths_in(root_dir: &str, parent_dir: String, cache_dir: String) -> (r: BinaryCachePaths)
    ensures
        r@ == entry_view(root_dir@, parent_dir@, cache_dir@),
{
    let extracted_dir = join_path(cache_dir.as_str(), "extracted");
    let metadata_path = join_path(cache_dir.as_str(), "metadata.json");
    BinaryCachePaths {
        root_dir: root_dir.to_owned(),
        parent_dir,
        cache_dir,
        extracted_dir,
        metadata_path,
    }
}

/// Lays out the cache entry for a version of an agent.
pub fn binary_cache_paths(
    root_dir: &str,
    agent_id: &str,
    agent_version: &str,
    platform: Platform,
) -> (r: BinaryCachePaths)
    ensures
        r@ == cache_paths(root_dir@, agent_id@, agent_version@, platform),
{
    let agent_dir = join_path(
        join_path(root_dir, "agents").as_str(),
        safe_path_component(agent_id).as_str(),
    );
    let parent_dir = join_path(agent_dir.as_str(), platform_cache_key(platform));
    let cache_dir = join_path(parent_dir.as_str(), safe_path_component(agent_version).as_str());
    entry_paths_in(root_dir, parent_dir, cache_dir)
}

/// Lays out the cache entry for an archive with a known digest.
pub fn binary_cache_paths_with_digest(
    root_dir: &str,
    agent_id: &str,
    agent_version: &str,
    platform: Platform,
    sha256: &str,
) -> (r: BinaryCachePaths)
    ensures
        r@ == cache_paths(root_dir@, agent_id@, digest_key(agent_version@, sha256@), platform),
{
    let key = agent_version.to_owned().concat("-sha256-").concat(to_ascii_lower(sha256).as_str());
    binary_cache_paths(root_dir, agent_id, key.as_str(), platform)
}

/// The case of a declared digest does not matter to where its archive is cached.
pub proof fn law_digest_paths_ignore_case(
    root_dir: Seq<char>,
    agent_id: Seq<char>,
    agent_version: Seq<char>,
    platform: Platform,
    a: Seq<char>,
    b: Seq<char>,
)
    requires
        text::ascii_lower(a) == text::ascii_lower(b),
    ensures
        cache_paths(root_dir, agent_id, digest_key(agent_version, a), platform) == cache_paths(
            root_dir,
            agent_id,
            digest_key(agent_version, b),
            platform,
        ),
{
}

/// The paths of an entry that is known by its directory alone.
pub open spec fn paths_of_entry(root_dir: Seq<char>, cache_dir: Seq<char>) -> CachePathsView {
    entry_view(
        root_dir,
        match paths::parent(cache_dir) {
            Some(dir) => dir,
            None => root_dir,
        },
        cache_dir,
    )
}

/// Gives the paths of an entry that is known by its directory alone.
pub fn entry_paths_of(root_dir: &str, cache_dir: &str) -> (r: BinaryCachePaths)
    ensures
        r@ == paths_of_entry(root_dir@, cache_dir@),
{
    let parent_dir = match parent_of(cache_dir) {
        Some(dir) => dir,
        None => root_dir.to_owned(),
    };
    entry_paths_in(root_dir, parent_dir, cache_dir.to_owned())
}

/// The name of an entry's directory.
pub open spec fn entry_name(cache_dir: Seq<char>) -> Seq<char> {
    match paths::file_name(cache_dir) {
        Some(name) => name,
        None => "cache"@,
    }
}

/// Gives the name of an entry's directory.
pub fn entry_name_of(cache_dir: &str) -> (r: String)
    ensures
        r@ == entry_name(cache_dir@),
{
    match file_name_of(cache_dir) {
        Some(name) => name,
        None => "cache".to_owned(),
    }
}

/// The lock that publishers and removers of an entry take, beside the entry.
pub fn binary_cache_lock_path(entry: &BinaryCachePaths) -> (r: String)
    ensures
        r@ == paths::join(
            entry.parent_dir@,
            component(entry_name(entry.cache_dir@)) + "-cache.lock"@,
        ),
{
    let name = safe_path_component(entry_name_of(entry.cache_dir.as_str()).as_str());
    join_path(entry.parent_dir.as_str(), name.concat("-cache.lock").as_str())
}

/// The lock that users of an entry's payload share, beside the entry.
pub fn binary_cache_use_lock_path(entry: &BinaryCachePaths) -> (r: String)
    ensures
        r@ == paths::join(
            entry.parent_dir@,
            component(entry_name(entry.cache_dir@)) + "-cache.use.lock"@,
        ),
{
    let name = safe_path_component(entry_name_of(entry.cache_dir.as_str()).as_str());
    join_path(entry.parent_dir.as_str(), name.concat("-cache.use.lock").as_str())
}

/// What is stored beside an unpacked payload.
#[derive(Debug, Clone, PartialEq, Eq)]
pub struct BinaryCacheMetadata {
    pub agent_id: String,
    pub agent_version: String,
    pub platform: String,
    pub archive: String,
    pub cmd: String,
    /// SHA-256 digest of the downloaded archive.
    pub sha256: Option<String>,
    /// SHA-256 digest of the unpacked executable.
    pub executable_sha256: Option<String>,
    /// SHA-256 digest of the whole unpacked tree.
    pub payload_sha256: Option<String>,
}

/// A [`BinaryCacheMetadata`] over sequences of characters.
#[verifier::ext_equal]
pub struct MetadataView {
    pub agent_id: Seq<char>,
    pub agent_version: Seq<char>,
    pub platform: Seq<char>,
    pub archive: Seq<char>,
    pub cmd: Seq<char>,
    pub sha256: Option<Seq<char>>,
    pub executable_sha256: Option<Seq<char>>,
    pub payload_sha256: Option<Seq<char>>,
}

impl View for BinaryCacheMetadata {
    type V = MetadataView;

    open spec fn view(&self) -> MetadataView {
        MetadataView {
            agent_id: self.agent_id@,
            agent_version: self.agent_version@,
            platform: self.platform@,
            archive: self.archive@,
            cmd: self.cmd@,
            sha256: text::opt_text(self.sha256),
            executable_sha256: text::opt_text(self.executable_sha256),
            payload_sha256: text::opt_text(self.payload_sha256),
        }
    }
}

impl MetadataView {
    /// Whether two entries were made from the same archive of the same agent.
    pub open spec fn same_origin(self, other: MetadataView) -> bool {
        &&& self.agent_id == other.agent_id
        &&& self.agent_version == other.agent_version
        &&& self.platform == other.platform
        &&& self.archive == other.archive
        &&& self.cmd == other.cmd
        &&& self.sha256 == other.sha256
    }
}

impl BinaryCacheMetadata {
    /// Describes an entry that has not been unpacked yet.
    pub fn new(
        agent_id: &str,
        agent_version: &str,
        platform: Platform,
        archive: &str,
        cmd: &str,
        sha256: Option<&str>,
    ) -> (r: BinaryCacheMetadata)
        ensures
            r@ == (MetadataView {
                agent_id: agent_id@,
                agent_version: agent_version@,
                platform: platform_key(platform),
                archive: archive@,
                cmd: cmd@,
                sha256: match sha256 {
                    Some(d) => Some(text::ascii_lower(d@)),
                    None => None,
                },
                executable_sha256: None,
                payload_sha256: None,
            }),
    {
        BinaryCacheMetadata {
            agent_id: agent_id.to_owned(),
            agent_version: agent_version.to_owned(),
            platform: platform_cache_key(platform).to_owned(),
            archive: archive.to_owned(),
            cmd: cmd.to_owned(),
            sha256: match sha256 {
                Some(d) => Some(to_ascii_lower(d)),
                None => None,
            },
            executable_sha256: None,
            payload_sha256: None,
        }
    }

    /// Records the digests of the unpacked payload.
    pub fn with_digests(self, executable_sha256: String, payload_sha256: String) -> (r:
        BinaryCacheMetadata)
        ensures
            r@ == (MetadataView {
                executable_sha256: Some(executable_sha256@),
                payload_sha256: Some(payload_sha256@),
                ..self@
            }),
    {
        BinaryCacheMetadata {
            agent_id: self.agent_id,
            agent_version: self.agent_version,
            platform: self.platform,
            archive: self.archive,
            cmd: self.cmd,
            sha256: self.sha256,
            executable_sha256: Some(executable_sha256),
            payload_sha256: Some(payload_sha256),
        }
    }

    /// Tells whether two entries were made from the same archive of the same agent.
    pub fn same_origin(&self, other: &BinaryCacheMetadata) -> (r: bool)
        ensures
            r == self@.same_origin(other@),
    {
        same(self.agent_id.as_str(), other.agent_id.as_str()) && same(
            self.agent_version.as_str(),
            other.agent_version.as_str(),
        ) && same(self.platform.as_str(), other.platform.as_str()) && same(
            self.archive.as_str(),
            other.archive.as_str(),
        ) && same(self.cmd.as_str(), other.cmd.as_str()) && text::same_optional(
            &self.sha256,
            &other.sha256,
        )
    }
}

/// A binary distribution found in the cache.
#[derive(Debug, Clone, PartialEq, Eq)]
pub struct CachedAgent {
    /// Registry id of the agent.
    pub agent_id: String,
    /// Version of the agent.
    pub agent_version: String,
    /// Platform name of the entry.
    pub platform: String,
    /// Directory of the entry.
    pub cache_dir: String,
    /// Executable within the unpacked payload.
    pub executable_path: String,
}

/// A [`CachedAgent`] over sequences of characters.
#[verifier::ext_equal]
pub struct CachedAgentView {
    pub agent_id: Seq<char>,
    pub agent_version: Seq<char>,
    pub platform: Seq<char>,
    pub cache_dir: Seq<char>,
    pub executable_path: Seq<char>,
}

impl DeepView for CachedAgent {
    type V = CachedAgentView;

    open spec fn deep_view(&self) -> CachedAgentView {
        CachedAgentView {
            agent_id: self.agent_id@,
            agent_version: self.agent_version@,
            platform: self.platform@,
            cache_dir: self.cache_dir@,
            executable_path: self.executable_path@,
        }
    }
}

/// A directory at the place of a cache entry, as a scan of the cache found it.
#[derive(Debug, Clone, PartialEq, Eq)]
pub struct ScannedEntry {
    /// Name of the platform directory that it lies in.
    pub platform_name: String,
    /// Its own name.
    pub name: String,
    /// Its path.
    pub path: String,
    /// Whether it is a directory.
    pub is_dir: bool,
    /// What is stored beside the payload, if that could be read.
    pub metadata: Option<BinaryCacheMetadata>,
}

/// What a scanned entry holds. Working directories and entries without readable metadata hold
/// nothing.
pub open spec fn listed(entry: ScannedEntry) -> Option<CachedAgentView> {
    if entry.name@.len() > 0 && entry.name@[0] == '.' {
        None
    } else {
        match entry.metadata {
            None => None,
            Some(m) => Some(
                CachedAgentView {
                    agent_id: m.agent_id@,
                    agent_version: m.agent_version@,
                    platform: m.platform@,
                    cache_dir: entry.path@,
                    executable_path: paths::join(
                        paths::join(entry.path@, "extracted"@),
                        m.cmd@,
                    ),
                },
            ),
        }
    }
}

/// What the scanned entries hold, in their order.
pub open spec fn listing(entries: Seq<ScannedEntry>) -> Seq<CachedAgentView> {
    entries.filter_map(|e: ScannedEntry| listed(e))
}

fn is_work_name(name: &str) -> (r: bool)
    ensures
        r == (name@.len() > 0 && name@[0] == '.'),
{
    let chars = chars_of(name);
    chars.len() > 0 && chars[0] == '.'
}

/// Reads what a scanned entry holds.
pub fn read_cached_agent(entry: &ScannedEntry) -> (r: Option<CachedAgent>)
    ensures
        match r {
            Some(agent) => listed(*entry) == Some(agent.deep_view()),
            None => listed(*entry) is None,
        },
{
    if is_work_name(entry.name.as_str()) {
        return None;
    }
    match &entry.metadata {
        None => None,
        Some(m) => Some(
            CachedAgent {
                agent_id: m.agent_id.clone(),
                agent_version: m.agent_version.clone(),
                platform: m.platform.clone(),
                cache_dir: entry.path.clone(),
                executable_path: join_path(
                    join_path(entry.path.as_str(), "extracted").as_str(),
                    m.cmd.as_str(),
                ),
            },
        ),
    }
}

/// Lists what the cache holds, given a scan of it.
pub fn list_cached_agents(entries: &Vec<ScannedEntry>) -> (r: Vec<CachedAgent>)
    ensures
        r.deep_view() == listing(entries@),
{
    let mut r: Vec<CachedAgent> = Vec::new();
    let mut i: usize = 0;
    assert(r.deep_view() == listing(entries@.take(0)));
    while i < entries.len()
        invariant
            i <= entries.len(),
            r.deep_view() == listing(entries@.take(i as int)),
        decreases entries.len() - i,
    {
        let ghost before = r.deep_view();
        proof {
            assert(entries@.take(i + 1).drop_last() == entries@.take(i as int));
            assert(entries@.take(i + 1).last() == entries@[i as int]);
        }
        if let Some(agent) = read_cached_agent(&entries[i]) {
            r.push(agent);
            assert(r.deep_view() == before.push(agent.deep_view()));
        }
        i += 1;
    }
    assert(entries@.take(entries@.len() as int) == entries@);
    r
}

/// Whether a path is the directory of one of the listed entries.
pub open spec fn is_known(agents: Seq<CachedAgentView>, path: Seq<char>) -> bool {
    exists|k: int| 0 <= k < agents.len() && paths::same_path((#[trigger] agents[k]).cache_dir, path)
}

/// A directory in an agent's namespace that the listing does not know, and that removal must
/// still find: a damaged entry.
pub open spec fn damaged(
    known: Seq<CachedAgentView>,
    agent_id: Seq<char>,
    platform: Option<Seq<char>>,
    entry: ScannedEntry,
) -> Option<CachedAgentView> {
    if (platform is Some && platform->Some_0 != entry.platform_name@) || (entry.name@.len() > 0
        && entry.name@[0] == '.') || !entry.is_dir || is_known(known, entry.path@) {
        None
    } else {
        Some(
            CachedAgentView {
                agent_id,
                agent_version: entry.name@,
                platform: entry.platform_name@,
                cache_dir: entry.path@,
                executable_path: Seq::empty(),
            },
        )
    }
}

/// Whether an entry is one that is to be removed.
pub open spec fn is_doomed(
    agent_id: Seq<char>,
    platform: Option<Seq<char>>,
    keep: Option<Seq<char>>,
    agent: CachedAgentView,
) -> bool {
    &&& agent.agent_id == agent_id
    &&& platform is Some ==> agent.platform == platform->Some_0
    &&& keep is Some ==> !paths::same_path(agent.cache_dir, keep->Some_0)
}

/// The entries to remove for an agent: those that the whole cache lists for it, and the damaged
/// ones in its own namespace.
pub open spec fn removals(
    all: Seq<ScannedEntry>,
    namespace: Seq<ScannedEntry>,
    agent_id: Seq<char>,
    platform: Option<Seq<char>>,
    keep: Option<Seq<char>>,
) -> Seq<CachedAgentView> {
    let known = listing(all);
    let found = known + namespace.filter_map(
        |e: ScannedEntry| damaged(known, agent_id, platform, e),
    );
    found.filter(|a: CachedAgentView| is_doomed(agent_id, platform, keep, a))
}

fn knows(agents: &Vec<CachedAgent>, count: usize, path: &str) -> (r: bool)
    requires
        count <= agents.len(),
    ensures
        r == is_known(agents.deep_view().take(count as int), path@),
{
    let ghost known = agents.deep_view().take(count as int);
    let mut i: usize = 0;
    while i < count
        invariant
            i <= count <= agents.len(),
            known == agents.deep_view().take(count as int),
            forall|k: int|
                0 <= k < i ==> !paths::same_path((#[trigger] known[k]).cache_dir, path@),
        decreases count - i,
    {
        assert(known[i as int] == agents@[i as int].deep_view());
        if is_same_path(agents[i].cache_dir.as_str(), path) {
            return true;
        }
        i += 1;
    }
    false
}

proof fn lemma_doomed_push(
    s: Seq<CachedAgentView>,
    x: CachedAgentView,
    agent_id: Seq<char>,
    platform: Option<Seq<char>>,
    keep: Option<Seq<char>>,
)
    ensures
        s.push(x).filter(|a: CachedAgentView| is_doomed(agent_id, platform, keep, a))
            == if is_doomed(agent_id, platform, keep, x) {
            s.filter(|a: CachedAgentView| is_doomed(agent_id, platform, keep, a)).push(x)
        } else {
            s.filter(|a: CachedAgentView| is_doomed(agent_id, platform, keep, a))
        },
{
    reveal(Seq::filter);
    assert(s.push(x).drop_last() == s);
}

/// Selects the entries of `agent_id` to remove, given a scan of the whole cache and one of the
/// agent's own namespace.
///
/// `platform` restricts the selection to one platform, and `keep` exempts one entry. Readable
/// metadata decides which agent an entry belongs to; an entry without it belongs to the
/// namespace that it lies in.
pub fn entries_to_remove(
    all: &Vec<ScannedEntry>,
    namespace: &Vec<ScannedEntry>,
    agent_id: &str,
    platform: Option<&str>,
    keep: Option<&str>,
) -> (r: Vec<CachedAgent>)
    ensures
        r.deep_view() == removals(
            all@,
            namespace@,
            agent_id@,
            text::text_option(platform),
            text::text_option(keep),
        ),
{
    let ghost p = text::text_option(platform);
    let ghost k = text::text_option(keep);
    let mut found = list_cached_agents(all);
    let count: usize = found.len();
    let ghost known = found.deep_view();
    let ghost pick = |e: ScannedEntry| damaged(known, agent_id@, p, e);
    let mut i: usize = 0;
    assert(found.deep_view() == known + namespace@.take(0).filter_map(pick));
    while i < namespace.len()
        invariant
            i <= namespace.len(),
            count <= found.len(),
            p == text::text_option(platform),
            known.len() == count,
            pick == (|e: ScannedEntry| damaged(known, agent_id@, p, e)),
            found.deep_view() == known + namespace@.take(i as int).filter_map(pick),
        decreases namespace.len() - i,
    {
        let entry = &namespace[i];
        let ghost before = found.deep_view();
        proof {
            assert(namespace@.take(i + 1).drop_last() == namespace@.take(i as int));
            assert(namespace@.take(i + 1).last() == *entry);
            assert(found.deep_view().take(count as int) == known);
        }
        let elsewhere: bool = match platform {
            Some(expected) => !same(expected, entry.platform_name.as_str()),
            None => false,
        };
        if !elsewhere && !is_work_name(entry.name.as_str()) && entry.is_dir && !knows(
            &found,
            count,
            entry.path.as_str(),
        ) {
            let agent = CachedAgent {
                agent_id: agent_id.to_owned(),
                agent_version: entry.name.clone(),
                platform: entry.platform_name.clone(),
                cache_dir: entry.path.clone(),
                executable_path: String::new(),
            };
            found.push(agent);
            assert(found.deep_view() == before.push(agent.deep_view()));
            assert(pick(*entry) == Some(agent.deep_view()));
            assert(found.deep_view() == known + namespace@.take(i + 1).filter_map(pick));
        } else {
            assert(pick(*entry) is None);
            assert(found.deep_view() == known + namespace@.take(i + 1).filter_map(pick));
        }
        i += 1;
    }
    assert(namespace@.take(namespace@.len() as int) == namespace@);
    let ghost every = found.deep_view();
    let mut r: Vec<CachedAgent> = Vec::new();
    let mut j: usize = 0;
    proof {
        reveal(Seq::filter);
        assert(r.deep_view() == every.take(0).filter(
            |a: CachedAgentView| is_doomed(agent_id@, p, k, a),
        ));
    }
    while j < found.len()
        invariant
            j <= found.len(),
            every == found.deep_view(),
            p == text::text_option(platform),
            k == text::text_option(keep),
            r.deep_view() == every.take(j as int).filter(
                |a: CachedAgentView| is_doomed(agent_id@, p, k, a),
            ),
        decreases found.len() - j,
    {
        let agent = &found[j];
        let ghost before = r.deep_view();
        proof {
            assert(every[j as int] == agent.deep_view());
            assert(every.take(j + 1) == every.take(j as int).push(agent.deep_view()));
            lemma_doomed_push(every.take(j as int), agent.deep_view(), agent_id@, p, k);
        }
        let elsewhere: bool = match platform {
            Some(expected) => !same(agent.platform.as_str(), expected),
            None => false,
        };
        let kept: bool = match keep {
            Some(path) => is_same_path(agent.cache_dir.as_str(), path),
            None => false,
        };
        if same(agent.agent_id.as_str(), agent_id) && !elsewhere && !kept {
            let picked = CachedAgent {
                agent_id: agent.agent_id.clone(),
                agent_version: agent.agent_version.clone(),
                platform: agent.platform.clone(),
                cache_dir: agent.cache_dir.clone(),
                executable_path: agent.executable_path.clone(),
            };
            r.push(picked);
            assert(r.deep_view() == before.push(agent.deep_view()));
        }
        j += 1;
    }
    assert(every.take(every.len() as int) == every);
    r
}

/// Removal selects entries of the named agent only, and never the one that is to be kept.
pub proof fn law_removals_are_of_the_agent(
    all: Seq<ScannedEntry>,
    namespace: Seq<ScannedEntry>,
    agent_id: Seq<char>,
    platform: Option<Seq<char>>,
    keep: Option<Seq<char>>,
    i: int,
)
    requires
        0 <= i < removals(all, namespace, agent_id, platform, keep).len(),
    ensures
        removals(all, namespace, agent_id, platform, keep)[i].agent_id == agent_id,
        platform is Some ==> removals(all, namespace, agent_id, platform, keep)[i].platform
            == platform->Some_0,
        keep is Some ==> !paths::same_path(
            removals(all, namespace, agent_id, platform, keep)[i].cache_dir,
            keep->Some_0,
        ),
{
    let known = listing(all);
    let found = known + namespace.filter_map(
        |e: ScannedEntry| damaged(known, agent_id, platform, e),
    );
    found.lemma_filter_pred(|a: CachedAgentView| is_doomed(agent_id, platform, keep, a), i);
}

/// The directories to remove, if they are empty, once an entry is gone: those of its platform and
/// its agent, and the directory of all agents.
pub open spec fn emptied_parents(root_dir: Seq<char>, cache_dir: Seq<char>) -> Seq<Seq<char>> {
    match paths::parent(cache_dir) {
        None => Seq::empty(),
        Some(platform_dir) => match paths::parent(platform_dir) {
            None => Seq::empty(),
            Some(agent_dir) => seq![platform_dir, agent_dir, paths::join(root_dir, "agents"@)],
        },
    }
}

/// Names the directories to remove, if they are empty, once an entry is gone.
pub fn emptied_cache_parents(root_dir: &str, cache_dir: &str) -> (r: Vec<String>)
    ensures
        r.deep_view() == emptied_parents(root_dir@, cache_dir@),
{
    let mut r: Vec<String> = Vec::new();
    if let Some(platform_dir) = parent_of(cache_dir) {
        if let Some(agent_dir) = parent_of(platform_dir.as_str()) {
            r.push(platform_dir);
            r.push(agent_dir);
            r.push(join_path(root_dir, "agents"));
        }
    }
    assert(r.deep_view() == emptied_parents(root_dir@, cache_dir@));
    r
}

proof fn lemma_filter_map_holds<A, B>(s: Seq<A>, f: spec_fn(A) -> Option<B>, i: int)
    requires
        0 <= i < s.len(),
        f(s[i]) is Some,
    ensures
        s.filter_map(f).contains(f(s[i])->Some_0),
    decreases s.len(),
{
    reveal(Seq::filter_map);
    let front = s.drop_last();
    if i < s.len() - 1 {
        assert(front[i] == s[i]);
        lemma_filter_map_holds(front, f, i);
        let k = choose|k: int|
            0 <= k < front.filter_map(f).len() && front.filter_map(f)[k] == f(s[i])->Some_0;
        assert(s.filter_map(f)[k] == f(s[i])->Some_0);
    } else {
        let n = s.filter_map(f).len() as int;
        assert(s.filter_map(f)[n - 1] == f(s[i])->Some_0);
    }
}

proof fn lemma_filter_map_comes_from<A, B>(s: Seq<A>, f: spec_fn(A) -> Option<B>, k: int)
    requires
        0 <= k < s.filter_map(f).len(),
    ensures
        exists|i: int| 0 <= i < s.len() && f(#[trigger] s[i]) == Some(s.filter_map(f)[k]),
        s.filter_map(f).len() <= s.len(),
    decreases s.len(),
{
    reveal(Seq::filter_map);
    if s.len() > 0 {
        let front = s.drop_last();
        if k < front.filter_map(f).len() {
            lemma_filter_map_comes_from(front, f, k);
            let i = choose|i: int| 0 <= i < front.len() && f(#[trigger] front[i]) == Some(
                front.filter_map(f)[k],
            );
            assert(s[i] == front[i]);
        } else {
            assert(f(s[s.len() - 1]) == Some(s.filter_map(f)[k]));
            if front.filter_map(f).len() > 0 {
                lemma_filter_map_comes_from(front, f, 0);
            }
        }
    }
}

/// The listing goes on entry by entry: one that is hidden or without readable metadata adds nothing,
/// any other adds itself, as its metadata describes it.
pub proof fn law_listing_grows_by_readable_entries(entries: Seq<ScannedEntry>, e: ScannedEntry)
    ensures
        listing(Seq::empty()) == Seq::<CachedAgentView>::empty(),
        e.metadata is None || (e.name@.len() > 0 && e.name@[0] == '.') ==> listing(entries.push(e))
            == listing(entries),
        e.metadata is Some && !(e.name@.len() > 0 && e.name@[0] == '.') ==> {
            let m = e.metadata->Some_0;
            let all = listing(entries.push(e));
            &&& all.len() == listing(entries).len() + 1
            &&& all.drop_last() == listing(entries)
            &&& all.last().agent_id == m.agent_id@
            &&& all.last().agent_version == m.agent_version@
            &&& all.last().platform == m.platform@
            &&& all.last().cache_dir == e.path@
            &&& all.last().executable_path == paths::join(
                paths::join(e.path@, "extracted"@),
                m.cmd@,
            )
        },
{
    reveal(Seq::filter_map);
    assert(entries.push(e).drop_last() =~= entries);
    assert(entries.push(e).last() == e);
    if listed(e) is Some {
        assert(listing(entries.push(e)).drop_last() =~= listing(entries));
    }
}

/// Nothing of the agent is left behind: every entry whose metadata names the agent, on the platform
/// that was asked for if there is one, and that is not the one to keep, is removed.
pub proof fn law_every_entry_of_the_agent_is_removed(
    all: Seq<ScannedEntry>,
    namespace: Seq<ScannedEntry>,
    agent_id: Seq<char>,
    platform: Option<Seq<char>>,
    keep: Option<Seq<char>>,
    i: int,
)
    requires
        0 <= i < all.len(),
        all[i].metadata is Some,
        all[i].metadata->Some_0.agent_id@ == agent_id,
        !(all[i].name@.len() > 0 && all[i].name@[0] == '.'),
        platform is Some ==> all[i].metadata->Some_0.platform@ == platform->Some_0,
        keep is Some ==> !paths::same_path(all[i].path@, keep->Some_0),
    ensures
        exists|k: int|
            #![trigger removals(all, namespace, agent_id, platform, keep)[k]]
            0 <= k < removals(all, namespace, agent_id, platform, keep).len() && removals(
                all,
                namespace,
                agent_id,
                platform,
                keep,
            )[k].cache_dir == all[i].path@ && removals(
                all,
                namespace,
                agent_id,
                platform,
                keep,
            )[k].agent_version == all[i].metadata->Some_0.agent_version@,
{
    let known = listing(all);
    let extra = namespace.filter_map(|e: ScannedEntry| damaged(known, agent_id, platform, e));
    let found = known + extra;
    let doomed = |a: CachedAgentView| is_doomed(agent_id, platform, keep, a);
    let f = |e: ScannedEntry| listed(e);
    lemma_filter_map_holds(all, f, i);
    let view = listed(all[i])->Some_0;
    let k = choose|k: int| 0 <= k < known.len() && known[k] == view;
    assert(found[k] == view);
    found.lemma_filter_contains(doomed, k);
    let gone = removals(all, namespace, agent_id, platform, keep);
    let at = choose|at: int| 0 <= at < gone.len() && gone[at] == view;
    assert(gone[at].cache_dir == all[i].path@);
}

/// Nor is a damaged entry: every directory of the agent's namespace that no readable entry has is
/// removed on the same terms.
pub proof fn law_damaged_entries_are_removed(
    all: Seq<ScannedEntry>,
    namespace: Seq<ScannedEntry>,
    agent_id: Seq<char>,
    platform: Option<Seq<char>>,
    keep: Option<Seq<char>>,
    j: int,
)
    requires
        0 <= j < namespace.len(),
        namespace[j].is_dir,
        !(namespace[j].name@.len() > 0 && namespace[j].name@[0] == '.'),
        forall|i: int|
            #![trigger all[i]]
            0 <= i < all.len() ==> !paths::same_path(all[i].path@, namespace[j].path@),
        platform is Some ==> namespace[j].platform_name@ == platform->Some_0,
        keep is Some ==> !paths::same_path(namespace[j].path@, keep->Some_0),
    ensures
        exists|k: int|
            #![trigger removals(all, namespace, agent_id, platform, keep)[k]]
            0 <= k < removals(all, namespace, agent_id, platform, keep).len() && removals(
                all,
                namespace,
                agent_id,
                platform,
                keep,
            )[k].cache_dir == namespace[j].path@,
{
    let known = listing(all);
    let g = |e: ScannedEntry| damaged(known, agent_id, platform, e);
    let extra = namespace.filter_map(g);
    let found = known + extra;
    let doomed = |a: CachedAgentView| is_doomed(agent_id, platform, keep, a);
    if is_known(known, namespace[j].path@) {
        let k = choose|k: int|
            0 <= k < known.len() && paths::same_path(
                (#[trigger] known[k]).cache_dir,
                namespace[j].path@,
            );
        let f = |e: ScannedEntry| listed(e);
        lemma_filter_map_comes_from(all, f, k);
        let i = choose|i: int| 0 <= i < all.len() && f(#[trigger] all[i]) == Some(known[k]);
        assert(!paths::same_path(all[i].path@, namespace[j].path@));
        assert(false);
    }
    lemma_filter_map_holds(namespace, g, j);
    let view = g(namespace[j])->Some_0;
    let k = choose|k: int| 0 <= k < extra.len() && extra[k] == view;
    assert(found[known.len() + k] == view);
    found.lemma_filter_contains(doomed, known.len() + k);
    let gone = removals(all, namespace, agent_id, platform, keep);
    let at = choose|at: int| 0 <= at < gone.len() && gone[at] == view;
    assert(gone[at].cache_dir == namespace[j].path@);
}

/// What is removed lies in the cache: it is an entry whose metadata names the agent, or a directory
/// of the agent's namespace.
pub proof fn law_removals_lie_in_the_cache(
    all: Seq<ScannedEntry>,
    namespace: Seq<ScannedEntry>,
    agent_id: Seq<char>,
    platform: Option<Seq<char>>,
    keep: Option<Seq<char>>,
    k: int,
)
    requires
        0 <= k < removals(all, namespace, agent_id, platform, keep).len(),
    ensures
        ({
            let gone = removals(all, namespace, agent_id, platform, keep)[k];
            ||| exists|i: int|
                #![trigger all[i]]
                0 <= i < all.len() && all[i].path@ == gone.cache_dir && all[i].metadata is Some
                    && all[i].metadata->Some_0.agent_id@ == agent_id
            ||| exists|j: int|
                #![trigger namespace[j]]
                0 <= j < namespace.len() && namespace[j].path@ == gone.cache_dir
                    && namespace[j].is_dir
        }),
{
    let known = listing(all);
    let g = |e: ScannedEntry| damaged(known, agent_id, platform, e);
    let f = |e: ScannedEntry| listed(e);
    let extra = namespace.filter_map(g);
    let found = known + extra;
    let doomed = |a: CachedAgentView| is_doomed(agent_id, platform, keep, a);
    let gone = removals(all, namespace, agent_id, platform, keep)[k];
    found.lemma_filter_pred(doomed, k);
    assert(found.filter(doomed).contains(gone));
    found.lemma_filter_contains_rev(doomed, gone);
    let at = choose|at: int| 0 <= at < found.len() && found[at] == gone;
    if at < known.len() {
        lemma_filter_map_comes_from(all, f, at);
        let i = choose|i: int| 0 <= i < all.len() && f(#[trigger] all[i]) == Some(known[at]);
        assert(all[i].path@ == gone.cache_dir);
    } else {
        let m = at - known.len();
        lemma_filter_map_comes_from(namespace, g, m);
        let j = choose|j: int|
            0 <= j < namespace.len() && g(#[trigger] namespace[j]) == Some(extra[m]);
        assert(namespace[j].path@ == gone.cache_dir);
    }
}

/// A value that is a plain name already is its own component: letters, digits, dots, dashes and
/// underscores of ASCII, with no dot at either end. Any other carries the beginning of its digest.
pub proof fn law_only_unclean_values_carry_a_digest(value: Seq<char>)
    ensures
        is_clean(value) <==> value.len() > 0 && value[0] != '.' && value.last() != '.' && forall|
            i: int,
        |
            #![trigger value[i]]
            0 <= i < value.len() ==> {
                let c = value[i] as int;
                48 <= c <= 57 || 65 <= c <= 90 || 97 <= c <= 122 || c == 45 || c == 46 || c == 95
            },
        is_clean(value) ==> component(value) == value,
        !is_clean(value) ==> ("-"@ + digest::hex_text(
            digest::sha256(vstd::utf8::encode_utf8(value)).take(6),
        )).is_suffix_of(component(value)),
{
    if is_clean(value) {
        assert forall|i: int| 0 <= i < value.len() implies ({
            let c = (#[trigger] value[i]) as int;
            48 <= c <= 57 || 65 <= c <= 90 || 97 <= c <= 122 || c == 45 || c == 46 || c == 95
        }) by {
            assert(is_clean_char(value[i]));
        }
    } else {
        let tail = "-"@ + path_digest(value);
        let all = component(value);
        assert(all =~= readable(value) + tail);
        assert(all.skip(all.len() - tail.len()) =~= tail);
    }
}

/// Every platform has a directory of its own name.
pub proof fn law_platforms_have_their_own_directories(a: Platform, b: Platform)
    ensures
        platform_key(Platform::DarwinAarch64) == "darwin-aarch64"@,
        platform_key(Platform::DarwinX86_64) == "darwin-x86_64"@,
        platform_key(Platform::LinuxAarch64) == "linux-aarch64"@,
        platform_key(Platform::LinuxX86_64) == "linux-x86_64"@,
        platform_key(Platform::WindowsAarch64) == "windows-aarch64"@,
        platform_key(Platform::WindowsX86_64) == "windows-x86_64"@,
        a != b ==> platform_key(a) != platform_key(b),
{
    reveal_strlit("darwin-aarch64");
    reveal_strlit("darwin-x86_64");
    reveal_strlit("linux-aarch64");
    reveal_strlit("linux-x86_64");
    reveal_strlit("windows-aarch64");
    reveal_strlit("windows-x86_64");
    let x = platform_key(a);
    let y = platform_key(b);
    if x == y {
        assert(x.len() == y.len());
        assert(x[0] == y[0]);
        assert(x.last() == y.last());
    }
}

proof fn lemma_key_is_a_name(platform: Platform)
    ensures
        ({
            let key = platform_key(platform);
            &&& key.len() > 2
            &&& !key.contains('/')
            &&& key[0] != '/'
            &&& key.last() == '4'
        }),
{
    reveal_strlit("darwin-aarch64");
    reveal_strlit("darwin-x86_64");
    reveal_strlit("linux-aarch64");
    reveal_strlit("linux-x86_64");
    reveal_strlit("windows-aarch64");
    reveal_strlit("windows-x86_64");
}

proof fn lemma_component_is_a_name(value: Seq<char>)
    ensures
        ({
            let name = component(value);
            &&& name.len() > 0
            &&& !name.contains('/')
            &&& name[0] != '/'
            &&& name.last() != '/'
            &&& name.last() != '.'
            &&& name != seq!['.']
            &&& name != seq!['.', '.']
        }),
{
    law_components_are_clean(value);
    let name = component(value);
    if name.contains('/') {
        let i = choose|i: int| 0 <= i < name.len() && name[i] == '/';
        assert(is_clean_char(name[i]));
    }
    assert(is_clean_char(name[0]));
    assert(is_clean_char(name[name.len() - 1]));
}

proof fn lemma_join_name(base: Seq<char>, name: Seq<char>)
    requires
        name.len() > 0,
        name[0] != '/',
    ensures
        paths::join(base, name).last() == name.last(),
        paths::join(base, name).len() > 0,
        base.len() > 0 && base.last() != '/' ==> paths::join(base, name) == base.push('/') + name,
{
}

proof fn lemma_named_below(base: Seq<char>, name: Seq<char>)
    requires
        name.len() > 0,
        !name.contains('/'),
        name != seq!['.'],
        name != seq!['.', '.'],
    ensures
        paths::components(paths::join(base, name)) == paths::components(base).push(name),
{
    paths::law_single_names_are_components(name);
    paths::law_join_puts_components_behind(base, name);
    assert(paths::components(base) + seq![name] =~= paths::components(base).push(name));
}

proof fn lemma_names_in_entries()
    ensures
        "agents"@.len() > 2 && !"agents"@.contains('/'),
        "extracted"@.len() > 2 && !"extracted"@.contains('/'),
        "metadata.json"@.len() > 2 && !"metadata.json"@.contains('/'),
{
    reveal_strlit("agents");
    reveal_strlit("extracted");
    reveal_strlit("metadata.json");
}

/// An entry lies below the root at its agent, its platform and its version, in that order; its
/// payload and its metadata lie in it.
pub proof fn law_entries_lie_by_agent_platform_and_version(
    root_dir: Seq<char>,
    agent_id: Seq<char>,
    agent_version: Seq<char>,
    platform: Platform,
)
    ensures
        ({
            let c = cache_paths(root_dir, agent_id, agent_version, platform);
            let above = paths::components(root_dir) + seq![
                "agents"@,
                component(agent_id),
                platform_key(platform),
            ];
            &&& c.root_dir == root_dir
            &&& paths::components(c.parent_dir) == above
            &&& paths::components(c.cache_dir) == above.push(component(agent_version))
            &&& paths::components(c.extracted_dir) == above.push(component(agent_version)).push(
                "extracted"@,
            )
            &&& paths::components(c.metadata_path) == above.push(component(agent_version)).push(
                "metadata.json"@,
            )
        }),
{
    let c = cache_paths(root_dir, agent_id, agent_version, platform);
    let key = platform_key(platform);
    let id = component(agent_id);
    let version = component(agent_version);
    lemma_key_is_a_name(platform);
    lemma_component_is_a_name(agent_id);
    lemma_component_is_a_name(agent_version);
    lemma_names_in_entries();
    lemma_named_below(root_dir, "agents"@);
    lemma_named_below(paths::join(root_dir, "agents"@), id);
    lemma_named_below(agent_directory(root_dir, agent_id), key);
    lemma_named_below(c.parent_dir, version);
    lemma_named_below(c.cache_dir, "extracted"@);
    lemma_named_below(c.cache_dir, "metadata.json"@);
    let base = paths::components(root_dir);
    assert(base.push("agents"@).push(id).push(key) =~= base + seq!["agents"@, id, key]);
}

/// The paths of an entry are found again from its directory, and so is its name.
pub proof fn law_entries_are_found_again_by_directory(
    root_dir: Seq<char>,
    agent_id: Seq<char>,
    agent_version: Seq<char>,
    platform: Platform,
)
    ensures
        ({
            let c = cache_paths(root_dir, agent_id, agent_version, platform);
            &&& paths_of_entry(root_dir, c.cache_dir) == c
            &&& entry_name(c.cache_dir) == component(agent_version)
            &&& emptied_parents(root_dir, c.cache_dir) == seq![
                c.parent_dir,
                agent_directory(root_dir, agent_id),
                paths::join(root_dir, "agents"@),
            ]
        }),
{
    reveal_strlit("agents");
    let c = cache_paths(root_dir, agent_id, agent_version, platform);
    let key = platform_key(platform);
    let id = component(agent_id);
    let version = component(agent_version);
    let agent_dir = agent_directory(root_dir, agent_id);
    lemma_key_is_a_name(platform);
    lemma_component_is_a_name(agent_id);
    lemma_component_is_a_name(agent_version);
    lemma_join_name(root_dir, "agents"@);
    lemma_join_name(paths::join(root_dir, "agents"@), id);
    lemma_join_name(agent_dir, key);
    lemma_join_name(c.parent_dir, version);
    assert(c.parent_dir == agent_dir.push('/') + key);
    assert(c.cache_dir == c.parent_dir.push('/') + version);
    assert(key != seq!['.'] && key != seq!['.', '.']) by {
        assert(seq!['.'].last() == '.' && seq!['.', '.'].last() == '.');
    }
    paths::law_file_name_is_behind_the_last_slash(c.parent_dir, version, Seq::empty());
    paths::law_file_name_is_behind_the_last_slash(agent_dir, key, Seq::empty());
}

/// A digest binds an entry: it stands, written small, behind the version.
pub proof fn law_digests_are_part_of_the_version(version: Seq<char>, sha256: Seq<char>)
    ensures
        version.is_prefix_of(digest_key(version, sha256)),
        text::ascii_lower(sha256).is_suffix_of(digest_key(version, sha256)),
        digest_key(version, sha256).len() == version.len() + 8 + sha256.len(),
{
    reveal_strlit("-sha256-");
    text::law_lower_case_changes_capitals_only(sha256);
    let key = digest_key(version, sha256);
    let low = text::ascii_lower(sha256);
    assert(key.take(version.len() as int) =~= version);
    assert(key.skip(key.len() - low.len()) =~= low);
}

/// Two descriptions are of one origin exactly if they agree on the agent, its version and platform,
/// the archive, the command and the digest.
pub proof fn law_one_origin_is_agreement_on_everything_declared(
    a: BinaryCacheMetadata,
    b: BinaryCacheMetadata,
)
    ensures
        a@.same_origin(b@) <==> {
            &&& a.agent_id@ == b.agent_id@
            &&& a.agent_version@ == b.agent_version@
            &&& a.platform@ == b.platform@
            &&& a.archive@ == b.archive@
            &&& a.cmd@ == b.cmd@
            &&& (a.sha256 is Some <==> b.sha256 is Some)
            &&& (a.sha256 is Some && b.sha256 is Some ==> a.sha256->Some_0@ == b.sha256->Some_0@)
        },
        a@ == b@ ==> {
            &&& a@.same_origin(b@)
            &&& (a.executable_sha256 is Some <==> b.executable_sha256 is Some)
            &&& (a.executable_sha256 is Some ==> a.executable_sha256->Some_0@
                == b.executable_sha256->Some_0@)
            &&& (a.payload_sha256 is Some <==> b.payload_sha256 is Some)
            &&& (a.payload_sha256 is Some ==> a.payload_sha256->Some_0@
                == b.payload_sha256->Some_0@)
        },
{
}

/// Entries and paths with the same view agree on everything.
pub proof fn law_cache_views_hold_every_field(
    a: CachedAgent,
    b: CachedAgent,
    p: BinaryCachePaths,
    q: BinaryCachePaths,
)
    ensures
        a.deep_view() == b.deep_view() ==> a.agent_id@ == b.agent_id@ && a.agent_version@
            == b.agent_version@ && a.platform@ == b.platform@ && a.cache_dir@ == b.cache_dir@
            && a.executable_path@ == b.executable_path@,
        p@ == q@ ==> p.root_dir@ == q.root_dir@ && p.parent_dir@ == q.parent_dir@ && p.cache_dir@
            == q.cache_dir@ && p.extracted_dir@ == q.extracted_dir@ && p.metadata_path@
            == q.metadata_path@,
{
}

/// Every readable entry of the agent is chosen for removal unless it is of another platform or is
/// the one to keep, however many there are.
pub proof fn law_no_entry_of_the_agent_is_left(
    all: &Vec<ScannedEntry>,
    namespace: &Vec<ScannedEntry>,
    agent_id: &str,
    platform: Option<&str>,
    keep: Option<&str>,
    r: Vec<CachedAgent>,
    i: int,
)
    requires
        call_ensures(entries_to_remove, (all, namespace, agent_id, platform, keep), r),
        0 <= i < all.len(),
        all@[i].metadata is Some,
        all@[i].metadata->Some_0.agent_id@ == agent_id@,
        !(all@[i].name@.len() > 0 && all@[i].name@[0] == '.'),
        platform is Some ==> all@[i].metadata->Some_0.platform@ == platform->Some_0@,
        keep is Some ==> !paths::same_path(all@[i].path@, keep->Some_0@),
    ensures
        exists|k: int| 0 <= k < r.len() && (#[trigger] r@[k]).cache_dir@ == all@[i].path@,
{
    let p = text::text_option(platform);
    let kept = text::text_option(keep);
    law_every_entry_of_the_agent_is_removed(all@, namespace@, agent_id@, p, kept, i);
    let k = choose|k: int|
        #![trigger removals(all@, namespace@, agent_id@, p, kept)[k]]
        0 <= k < removals(all@, namespace@, agent_id@, p, kept).len() && removals(
            all@,
            namespace@,
            agent_id@,
            p,
            kept,
        )[k].cache_dir == all@[i].path@ && removals(
            all@,
            namespace@,
            agent_id@,
            p,
            kept,
        )[k].agent_version == all@[i].metadata->Some_0.agent_version@;
    assert(r.deep_view()[k] == r@[k].deep_view());
    assert(r@[k].cache_dir@ == all@[i].path@);
}

/// The cache lies in the program's own directory of the platform's, and nowhere if there is none;
/// what an entry is locked by lies beside it, and under a name of its own for each purpose.
pub proof fn law_cache_places_are_the_programs_own(
    dir: Option<&str>,
    root: Result<String, Failure>,
    entry: BinaryCachePaths,
    lock: String,
    use_lock: String,
)
    requires
        call_ensures(cache_root_dir, (dir,), root),
        call_ensures(binary_cache_lock_path, (&entry,), lock),
        call_ensures(binary_cache_use_lock_path, (&entry,), use_lock),
    ensures
        root is Ok <==> dir is Some,
        root is Ok ==> root->Ok_0@ == paths::join(dir->Some_0@, "acp-agent"@),
        lock@ == paths::join(
            entry.parent_dir@,
            component(entry_name(entry.cache_dir@)) + "-cache.lock"@,
        ),
        lock@ != use_lock@,
{
    reveal_strlit("-cache.lock");
    reveal_strlit("-cache.use.lock");
    assert(lock@.len() + 4 == use_lock@.len());
}

/// Metadata holds what it was made of: the declared digest in small letters, and no digests of
/// content until they are added; adding them changes nothing else.
pub proof fn law_metadata_holds_what_it_was_made_of(
    agent_id: &str,
    version: &str,
    platform: Platform,
    archive: &str,
    cmd: &str,
    sha256: Option<&str>,
    m: BinaryCacheMetadata,
    executable: String,
    payload: String,
    done: BinaryCacheMetadata,
)
    requires
        call_ensures(
            BinaryCacheMetadata::new,
            (agent_id, version, platform, archive, cmd, sha256),
            m,
        ),
        call_ensures(BinaryCacheMetadata::with_digests, (m, executable, payload), done),
    ensures
        m@.agent_id == agent_id@,
        m@.agent_version == version@,
        m@.platform == platform_key(platform),
        m@.archive == archive@,
        m@.cmd == cmd@,
        m@.sha256 is Some <==> sha256 is Some,
        sha256 is Some ==> text::same_letters(m@.sha256->Some_0, sha256->Some_0@),
        m@.executable_sha256 is None,
        m@.payload_sha256 is None,
        done@.agent_id == m@.agent_id,
        done@.agent_version == m@.agent_version,
        done@.platform == m@.platform,
        done@.archive == m@.archive,
        done@.cmd == m@.cmd,
        done@.sha256 == m@.sha256,
        done@.executable_sha256 == Some(executable@),
        done@.payload_sha256 == Some(payload@),
{
    if sha256 is Some {
        let d = sha256->Some_0@;
        let low = text::ascii_lower(d);
        text::law_lower_case_changes_capitals_only(d);
        text::law_lower_case_changes_capitals_only(low);
        assert(text::ascii_lower(low) =~= low);
        text::law_lower_case_forgets_case_only(low, d);
    }
}

} // verus!
