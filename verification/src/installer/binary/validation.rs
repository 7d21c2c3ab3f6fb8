//! Checking a cache entry before it is used.

use vstd::prelude::*;
use crate::digest;
use crate::failure;
use crate::failure::{Failure, FailureView};
use crate::installer::binary::entry_paths;
use crate::installer::binary::entry_paths::resolve_cmd_path;
use crate::installer::binary::payload;
use crate::installer::binary::payload::{file_digest, payload_digest, PayloadChanged, PayloadNode};
use crate::installer::binary::{CachedBinary, CachedBinaryView};
use crate::installer::cache::{
    BinaryCacheMetadata, BinaryCachePaths, CachePathsView, MetadataView,
};
use crate::paths;
use crate::paths::join_path;
use crate::text;
use crate::text::{lossy_string, same, to_ascii_lower};

verus! {

/// Where the executable of an entry must lie, if its metadata is there and describes what is
/// expected.
pub open spec fn located(
    entry: CachePathsView,
    expected: MetadataView,
    found: Option<MetadataView>,
) -> Option<Seq<char>> {
    match found {
        None => None,
        Some(m) => if !m.same_origin(expected) {
            None
        } else {
            match entry_paths::resolved_command(entry.extracted_dir, m.cmd) {
                Ok(path) => Some(path),
                Err(_) => None,
            }
        },
    }
}

/// The metadata of an entry, if any could be read.
pub open spec fn found_view(found: Option<&BinaryCacheMetadata>) -> Option<MetadataView> {
    match found {
        Some(m) => Some(m@),
        None => None,
    }
}

/// Finds the executable of an entry. `found` is the entry's metadata; `None` stands for metadata
/// that is missing or cannot be decoded.
pub fn locate_executable(
    entry: &BinaryCachePaths,
    expected: &BinaryCacheMetadata,
    found: Option<&BinaryCacheMetadata>,
) -> (r: Option<String>)
    ensures
        text::opt_text(r) == located(entry@, expected@, found_view(found)),
{
    match found {
        None => None,
        Some(m) => {
            if !m.same_origin(expected) {
                return None;
            }
            match resolve_cmd_path(entry.extracted_dir.as_str(), m.cmd.as_str()) {
                Ok(path) => Some(path),
                Err(_) => None,
            }
        },
    }
}

/// Whether a recorded digest vouches for content. Where none is recorded, only an entry that is
/// not bound to the digest of its archive is accepted.
pub open spec fn vouches(recorded: Option<Seq<char>>, bound: bool, actual: Seq<char>) -> bool {
    match recorded {
        Some(digest_text) => text::ascii_lower(digest_text) == text::ascii_lower(actual),
        None => !bound,
    }
}

fn is_vouched(recorded: &Option<String>, bound: bool, actual: &str) -> (r: bool)
    ensures
        r == vouches(text::opt_text(*recorded), bound, actual@),
{
    match recorded {
        Some(digest_text) => same(
            to_ascii_lower(digest_text.as_str()).as_str(),
            to_ascii_lower(actual).as_str(),
        ),
        None => !bound,
    }
}

/// The digest of a file's content in hexadecimal form.
pub open spec fn content_digest(content: Seq<u8>) -> Seq<char> {
    digest::hex_text(digest::sha256(content))
}

/// The digest of a payload tree in hexadecimal form.
pub open spec fn tree_digest(tree: PayloadNode) -> Seq<char> {
    digest::hex_text(digest::sha256(payload::payload_bytes(tree)))
}

/// Whether an entry can be used, given its metadata, the content of its executable (`None` where
/// that is no regular file) and its payload.
pub open spec fn cache_verdict(
    entry: CachePathsView,
    expected: MetadataView,
    found: Option<MetadataView>,
    executable: Option<Seq<u8>>,
    tree: PayloadNode,
) -> Option<CachedBinaryView> {
    match (located(entry, expected, found), executable) {
        (Some(executable_path), Some(content)) => {
            let m = found->Some_0;
            let bound = expected.sha256 is Some;
            if vouches(m.executable_sha256, bound, content_digest(content)) && vouches(
                m.payload_sha256,
                bound,
                tree_digest(tree),
            ) {
                Some(
                    CachedBinaryView {
                        executable_path,
                        extracted_dir: entry.extracted_dir,
                        cache_dir: entry.cache_dir,
                    },
                )
            } else {
                None
            }
        },
        _ => None,
    }
}

/// The content of an optional file.
pub open spec fn content_view(content: Option<&[u8]>) -> Option<Seq<u8>> {
    match content {
        Some(bytes) => Some(bytes@),
        None => None,
    }
}

/// Whether the payload has to be digested to tell whether the entry can be used.
pub open spec fn needs_tree(
    entry: CachePathsView,
    expected: MetadataView,
    found: Option<MetadataView>,
    executable: Option<Seq<u8>>,
) -> bool {
    match (located(entry, expected, found), executable) {
        (Some(_), Some(content)) => vouches(
            found->Some_0.executable_sha256,
            expected.sha256 is Some,
            content_digest(content),
        ) && found->Some_0.payload_sha256 is Some,
        _ => false,
    }
}

/// Checks a cache entry. A payload that changes while it is digested is a failure.
pub fn validate_cached_binary(
    entry: &BinaryCachePaths,
    expected: &BinaryCacheMetadata,
    found: Option<&BinaryCacheMetadata>,
    executable: Option<&[u8]>,
    tree: &PayloadNode,
) -> (r: Result<Option<CachedBinary>, PayloadChanged>)
    ensures
        match r {
            Ok(binary) => {
                &&& match binary {
                    Some(b) => cache_verdict(
                        entry@,
                        expected@,
                        found_view(found),
                        content_view(executable),
                        *tree,
                    ) == Some(b@),
                    None => cache_verdict(
                        entry@,
                        expected@,
                        found_view(found),
                        content_view(executable),
                        *tree,
                    ) is None,
                }
                &&& needs_tree(entry@, expected@, found_view(found), content_view(executable))
                    ==> payload::first_changed(*tree, Seq::empty()) is None
            },
            Err(e) => needs_tree(entry@, expected@, found_view(found), content_view(executable))
                && payload::first_changed(*tree, Seq::empty()) == Some(e.relative@),
        },
{
    let executable_path = match locate_executable(entry, expected, found) {
        None => {
            return Ok(None);
        },
        Some(path) => path,
    };
    let (m, content) = match (found, executable) {
        (Some(m), Some(content)) => (m, content),
        _ => {
            return Ok(None);
        },
    };
    let bound: bool = expected.sha256.is_some();
    if !is_vouched(&m.executable_sha256, bound, file_digest(content).as_str()) {
        return Ok(None);
    }
    if m.payload_sha256.is_some() {
        let actual = payload_digest(tree)?;
        if !is_vouched(&m.payload_sha256, bound, actual.as_str()) {
            return Ok(None);
        }
    } else if bound {
        return Ok(None);
    }
    Ok(
        Some(
            CachedBinary {
                executable_path,
                extracted_dir: entry.extracted_dir.clone(),
                cache_dir: entry.cache_dir.clone(),
            },
        ),
    )
}

/// The failure of a payload without the executable that the registry declares.
pub open spec fn no_executable(executable_path: Seq<char>) -> FailureView {
    failure::failure("downloaded payload does not contain executable "@ + executable_path)
}

/// The failure of a payload that changes while it is digested.
pub open spec fn payload_changed(extracted_dir: Seq<char>, relative: Seq<u8>) -> FailureView {
    failure::failure(
        "payload file changed while hashing: "@ + paths::join(
            extracted_dir,
            text::lossy_text(relative),
        ),
    )
}

/// Words the failure of a payload that changes while it is digested.
pub fn changed_failure(extracted_dir: &str, change: &PayloadChanged) -> (r: Failure)
    ensures
        r@ == payload_changed(extracted_dir@, change.relative@),
{
    let relative = lossy_string(change.relative.as_slice());
    Failure::new(
        "payload file changed while hashing: ".to_owned().concat(
            join_path(extracted_dir, relative.as_str()).as_str(),
        ),
    )
}

/// Completes the metadata of a freshly unpacked payload with its digests.
pub fn complete_metadata(
    metadata: BinaryCacheMetadata,
    executable_path: &str,
    executable: Option<&[u8]>,
    extracted_dir: &str,
    tree: &PayloadNode,
) -> (r: Result<BinaryCacheMetadata, Failure>)
    ensures
        match r {
            Ok(m) => executable is Some && payload::first_changed(*tree, Seq::empty()) is None
                && m@ == (MetadataView {
                executable_sha256: Some(content_digest(executable->Some_0@)),
                payload_sha256: Some(tree_digest(*tree)),
                ..metadata@
            }),
            Err(e) => match (executable, payload::first_changed(*tree, Seq::empty())) {
                (None, _) => e@ == no_executable(executable_path@),
                (Some(_), Some(relative)) => e@ == payload_changed(extracted_dir@, relative),
                (Some(_), None) => false,
            },
        },
{
    match executable {
        None => Err(
            Failure::new(
                "downloaded payload does not contain executable ".to_owned().concat(
                    executable_path,
                ),
            ),
        ),
        Some(content) => {
            let executable_sha256 = file_digest(content);
            match payload_digest(tree) {
                Err(change) => Err(changed_failure(extracted_dir, &change)),
                Ok(payload_sha256) => Ok(
                    metadata.with_digests(executable_sha256, payload_sha256),
                ),
            }
        },
    }
}

/// The permissions of an executable: those it has, and execution by its owner.
pub fn executable_mode(mode: u32) -> (r: u32)
    ensures
        r == mode | 0o100,
{
    mode | 0o100
}

/// Making a file executable takes no permission away, and grants no other.
pub proof fn law_executable_mode(mode: u32)
    ensures
        (mode | 0o100) & 0o100 == 0o100,
        (mode | 0o100) & !0o100u32 == mode & !0o100u32,
{
    assert((mode | 0o100) & 0o100 == 0o100) by (bit_vector);
    assert((mode | 0o100) & !0o100u32 == mode & !0o100u32) by (bit_vector);
}

/// An entry with the metadata of its own payload is usable: what is prepared passes the check
/// that follows its publication.
pub proof fn law_prepared_entry_is_usable(
    entry: CachePathsView,
    expected: MetadataView,
    executable: Seq<u8>,
    tree: PayloadNode,
)
    requires
        entry_paths::resolved_command(entry.extracted_dir, expected.cmd) is Ok,
    ensures
        cache_verdict(
            entry,
            expected,
            Some(
                MetadataView {
                    executable_sha256: Some(content_digest(executable)),
                    payload_sha256: Some(tree_digest(tree)),
                    ..expected
                },
            ),
            Some(executable),
            tree,
        ) is Some,
{
}

/// An entry that is bound to the digest of its archive is used only if its metadata was recorded
/// for an executable and a payload with the same digests.
pub proof fn law_bound_entries_are_checked(
    entry: CachePathsView,
    expected: MetadataView,
    found: MetadataView,
    executable: Seq<u8>,
    tree: PayloadNode,
    recorded_executable: Seq<u8>,
    recorded_tree: PayloadNode,
)
    requires
        expected.sha256 is Some,
        cache_verdict(entry, expected, Some(found), Some(executable), tree) is Some,
    ensures
        found.executable_sha256 is Some,
        found.payload_sha256 is Some,
        found.executable_sha256 == Some(content_digest(recorded_executable)) ==> digest::sha256(
            recorded_executable,
        ) == digest::sha256(executable),
        found.payload_sha256 == Some(tree_digest(recorded_tree)) ==> digest::sha256(
            payload::payload_bytes(recorded_tree),
        ) == digest::sha256(payload::payload_bytes(tree)),
{
    lemma_hex_determines(digest::sha256(recorded_executable), digest::sha256(executable));
    lemma_hex_determines(
        digest::sha256(payload::payload_bytes(recorded_tree)),
        digest::sha256(payload::payload_bytes(tree)),
    );
}

proof fn lemma_hex_determines(a: Seq<u8>, b: Seq<u8>)
    requires
        a.len() == 32,
        b.len() == 32,
    ensures
        text::ascii_lower(digest::hex_text(a)) == text::ascii_lower(digest::hex_text(b)) ==> a == b,
{
    digest::law_hex_round_trip(a);
    digest::law_hex_round_trip(b);
    digest::law_digest_case(digest::hex_text(a));
    digest::law_digest_case(digest::hex_text(b));
}

/// An executable is looked for exactly if the entry has metadata of the origin that is expected and
/// a command that stays within the payload; it is looked for where that command leads.
pub proof fn law_executables_are_located_by_their_origin(
    entry: CachePathsView,
    expected: MetadataView,
    found: MetadataView,
)
    ensures
        located(entry, expected, None) is None,
        located(entry, expected, Some(found)) is Some <==> found.same_origin(expected)
            && entry_paths::resolved_command(entry.extracted_dir, expected.cmd) is Ok,
        located(entry, expected, Some(found)) is Some ==> located(entry, expected, Some(found))
            == Some(entry_paths::resolved_command(entry.extracted_dir, expected.cmd)->Ok_0),
{
}

/// A recorded digest vouches for content exactly if it is the digest of the content, in whatever
/// case; where none was recorded, nothing vouches for an entry that is bound to a digest.
pub proof fn law_digests_vouch_for_their_content_only(
    recorded: Seq<char>,
    bound: bool,
    actual: Seq<char>,
)
    ensures
        vouches(Some(recorded), bound, actual) <==> text::same_letters(recorded, actual),
        vouches(None, bound, actual) <==> !bound,
{
    text::law_lower_case_forgets_case_only(recorded, actual);
}

/// An entry is usable exactly if its executable was located and is there, and the digests recorded
/// for the executable and for the whole payload vouch for what was read. What is given is that very
/// entry.
pub proof fn law_usable_entries_are_vouched_for(
    entry: CachePathsView,
    expected: MetadataView,
    found: MetadataView,
    executable: Seq<u8>,
    tree: PayloadNode,
)
    ensures
        cache_verdict(entry, expected, None, Some(executable), tree) is None,
        cache_verdict(entry, expected, Some(found), None, tree) is None,
        ({
            let verdict = cache_verdict(entry, expected, Some(found), Some(executable), tree);
            let bound = expected.sha256 is Some;
            &&& verdict is Some <==> located(entry, expected, Some(found)) is Some && vouches(
                found.executable_sha256,
                bound,
                digest::hex_text(digest::sha256(executable)),
            ) && vouches(
                found.payload_sha256,
                bound,
                digest::hex_text(digest::sha256(payload::payload_bytes(tree))),
            )
            &&& verdict is Some ==> {
                &&& Some(verdict->Some_0.executable_path) == located(entry, expected, Some(found))
                &&& verdict->Some_0.extracted_dir == entry.extracted_dir
                &&& verdict->Some_0.cache_dir == entry.cache_dir
            }
        }),
{
}

/// Metadata is completed exactly if there is an executable and the payload did not change; it then
/// vouches for both, and says nothing else than before.
pub proof fn law_completed_metadata_vouches(
    metadata: BinaryCacheMetadata,
    path: &str,
    executable: Option<&[u8]>,
    dir: &str,
    tree: &PayloadNode,
    r: Result<BinaryCacheMetadata, Failure>,
)
    requires
        call_ensures(complete_metadata, (metadata, path, executable, dir, tree), r),
    ensures
        r is Ok <==> executable is Some && payload::first_changed(*tree, Seq::empty()) is None,
        r is Ok ==> {
            let m = r->Ok_0@;
            &&& m.executable_sha256 == Some(
                digest::hex_text(digest::sha256(executable->Some_0@)),
            )
            &&& m.payload_sha256 == Some(
                digest::hex_text(digest::sha256(payload::payload_bytes(*tree))),
            )
            &&& m.agent_id == metadata@.agent_id
            &&& m.agent_version == metadata@.agent_version
            &&& m.platform == metadata@.platform
            &&& m.archive == metadata@.archive
            &&& m.cmd == metadata@.cmd
            &&& m.sha256 == metadata@.sha256
        },
{
}

/// The owner may run an executable afterwards, and nothing else about its mode changes.
pub proof fn law_owners_may_run_executables(mode: u32, r: u32)
    requires
        call_ensures(executable_mode, (mode,), r),
    ensures
        r & 64 == 64,
        r & !64u32 == mode & !64u32,
{
    assert((mode | 0o100u32) & 64 == 64 && (mode | 0o100u32) & !64u32 == mode & !64u32)
        by (bit_vector);
}

/// A check gives the entry exactly if everything in it is vouched for; it fails only where the
/// payload has to be read and changes meanwhile.
pub proof fn law_checks_give_what_is_vouched_for(
    entry: &BinaryCachePaths,
    expected: &BinaryCacheMetadata,
    found: Option<&BinaryCacheMetadata>,
    executable: Option<&[u8]>,
    tree: &PayloadNode,
    r: Result<Option<CachedBinary>, PayloadChanged>,
)
    requires
        call_ensures(validate_cached_binary, (entry, expected, found, executable, tree), r),
    ensures
        found is None || executable is None ==> r is Ok && r->Ok_0 is None,
        r is Err ==> payload::first_changed(*tree, Seq::empty()) is Some && found is Some
            && found->Some_0@.payload_sha256 is Some,
        r is Ok && r->Ok_0 is Some ==> {
            let given = r->Ok_0->Some_0;
            let bound = expected@.sha256 is Some;
            &&& given.cache_dir@ == entry@.cache_dir
            &&& given.extracted_dir@ == entry@.extracted_dir
            &&& found->Some_0@.same_origin(expected@)
            &&& bound ==> found->Some_0@.executable_sha256 is Some && text::same_letters(
                found->Some_0@.executable_sha256->Some_0,
                digest::hex_text(digest::sha256(executable->Some_0@)),
            )
            &&& bound ==> found->Some_0@.payload_sha256 is Some && text::same_letters(
                found->Some_0@.payload_sha256->Some_0,
                digest::hex_text(digest::sha256(payload::payload_bytes(*tree))),
            )
        },
{
    if found is Some && executable is Some {
        let m = found->Some_0@;
        let content = executable->Some_0@;
        law_usable_entries_are_vouched_for(entry@, expected@, m, content, *tree);
        law_executables_are_located_by_their_origin(entry@, expected@, m);
        if m.executable_sha256 is Some {
            law_digests_vouch_for_their_content_only(
                m.executable_sha256->Some_0,
                true,
                digest::hex_text(digest::sha256(content)),
            );
        }
        if m.payload_sha256 is Some {
            law_digests_vouch_for_their_content_only(
                m.payload_sha256->Some_0,
                true,
                digest::hex_text(digest::sha256(payload::payload_bytes(*tree))),
            );
        }
        if r is Ok && r->Ok_0 is Some {
            let given = r->Ok_0->Some_0;
            assert(given@.cache_dir == given.cache_dir@);
            assert(given@.extracted_dir == given.extracted_dir@);
        }
    }
}

} // verus!
