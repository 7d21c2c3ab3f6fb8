//! Binary distributions: downloading, unpacking, checking and publishing them.

use vstd::prelude::*;

pub mod archive;
pub mod download;
pub mod entry_paths;
pub mod install;
pub mod log;
pub mod payload;
pub mod publication;
pub mod recovery;
pub mod validation;

verus! {

/// Hard resource limits on downloads and on unpacking archives.
#[derive(Debug, Clone, Copy, PartialEq, Eq, Structural)]
pub struct ArchiveLimits {
    /// Most bytes of a compressed response that are accepted from the network.
    pub max_download_bytes: u64,
    /// Most bytes that the entries of an archive may expand to.
    pub max_expanded_bytes: u64,
    /// Most entries of an archive, directories and links among them.
    pub max_entries: u64,
    /// Most entries of an archive that are not directories.
    pub max_files: u64,
    /// Longest time for establishing the HTTP connection, in milliseconds.
    pub connect_timeout_millis: u64,
    /// Longest idle time while reading the HTTP response, in milliseconds.
    pub read_timeout_millis: u64,
    /// Longest time for the whole HTTP request, in milliseconds.
    pub total_timeout_millis: u64,
}

impl Default for ArchiveLimits {
    fn default() -> (r: Self)
        ensures
            r == (ArchiveLimits {
                max_download_bytes: 268_435_456,
                max_expanded_bytes: 536_870_912,
                max_entries: 10_000,
                max_files: 5_000,
                connect_timeout_millis: 10_000,
                read_timeout_millis: 30_000,
                total_timeout_millis: 600_000,
            }),
    {
        ArchiveLimits {
            max_download_bytes: 268_435_456,
            max_expanded_bytes: 536_870_912,
            max_entries: 10_000,
            max_files: 5_000,
            connect_timeout_millis: 10_000,
            read_timeout_millis: 30_000,
            total_timeout_millis: 600_000,
        }
    }
}

/// A checked binary distribution in the local cache.
#[derive(Debug, Clone, PartialEq, Eq)]
pub struct CachedBinary {
    /// Path of the executable within the unpacked payload.
    pub executable_path: String,
    /// Directory of the unpacked payload.
    pub extracted_dir: String,
    /// Cache directory that owns the payload.
    pub cache_dir: String,
}

/// A [`CachedBinary`] over sequences of characters.
#[verifier::ext_equal]
pub struct CachedBinaryView {
    pub executable_path: Seq<char>,
    pub extracted_dir: Seq<char>,
    pub cache_dir: Seq<char>,
}

impl View for CachedBinary {
    type V = CachedBinaryView;

    open spec fn view(&self) -> CachedBinaryView {
        CachedBinaryView {
            executable_path: self.executable_path@,
            extracted_dir: self.extracted_dir@,
            cache_dir: self.cache_dir@,
        }
    }
}

/// Entries with the same view agree on everything.
pub proof fn law_binary_views_hold_every_field(a: CachedBinary, b: CachedBinary)
    requires
        a@ == b@,
    ensures
        a.executable_path@ == b.executable_path@,
        a.extracted_dir@ == b.extracted_dir@,
        a.cache_dir@ == b.cache_dir@,
{
}

} // verus!
