//! Unpacking archives within hard limits.

use vstd::prelude::*;
use crate::failure;
use crate::failure::{Failure, FailureView};
use crate::installer::binary::entry_paths;
use crate::installer::binary::entry_paths::{validate_archive_component, validate_archive_path};
use crate::installer::binary::ArchiveLimits;
use crate::paths;
use crate::paths::{file_name_of, join_path};
use crate::text;
use crate::text::{as_text, has_suffix, to_ascii_lower, to_decimal};

verus! {

/// How an archive is unpacked.
#[derive(Debug, Clone, Copy, PartialEq, Eq, Structural)]
pub enum ArchiveFormat {
    Zip,
    TarGz,
    TarBz2,
    /// Not an archive: the file itself is the payload.
    Plain,
}

/// The format that a path's file name tells, whatever its case.
pub open spec fn format_of(archive_path: Seq<char>) -> ArchiveFormat {
    let name = text::ascii_lower(
        match paths::file_name(archive_path) {
            Some(name) => name,
            None => Seq::empty(),
        },
    );
    if ".zip"@.is_suffix_of(name) {
        ArchiveFormat::Zip
    } else if ".tar.gz"@.is_suffix_of(name) || ".tgz"@.is_suffix_of(name) {
        ArchiveFormat::TarGz
    } else if ".tar.bz2"@.is_suffix_of(name) || ".tbz2"@.is_suffix_of(name) {
        ArchiveFormat::TarBz2
    } else {
        ArchiveFormat::Plain
    }
}

/// Tells by the file name how an archive is unpacked.
pub fn archive_format(archive_path: &str) -> (r: ArchiveFormat)
    ensures
        r == format_of(archive_path@),
{
    let name = match file_name_of(archive_path) {
        Some(name) => name,
        None => String::new(),
    };
    let lower = to_ascii_lower(name.as_str());
    let lower = lower.as_str();
    if has_suffix(lower, ".zip") {
        ArchiveFormat::Zip
    } else if has_suffix(lower, ".tar.gz") || has_suffix(lower, ".tgz") {
        ArchiveFormat::TarGz
    } else if has_suffix(lower, ".tar.bz2") || has_suffix(lower, ".tbz2") {
        ArchiveFormat::TarBz2
    } else {
        ArchiveFormat::Plain
    }
}

/// The failure of an extraction that was asked to stop.
pub open spec fn cancelled_failure() -> FailureView {
    failure::failure("extraction cancelled"@)
}

/// The failure of an archive whose sizes do not fit in a number.
pub open spec fn size_overflow() -> FailureView {
    failure::failure("expanded archive size overflow"@)
}

/// The failure of an archive that expands too far.
pub open spec fn size_exceeded() -> FailureView {
    failure::failure("expanded archive size limit exceeded"@)
}

/// The failure of an archive with too many entries.
pub open spec fn entries_exceeded() -> FailureView {
    failure::failure("archive entry limit exceeded"@)
}

/// The failure of an archive with too many files.
pub open spec fn files_exceeded() -> FailureView {
    failure::failure("archive file limit exceeded"@)
}

/// Stops where the extraction was asked to.
pub fn check_extraction_cancelled(cancelled: bool) -> (r: Result<(), Failure>)
    ensures
        match r {
            Ok(()) => !cancelled,
            Err(e) => cancelled && e@ == cancelled_failure(),
        },
{
    if cancelled {
        Err(Failure::new("extraction cancelled".to_owned()))
    } else {
        Ok(())
    }
}

/// Where a payload that is no archive is copied to, if its size is within the limit.
pub open spec fn plain_target(
    archive_path: Seq<char>,
    size: u64,
    destination: Seq<char>,
    limits: ArchiveLimits,
) -> Result<Seq<char>, FailureView> {
    match paths::file_name(archive_path) {
        None => Err(failure::failure("unsupported archive format for "@ + archive_path)),
        Some(name) => if size > limits.max_expanded_bytes {
            Err(size_exceeded())
        } else if !entry_paths::is_safe_component(name) {
            Err(entry_paths::unsafe_component(name))
        } else {
            Ok(paths::join(destination, name))
        },
    }
}

/// Decides where a payload that is no archive is copied to.
pub fn plain_copy_target(
    archive_path: &str,
    size: u64,
    destination: &str,
    limits: &ArchiveLimits,
) -> (r: Result<String, Failure>)
    ensures
        match r {
            Ok(path) => plain_target(archive_path@, size, destination@, *limits) == Ok::<
                Seq<char>,
                FailureView,
            >(path@),
            Err(e) => plain_target(archive_path@, size, destination@, *limits) == Err::<
                Seq<char>,
                FailureView,
            >(e@),
        },
{
    match file_name_of(archive_path) {
        None => Err(
            Failure::new("unsupported archive format for ".to_owned().concat(archive_path)),
        ),
        Some(name) => {
            if size > limits.max_expanded_bytes {
                return Err(Failure::new("expanded archive size limit exceeded".to_owned()));
            }
            validate_archive_component(name.as_str())?;
            Ok(join_path(destination, name.as_str()))
        },
    }
}

/// Counts the bytes of one copy and stops it at a limit.
#[derive(Debug, Clone, Copy, PartialEq, Eq, Structural)]
pub struct CopyMeter {
    /// Bytes let through so far.
    pub copied: u64,
    /// Most bytes that are let through.
    pub max_bytes: u64,
}

impl CopyMeter {
    /// Whether the limit has been kept.
    pub open spec fn within_limit(self) -> bool {
        self.copied <= self.max_bytes
    }

    /// A meter that has seen nothing.
    pub fn new(max_bytes: u64) -> (r: CopyMeter)
        ensures
            r == (CopyMeter { copied: 0, max_bytes }),
            r.within_limit(),
    {
        CopyMeter { copied: 0, max_bytes }
    }

    /// Lets `read` more bytes through, or stops the copy.
    pub fn accept(&mut self, read: u64) -> (r: Result<(), Failure>)
        ensures
            final(self).max_bytes == old(self).max_bytes,
            match r {
                Ok(()) => final(self).copied == old(self).copied + read && final(self).within_limit(),
                Err(e) => final(self).copied == old(self).copied && old(self).copied + read
                    > old(self).max_bytes && e@ == if old(self).copied + read > u64::MAX {
                    size_overflow()
                } else {
                    size_exceeded()
                },
            },
    {
        match self.copied.checked_add(read) {
            None => Err(Failure::new("expanded archive size overflow".to_owned())),
            Some(copied) => {
                if copied > self.max_bytes {
                    Err(Failure::new("expanded archive size limit exceeded".to_owned()))
                } else {
                    self.copied = copied;
                    Ok(())
                }
            },
        }
    }
}

/// What a tar archive says of one entry. A path that is not text is `None`.
pub struct TarEntry {
    pub path: Option<String>,
    /// The path that a link entry points to.
    pub link: Option<Option<String>>,
    pub size: u64,
    pub is_dir: bool,
}

/// The running totals of a tar extraction.
#[derive(Debug, Clone, Copy, PartialEq, Eq, Structural)]
pub struct TarExtraction {
    pub limits: ArchiveLimits,
    pub entries: u64,
    pub expanded: u64,
    pub files: u64,
}

impl TarExtraction {
    /// Whether all limits have been kept.
    pub open spec fn within_limits(self) -> bool {
        &&& self.entries <= self.limits.max_entries
        &&& self.expanded <= self.limits.max_expanded_bytes
        &&& self.files <= self.limits.max_files
    }

    /// The totals with one more entry.
    pub open spec fn counting(self, entry: TarEntry) -> TarExtraction {
        TarExtraction {
            limits: self.limits,
            entries: (self.entries + 1) as u64,
            expanded: (self.expanded + entry.size) as u64,
            files: (self.files + if entry.is_dir {
                0int
            } else {
                1int
            }) as u64,
        }
    }

    /// Whether the next entry may be unpacked, and why not.
    pub open spec fn verdict(self, cancelled: bool, entry: TarEntry) -> Result<(), FailureView> {
        if cancelled {
            Err(cancelled_failure())
        } else if entry_paths::archive_path_verdict(text::opt_text(entry.path)) is Err {
            entry_paths::archive_path_verdict(text::opt_text(entry.path))
        } else if entry.link matches Some(link) && entry_paths::archive_path_verdict(
            text::opt_text(link),
        ) is Err {
            entry_paths::archive_path_verdict(text::opt_text(entry.link->Some_0))
        } else if self.entries + 1 > self.limits.max_entries {
            Err(entries_exceeded())
        } else if self.expanded + entry.size > u64::MAX {
            Err(size_overflow())
        } else if self.expanded + entry.size > self.limits.max_expanded_bytes {
            Err(size_exceeded())
        } else if !entry.is_dir && self.files + 1 > self.limits.max_files {
            Err(files_exceeded())
        } else {
            Ok(())
        }
    }

    /// An extraction that has unpacked nothing.
    pub fn new(limits: ArchiveLimits) -> (r: TarExtraction)
        ensures
            r == (TarExtraction { limits, entries: 0, expanded: 0, files: 0 }),
            r.within_limits(),
    {
        TarExtraction { limits, entries: 0, expanded: 0, files: 0 }
    }

    /// Admits the next entry of the archive, or refuses the archive.
    pub fn next_entry(&mut self, cancelled: bool, entry: &TarEntry) -> (r: Result<(), Failure>)
        requires
            old(self).within_limits(),
        ensures
            final(self).within_limits(),
            match r {
                Ok(()) => old(self).verdict(cancelled, *entry) == Ok::<(), FailureView>(())
                    && *final(self) == old(self).counting(*entry),
                Err(e) => old(self).verdict(cancelled, *entry) == Err::<(), FailureView>(e@)
                    && *final(self) == *old(self),
            },
    {
        check_extraction_cancelled(cancelled)?;
        validate_archive_path(as_text(&entry.path))?;
        if let Some(link) = &entry.link {
            validate_archive_path(as_text(link))?;
        }
        if self.entries >= self.limits.max_entries {
            return Err(Failure::new("archive entry limit exceeded".to_owned()));
        }
        let expanded: u64 = match self.expanded.checked_add(entry.size) {
            None => {
                return Err(Failure::new("expanded archive size overflow".to_owned()));
            },
            Some(expanded) => expanded,
        };
        if expanded > self.limits.max_expanded_bytes {
            return Err(Failure::new("expanded archive size limit exceeded".to_owned()));
        }
        if !entry.is_dir {
            if self.files >= self.limits.max_files {
                return Err(Failure::new("archive file limit exceeded".to_owned()));
            }
            self.files = self.files + 1;
        }
        self.entries = self.entries + 1;
        self.expanded = expanded;
        Ok(())
    }
}

/// What a ZIP archive says of one entry.
pub struct ZipEntry {
    /// The entry's path, unless it leads out of the archive.
    pub enclosed_name: Option<String>,
    pub size: u64,
    pub is_dir: bool,
    pub is_symlink: bool,
    pub unix_mode: Option<u32>,
}

/// A permission that is set once everything has been unpacked.
#[derive(Debug, Clone)]
pub struct ModeChange {
    pub path: String,
    pub mode: u32,
}

impl DeepView for ModeChange {
    type V = (Seq<char>, u32);

    open spec fn deep_view(&self) -> (Seq<char>, u32) {
        (self.path@, self.mode)
    }
}

/// What is to be done for one entry of a ZIP archive.
#[derive(Debug, Clone)]
pub enum ZipStep {
    /// Create the directory.
    MakeDirectory { path: String },
    /// Read the link's target, of at most so many bytes, and create the link.
    MakeLink { path: String, max_bytes: u64 },
    /// Write the file, of at most so many bytes.
    WriteFile { path: String, max_bytes: u64 },
}

/// A [`ZipStep`] with its path as a sequence of characters.
pub enum ZipStepView {
    MakeDirectory { path: Seq<char> },
    MakeLink { path: Seq<char>, max_bytes: u64 },
    WriteFile { path: Seq<char>, max_bytes: u64 },
}

impl View for ZipStep {
    type V = ZipStepView;

    open spec fn view(&self) -> ZipStepView {
        match self {
            ZipStep::MakeDirectory { path } => ZipStepView::MakeDirectory { path: path@ },
            ZipStep::MakeLink { path, max_bytes } => ZipStepView::MakeLink {
                path: path@,
                max_bytes: *max_bytes,
            },
            ZipStep::WriteFile { path, max_bytes } => ZipStepView::WriteFile {
                path: path@,
                max_bytes: *max_bytes,
            },
        }
    }
}

/// The running totals of a ZIP extraction, and the permissions to set at its end.
pub struct ZipExtraction {
    pub archive_path: String,
    pub destination: String,
    pub limits: ArchiveLimits,
    pub expanded: u64,
    pub files: u64,
    pub modes: Vec<ModeChange>,
}

impl ZipExtraction {
    /// Whether all limits have been kept.
    pub open spec fn within_limits(self) -> bool {
        &&& self.expanded <= self.limits.max_expanded_bytes
        &&& self.files <= self.limits.max_files
    }

    /// What is to be done for the next entry, or why the archive is refused.
    pub open spec fn verdict(self, cancelled: bool, index: u64, entry: ZipEntry) -> Result<
        ZipStepView,
        FailureView,
    > {
        if cancelled {
            Err(cancelled_failure())
        } else if entry.enclosed_name is None {
            Err(
                failure::failure(
                    "unsafe path in ZIP archive "@ + self.archive_path@ + ": entry "@
                        + text::decimal(index as nat),
                ),
            )
        } else {
            let name = entry.enclosed_name->Some_0@;
            let path = paths::join(self.destination@, name);
            let max_bytes = (self.limits.max_expanded_bytes - self.expanded) as u64;
            match entry_paths::archive_path_verdict(Some(name)) {
                Err(e) => Err(e),
                Ok(()) => if self.expanded + entry.size > u64::MAX {
                    Err(size_overflow())
                } else if self.expanded + entry.size > self.limits.max_expanded_bytes {
                    Err(size_exceeded())
                } else if entry.is_dir {
                    Ok(ZipStepView::MakeDirectory { path })
                } else if self.files + 1 > self.limits.max_files {
                    Err(files_exceeded())
                } else if entry.is_symlink {
                    Ok(ZipStepView::MakeLink { path, max_bytes })
                } else {
                    Ok(ZipStepView::WriteFile { path, max_bytes })
                },
            }
        }
    }

    /// Starts unpacking an archive with `entries` entries, unless those are too many.
    pub fn begin(
        archive_path: &str,
        destination: &str,
        entries: u64,
        limits: ArchiveLimits,
    ) -> (r: Result<ZipExtraction, Failure>)
        ensures
            match r {
                Ok(x) => {
                    &&& entries <= limits.max_entries
                    &&& x.archive_path@ == archive_path@
                    &&& x.destination@ == destination@
                    &&& x.limits == limits
                    &&& x.expanded == 0
                    &&& x.files == 0
                    &&& x.modes@.len() == 0
                    &&& x.within_limits()
                },
                Err(e) => entries > limits.max_entries && e@ == entries_exceeded(),
            },
    {
        if entries > limits.max_entries {
            return Err(Failure::new("archive entry limit exceeded".to_owned()));
        }
        Ok(
            ZipExtraction {
                archive_path: archive_path.to_owned(),
                destination: destination.to_owned(),
                limits,
                expanded: 0,
                files: 0,
                modes: Vec::new(),
            },
        )
    }

    /// Admits the entry at `index` and says what is to be done for it, or refuses the archive.
    ///
    /// The permission of a directory is noted at once; that of a file when it has been written.
    pub fn next_entry(&mut self, cancelled: bool, index: u64, entry: &ZipEntry) -> (r: Result<
        ZipStep,
        Failure,
    >)
        requires
            old(self).within_limits(),
        ensures
            final(self).within_limits(),
            final(self).archive_path@ == old(self).archive_path@,
            final(self).destination@ == old(self).destination@,
            final(self).limits == old(self).limits,
            match r {
                Ok(step) => {
                    &&& old(self).verdict(cancelled, index, *entry) == Ok::<
                        ZipStepView,
                        FailureView,
                    >(step@)
                    &&& final(self).expanded == old(self).expanded + entry.size
                    &&& final(self).files == old(self).files + if entry.is_dir {
                        0int
                    } else {
                        1int
                    }
                    &&& final(self).modes.deep_view() == match step@ {
                        ZipStepView::MakeDirectory { path } => noted(
                            old(self).modes.deep_view(),
                            path,
                            entry.unix_mode,
                        ),
                        _ => old(self).modes.deep_view(),
                    }
                },
                Err(e) => {
                    &&& old(self).verdict(cancelled, index, *entry) == Err::<
                        ZipStepView,
                        FailureView,
                    >(e@)
                    &&& final(self).expanded == old(self).expanded
                    &&& final(self).files == old(self).files
                    &&& final(self).modes.deep_view() == old(self).modes.deep_view()
                },
            },
    {
        check_extraction_cancelled(cancelled)?;
        let name = match &entry.enclosed_name {
            None => {
                return Err(
                    Failure::new(
                        "unsafe path in ZIP archive ".to_owned().concat(
                            self.archive_path.as_str(),
                        ).concat(": entry ").concat(to_decimal(index as u128).as_str()),
                    ),
                );
            },
            Some(name) => name,
        };
        validate_archive_path(Some(name.as_str()))?;
        let path = join_path(self.destination.as_str(), name.as_str());
        let max_bytes: u64 = self.limits.max_expanded_bytes - self.expanded;
        let expanded: u64 = match self.expanded.checked_add(entry.size) {
            None => {
                return Err(Failure::new("expanded archive size overflow".to_owned()));
            },
            Some(expanded) => expanded,
        };
        if expanded > self.limits.max_expanded_bytes {
            return Err(Failure::new("expanded archive size limit exceeded".to_owned()));
        }
        if entry.is_dir {
            self.expanded = expanded;
            self.note_mode(path.as_str(), entry.unix_mode);
            return Ok(ZipStep::MakeDirectory { path });
        }
        if self.files >= self.limits.max_files {
            return Err(Failure::new("archive file limit exceeded".to_owned()));
        }
        self.expanded = expanded;
        self.files = self.files + 1;
        if entry.is_symlink {
            Ok(ZipStep::MakeLink { path, max_bytes })
        } else {
            Ok(ZipStep::WriteFile { path, max_bytes })
        }
    }

    fn note_mode(&mut self, path: &str, mode: Option<u32>)
        ensures
            final(self).modes.deep_view() == noted(old(self).modes.deep_view(), path@, mode),
            final(self).archive_path == old(self).archive_path,
            final(self).destination == old(self).destination,
            final(self).limits == old(self).limits,
            final(self).expanded == old(self).expanded,
            final(self).files == old(self).files,
    {
        let ghost before = self.modes.deep_view();
        if let Some(mode) = mode {
            self.modes.push(ModeChange { path: path.to_owned(), mode });
            assert(self.modes.deep_view() == before.push((path@, mode)));
        }
    }

    /// Takes note of a written file: its length must be the declared one.
    pub fn file_written(
        &mut self,
        path: &str,
        declared_size: u64,
        copied: u64,
        mode: Option<u32>,
    ) -> (r: Result<(), Failure>)
        requires
            old(self).within_limits(),
        ensures
            final(self).within_limits(),
            final(self).archive_path == old(self).archive_path,
            final(self).destination == old(self).destination,
            final(self).limits == old(self).limits,
            final(self).expanded == old(self).expanded,
            final(self).files == old(self).files,
            match r {
                Ok(()) => copied == declared_size && final(self).modes.deep_view() == noted(
                    old(self).modes.deep_view(),
                    path@,
                    mode,
                ),
                Err(e) => copied != declared_size && final(self).modes.deep_view() == old(self).modes.deep_view() && e@ == size_mismatch(
                    "ZIP entry size mismatch for "@,
                    path@,
                    declared_size,
                    copied,
                ),
            },
    {
        if copied != declared_size {
            return Err(
                mismatch_failure("ZIP entry size mismatch for ", path, declared_size, copied),
            );
        }
        self.note_mode(path, mode);
        Ok(())
    }

    /// The permissions to set, those of the entries that came last first.
    pub fn permission_pass(self) -> (r: Vec<ModeChange>)
        ensures
            r.deep_view() == self.modes.deep_view().reverse(),
    {
        let ghost all = self.modes.deep_view();
        let mut modes = self.modes;
        let mut r: Vec<ModeChange> = Vec::new();
        while modes.len() > 0
            invariant
                modes.deep_view() + r.deep_view().reverse() == all,
            decreases modes.len(),
        {
            let ghost front = modes.deep_view();
            let ghost back = r.deep_view();
            if let Some(change) = modes.pop() {
                r.push(change);
                assert(modes.deep_view() == front.drop_last());
                assert(r.deep_view() == back.push(front.last()));
                assert(back.push(front.last()).reverse() == seq![front.last()] + back.reverse());
                assert(front.drop_last() + (seq![front.last()] + back.reverse()) == front
                    + back.reverse());
            }
        }
        assert(modes.deep_view() + r.deep_view().reverse() == r.deep_view().reverse());
        assert(r.deep_view() == r.deep_view().reverse().reverse());
        r
    }
}

/// `modes` with the permission of `path`, if it has one, at the end.
pub open spec fn noted(
    modes: Seq<(Seq<char>, u32)>,
    path: Seq<char>,
    mode: Option<u32>,
) -> Seq<(Seq<char>, u32)> {
    match mode {
        Some(m) => modes.push((path, m)),
        None => modes,
    }
}

/// The failure of an entry that is not as long as it was declared to be.
pub open spec fn size_mismatch(
    what: Seq<char>,
    path: Seq<char>,
    declared: u64,
    copied: u64,
) -> FailureView {
    failure::failure(
        what + path + ": declared "@ + text::decimal(declared as nat) + ", extracted "@
            + text::decimal(copied as nat),
    )
}

fn mismatch_failure(what: &str, path: &str, declared: u64, copied: u64) -> (r: Failure)
    ensures
        r@ == size_mismatch(what@, path@, declared, copied),
{
    Failure::new(
        what.to_owned().concat(path).concat(": declared ").concat(
            to_decimal(declared as u128).as_str(),
        ).concat(", extracted ").concat(to_decimal(copied as u128).as_str()),
    )
}

/// What `String::from_utf8` says of bytes that are not UTF-8.
pub uninterp spec fn utf8_error_text(bytes: Seq<u8>) -> Seq<char>;

/// Calls `String::from_utf8` of std. It is taken to give the text that the bytes encode exactly
/// if they are valid UTF-8; the words of its error are left open, and depend on the bytes alone.
#[verifier::external_body]
fn text_from_utf8(bytes: Vec<u8>) -> (r: Result<String, String>)
    ensures
        match r {
            Ok(s) => vstd::utf8::valid_utf8(bytes@) && s@ == vstd::utf8::decode_utf8(bytes@),
            Err(m) => !vstd::utf8::valid_utf8(bytes@) && m@ == utf8_error_text(bytes@),
        },
{
    String::from_utf8(bytes).map_err(|error| error.to_string())
}

/// The target of a link in a ZIP archive, given the body of its entry.
pub open spec fn link_target(path: Seq<char>, declared_size: u64, body: Seq<u8>) -> Result<
    Seq<char>,
    FailureView,
> {
    if body.len() != declared_size {
        Err(
            size_mismatch(
                "ZIP symlink size mismatch for "@,
                path,
                declared_size,
                body.len() as u64,
            ),
        )
    } else if !vstd::utf8::valid_utf8(body) {
        Err(
            failure::failure(utf8_error_text(body)).within(
                "symlink target for "@ + path + " is not valid UTF-8"@,
            ),
        )
    } else {
        let target = vstd::utf8::decode_utf8(body);
        match entry_paths::archive_path_verdict(Some(target)) {
            Err(e) => Err(e.within("unsafe symlink target for "@ + path)),
            Ok(()) => Ok(target),
        }
    }
}

/// Reads the target of a link in a ZIP archive from the body of its entry.
pub fn zip_link_target(path: &str, declared_size: u64, body: Vec<u8>) -> (r: Result<
    String,
    Failure,
>)
    ensures
        match r {
            Ok(target) => link_target(path@, declared_size, body@) == Ok::<Seq<char>, FailureView>(
                target@,
            ),
            Err(e) => link_target(path@, declared_size, body@) == Err::<Seq<char>, FailureView>(e@),
        },
{
    let copied: u64 = body.len() as u64;
    if copied != declared_size {
        return Err(mismatch_failure("ZIP symlink size mismatch for ", path, declared_size, copied));
    }
    match text_from_utf8(body) {
        Err(words) => Err(
            Failure::new(words).within(
                "symlink target for ".to_owned().concat(path).concat(" is not valid UTF-8"),
            ),
        ),
        Ok(target) => match validate_archive_path(Some(target.as_str())) {
            Err(e) => Err(e.within("unsafe symlink target for ".to_owned().concat(path))),
            Ok(()) => Ok(target),
        },
    }
}

/// How many bytes the entries of a tar archive unpack to.
pub open spec fn tar_bytes(entries: Seq<TarEntry>) -> nat
    decreases entries.len(),
{
    if entries.len() == 0 {
        0
    } else {
        tar_bytes(entries.drop_last()) + entries.last().size as nat
    }
}

/// How many of the entries of a tar archive are no directories.
pub open spec fn tar_files(entries: Seq<TarEntry>) -> nat
    decreases entries.len(),
{
    if entries.len() == 0 {
        0
    } else {
        tar_files(entries.drop_last()) + if entries.last().is_dir {
            0nat
        } else {
            1nat
        }
    }
}

/// The extraction once all `entries` were admitted one after the other, unless one was refused.
pub open spec fn tar_admitted(limits: ArchiveLimits, entries: Seq<TarEntry>) -> Option<
    TarExtraction,
>
    decreases entries.len(),
{
    if entries.len() == 0 {
        Some(TarExtraction { limits, entries: 0, expanded: 0, files: 0 })
    } else {
        match tar_admitted(limits, entries.drop_last()) {
            Some(x) => if x.verdict(false, entries.last()) is Ok {
                Some(x.counting(entries.last()))
            } else {
                None
            },
            None => None,
        }
    }
}

/// A tar archive that was admitted entry by entry is within every limit as a whole, and no path
/// or link in it leads out of the directory that it is unpacked into.
pub proof fn law_admitted_tar_is_within_limits(
    limits: ArchiveLimits,
    entries: Seq<TarEntry>,
    destination: Seq<char>,
)
    requires
        tar_admitted(limits, entries) is Some,
    ensures
        entries.len() <= limits.max_entries,
        tar_bytes(entries) <= limits.max_expanded_bytes,
        tar_files(entries) <= limits.max_files,
        forall|i: int|
            0 <= i < entries.len() ==> {
                &&& (#[trigger] entries[i]).path matches Some(path) && entry_paths::lies_within(
                    destination,
                    paths::join(destination, path@),
                )
                &&& entries[i].link matches Some(link) ==> link is Some
                    && entry_paths::lies_within(destination, paths::join(destination, link->Some_0@))
            },
    decreases entries.len(),
{
    lemma_tar_totals(limits, entries);
    if entries.len() > 0 {
        let front = entries.drop_last();
        let last = entries.last();
        law_admitted_tar_is_within_limits(limits, front, destination);
        entry_paths::law_archive_paths_stay_within(destination, last.path->Some_0@);
        if last.link is Some {
            entry_paths::law_archive_paths_stay_within(
                destination,
                last.link->Some_0->Some_0@,
            );
        }
        assert forall|i: int| 0 <= i < entries.len() implies {
            &&& (#[trigger] entries[i]).path matches Some(path) && entry_paths::lies_within(
                destination,
                paths::join(destination, path@),
            )
            &&& entries[i].link matches Some(link) ==> link is Some
                && entry_paths::lies_within(destination, paths::join(destination, link->Some_0@))
        } by {
            if i < front.len() {
                assert(front[i] == entries[i]);
            } else {
                assert(entries[i] == last);
            }
        }
    }
}

proof fn lemma_tar_totals(limits: ArchiveLimits, entries: Seq<TarEntry>)
    requires
        tar_admitted(limits, entries) is Some,
    ensures
        ({
            let x = tar_admitted(limits, entries)->Some_0;
            &&& x.limits == limits
            &&& x.within_limits()
            &&& x.entries == entries.len()
            &&& x.expanded == tar_bytes(entries)
            &&& x.files == tar_files(entries)
        }),
    decreases entries.len(),
{
    if entries.len() > 0 {
        lemma_tar_totals(limits, entries.drop_last());
    }
}

/// How many bytes the entries of a ZIP archive unpack to.
pub open spec fn zip_bytes(entries: Seq<ZipEntry>) -> nat
    decreases entries.len(),
{
    if entries.len() == 0 {
        0
    } else {
        zip_bytes(entries.drop_last()) + entries.last().size as nat
    }
}

/// How many of the entries of a ZIP archive are no directories.
pub open spec fn zip_files(entries: Seq<ZipEntry>) -> nat
    decreases entries.len(),
{
    if entries.len() == 0 {
        0
    } else {
        zip_files(entries.drop_last()) + if entries.last().is_dir {
            0nat
        } else {
            1nat
        }
    }
}

/// Whether the extraction went from `before` to `after` by admitting the entry at `index`.
pub open spec fn zip_admits(
    before: ZipExtraction,
    index: u64,
    entry: ZipEntry,
    after: ZipExtraction,
) -> bool {
    &&& before.verdict(false, index, entry) is Ok
    &&& after.destination@ == before.destination@
    &&& after.limits == before.limits
    &&& after.expanded == before.expanded + entry.size
    &&& after.files == before.files + if entry.is_dir {
        0int
    } else {
        1int
    }
}

/// Whether `run` is an extraction from its beginning on, by admitting all `entries` in turn.
pub open spec fn is_zip_run(run: Seq<ZipExtraction>, entries: Seq<ZipEntry>) -> bool {
    &&& run.len() == entries.len() + 1
    &&& entries.len() <= run[0].limits.max_entries
    &&& run[0].expanded == 0
    &&& run[0].files == 0
    &&& forall|i: int|
        0 <= i < entries.len() ==> #[trigger] zip_admits(
            run[i],
            i as u64,
            entries[i],
            run[i + 1],
        )
}

/// A ZIP archive that was admitted entry by entry is within every limit as a whole, and no path
/// in it leads out of the directory that it is unpacked into.
pub proof fn law_admitted_zip_is_within_limits(
    run: Seq<ZipExtraction>,
    entries: Seq<ZipEntry>,
)
    requires
        is_zip_run(run, entries),
    ensures
        entries.len() <= run[0].limits.max_entries,
        zip_bytes(entries) <= run[0].limits.max_expanded_bytes,
        zip_files(entries) <= run[0].limits.max_files,
        forall|i: int|
            0 <= i < entries.len() ==> {
                &&& (#[trigger] entries[i]).enclosed_name matches Some(name)
                    && entry_paths::lies_within(
                    run[0].destination@,
                    paths::join(run[0].destination@, name@),
                )
            },
{
    lemma_zip_totals(run, entries);
    assert forall|i: int| 0 <= i < entries.len() implies {
        &&& (#[trigger] entries[i]).enclosed_name matches Some(name) && entry_paths::lies_within(
            run[0].destination@,
            paths::join(run[0].destination@, name@),
        )
    } by {
        assert(zip_admits(run[i], i as u64, entries[i], run[i + 1]));
        entry_paths::law_archive_paths_stay_within(
            run[0].destination@,
            entries[i].enclosed_name->Some_0@,
        );
    }
}

proof fn lemma_zip_totals(run: Seq<ZipExtraction>, entries: Seq<ZipEntry>)
    requires
        is_zip_run(run, entries),
    ensures
        run.last().limits == run[0].limits,
        run.last().expanded == zip_bytes(entries),
        run.last().files == zip_files(entries),
        run.last().within_limits(),
    decreases entries.len(),
{
    if entries.len() > 0 {
        let n = entries.len() - 1;
        let front = entries.drop_last();
        assert forall|i: int| 0 <= i < front.len() implies #[trigger] zip_admits(
            run.drop_last()[i],
            i as u64,
            front[i],
            run.drop_last()[i + 1],
        ) by {
            assert(zip_admits(run[i], i as u64, entries[i], run[i + 1]));
        }
        lemma_zip_totals(run.drop_last(), front);
        assert(run.drop_last().last() == run[n]);
        assert(zip_admits(run[n], n as u64, entries[n], run[n + 1]));
    }
}

/// Whether a text ends with `word`, in whatever case.
pub open spec fn ends_with_letters(s: Seq<char>, word: Seq<char>) -> bool {
    s.len() >= word.len() && text::same_letters(s.skip(s.len() - word.len()), word)
}

proof fn lemma_lower_suffix(name: Seq<char>, word: Seq<char>)
    requires
        forall|i: int| 0 <= i < word.len() ==> !(65 <= (#[trigger] word[i]) as int <= 90),
    ensures
        word.is_suffix_of(text::ascii_lower(name)) <==> ends_with_letters(name, word),
{
    let lower = text::ascii_lower(name);
    text::law_lower_case_changes_capitals_only(name);
    text::law_lower_case_changes_capitals_only(word);
    assert(text::ascii_lower(word) =~= word);
    if name.len() >= word.len() {
        let k = name.len() - word.len();
        let tail = name.skip(k);
        text::law_lower_case_changes_capitals_only(tail);
        assert(text::ascii_lower(tail) =~= lower.skip(k));
        text::law_lower_case_forgets_case_only(tail, word);
        assert(word.is_suffix_of(lower) <==> lower.skip(k) == word) by {
            assert(lower.subrange(k, lower.len() as int) =~= lower.skip(k));
        }
    }
}

/// The format of an archive is told by how its file name ends, in whatever case, and by nothing
/// else: neither by what stands before that ending nor by the directory it lies in.
pub proof fn law_endings_tell_the_format(dir: Seq<char>, name: Seq<char>)
    requires
        !name.contains('/'),
        name.len() > 0,
        name != seq!['.'],
        name != seq!['.', '.'],
    ensures
        format_of(dir.push('/') + name) == format_of(name),
        format_of(name) == ArchiveFormat::Zip <==> ends_with_letters(name, ".zip"@),
        format_of(name) == ArchiveFormat::TarGz <==> ends_with_letters(name, ".tar.gz"@)
            || ends_with_letters(name, ".tgz"@),
        format_of(name) == ArchiveFormat::TarBz2 <==> ends_with_letters(name, ".tar.bz2"@)
            || ends_with_letters(name, ".tbz2"@),
        format_of(name) == ArchiveFormat::Plain <==> !ends_with_letters(name, ".zip"@)
            && !ends_with_letters(name, ".tar.gz"@) && !ends_with_letters(name, ".tgz"@)
            && !ends_with_letters(name, ".tar.bz2"@) && !ends_with_letters(name, ".tbz2"@),
{
    reveal_strlit(".zip");
    reveal_strlit(".tar.gz");
    reveal_strlit(".tgz");
    reveal_strlit(".tar.bz2");
    reveal_strlit(".tbz2");
    paths::law_file_name_is_behind_the_last_slash(dir, name, Seq::empty());
    lemma_lower_suffix(name, ".zip"@);
    lemma_lower_suffix(name, ".tar.gz"@);
    lemma_lower_suffix(name, ".tgz"@);
    lemma_lower_suffix(name, ".tar.bz2"@);
    lemma_lower_suffix(name, ".tbz2"@);
    lemma_last_letter(name, ".zip"@);
    lemma_last_letter(name, ".tar.gz"@);
    lemma_last_letter(name, ".tgz"@);
    lemma_last_letter(name, ".tar.bz2"@);
    lemma_last_letter(name, ".tbz2"@);
}

proof fn lemma_last_letter(s: Seq<char>, word: Seq<char>)
    requires
        word.len() > 0,
    ensures
        ends_with_letters(s, word) ==> text::same_letters(seq![s.last()], seq![word.last()]),
{
    if ends_with_letters(s, word) {
        let tail = s.skip(s.len() - word.len());
        assert(tail[word.len() - 1] == s.last());
        assert(word[word.len() - 1] == word.last());
    }
}

proof fn lemma_ending(stem: Seq<char>, word: Seq<char>)
    requires
        word.len() > 1,
        !stem.contains('/'),
        !word.contains('/'),
        word != seq!['.', '.'],
    ensures
        ends_with_letters(stem + word, word),
        !(stem + word).contains('/'),
        (stem + word).len() > 1,
{
    let all = stem + word;
    assert(all.skip(all.len() - word.len()) =~= word);
    if all.contains('/') {
        let i = choose|i: int| 0 <= i < all.len() && all[i] == '/';
        if i < stem.len() {
            assert(stem[i] == '/');
        } else {
            assert(word[i - stem.len()] == '/');
        }
    }
}

/// Whatever stands before its ending, dots and versions among it, an archive is of the format that
/// its ending names.
pub proof fn law_any_stem_may_stand_before_the_ending(dir: Seq<char>, stem: Seq<char>)
    requires
        !stem.contains('/'),
    ensures
        format_of(dir.push('/') + (stem + ".zip"@)) == ArchiveFormat::Zip,
        format_of(dir.push('/') + (stem + ".tar.gz"@)) == ArchiveFormat::TarGz,
        format_of(dir.push('/') + (stem + ".tgz"@)) == ArchiveFormat::TarGz,
        format_of(dir.push('/') + (stem + ".tar.bz2"@)) == ArchiveFormat::TarBz2,
        format_of(dir.push('/') + (stem + ".tbz2"@)) == ArchiveFormat::TarBz2,
{
    reveal_strlit(".zip");
    reveal_strlit(".tar.gz");
    reveal_strlit(".tgz");
    reveal_strlit(".tar.bz2");
    reveal_strlit(".tbz2");
    lemma_ending(stem, ".zip"@);
    lemma_ending(stem, ".tar.gz"@);
    lemma_ending(stem, ".tgz"@);
    lemma_ending(stem, ".tar.bz2"@);
    lemma_ending(stem, ".tbz2"@);
    assert((stem + ".zip"@).len() > 2 && (stem + ".tar.gz"@).len() > 2 && (stem
        + ".tgz"@).len() > 2 && (stem + ".tar.bz2"@).len() > 2 && (stem + ".tbz2"@).len() > 2);
    law_endings_tell_the_format(dir, stem + ".zip"@);
    law_endings_tell_the_format(dir, stem + ".tar.gz"@);
    law_endings_tell_the_format(dir, stem + ".tgz"@);
    law_endings_tell_the_format(dir, stem + ".tar.bz2"@);
    law_endings_tell_the_format(dir, stem + ".tbz2"@);
}

/// A file that is no archive is copied under its own name, exactly if it is no larger than a payload
/// may be and its name is a single safe one.
pub proof fn law_plain_files_keep_their_name(
    dir: Seq<char>,
    name: Seq<char>,
    size: u64,
    destination: Seq<char>,
    limits: ArchiveLimits,
)
    requires
        !name.contains('/'),
        name.len() > 0,
        name != seq!['.'],
        name != seq!['.', '.'],
    ensures
        ({
            let copied = plain_target(dir.push('/') + name, size, destination, limits);
            &&& copied is Ok <==> size <= limits.max_expanded_bytes && !name.contains('\\')
                && !name.contains('\0')
            &&& copied is Ok ==> paths::components(copied->Ok_0) == paths::components(destination)
                + seq![name]
        }),
{
    paths::law_file_name_is_behind_the_last_slash(dir, name, Seq::empty());
    entry_paths::law_safe_components_are_single_names(name);
    assert(name.contains(name[0]));
    paths::law_single_names_are_components(name);
    paths::law_join_puts_components_behind(destination, name);
}

/// An entry of a tar archive is admitted exactly if its paths are safe and it fits into what is left
/// of the limits; it then counts as one entry, with its size, and as a file unless it is a directory.
pub proof fn law_tar_entries_are_admitted_while_they_fit(x: TarExtraction, entry: TarEntry)
    requires
        x.within_limits(),
    ensures
        x.verdict(true, entry) is Err,
        x.verdict(false, entry) is Ok <==> {
            &&& entry.path is Some
            &&& entry_paths::archive_path_verdict(Some(entry.path->Some_0@)) is Ok
            &&& entry.link is Some ==> entry.link->Some_0 is Some
                && entry_paths::archive_path_verdict(Some(entry.link->Some_0->Some_0@)) is Ok
            &&& x.entries < x.limits.max_entries
            &&& x.expanded + entry.size <= x.limits.max_expanded_bytes
            &&& entry.is_dir || x.files < x.limits.max_files
        },
        x.verdict(false, entry) is Ok ==> {
            let after = x.counting(entry);
            &&& after.limits == x.limits
            &&& after.entries == x.entries + 1
            &&& after.expanded == x.expanded + entry.size
            &&& entry.is_dir ==> after.files == x.files
            &&& !entry.is_dir ==> after.files == x.files + 1
        },
{
    entry_paths::law_archive_paths_are_refused_for_a_reason(Seq::empty());
}

/// An entry of a ZIP archive is admitted exactly if it has a safe path and fits into what is left of
/// the limits. A directory is made, a link is linked and a file is written, each at its own path
/// below the destination, and nothing may grow beyond what is left.
pub proof fn law_zip_entries_are_admitted_while_they_fit(
    x: ZipExtraction,
    index: u64,
    entry: ZipEntry,
)
    requires
        x.within_limits(),
    ensures
        x.verdict(true, index, entry) is Err,
        x.verdict(false, index, entry) is Ok <==> {
            &&& entry.enclosed_name is Some
            &&& entry_paths::archive_path_verdict(Some(entry.enclosed_name->Some_0@)) is Ok
            &&& x.expanded + entry.size <= x.limits.max_expanded_bytes
            &&& entry.is_dir || x.files < x.limits.max_files
        },
        x.verdict(false, index, entry) is Ok ==> {
            let place = paths::join(x.destination@, entry.enclosed_name->Some_0@);
            let left = x.limits.max_expanded_bytes - x.expanded;
            match x.verdict(false, index, entry)->Ok_0 {
                ZipStepView::MakeDirectory { path } => entry.is_dir && path == place,
                ZipStepView::MakeLink { path, max_bytes } => !entry.is_dir && entry.is_symlink
                    && path == place && max_bytes == left,
                ZipStepView::WriteFile { path, max_bytes } => !entry.is_dir && !entry.is_symlink
                    && path == place && max_bytes == left,
            }
        },
{
}

/// Steps with the same view do the same.
pub proof fn law_zip_step_views_hold_every_field(a: ZipStep, b: ZipStep)
    requires
        a@ == b@,
    ensures
        match (a, b) {
            (ZipStep::MakeDirectory { path: p }, ZipStep::MakeDirectory { path: q }) => p@ == q@,
            (
                ZipStep::MakeLink { path: p, max_bytes: m },
                ZipStep::MakeLink { path: q, max_bytes: n },
            ) => p@ == q@ && m == n,
            (
                ZipStep::WriteFile { path: p, max_bytes: m },
                ZipStep::WriteFile { path: q, max_bytes: n },
            ) => p@ == q@ && m == n,
            _ => false,
        },
{
}

/// A mode that an entry has is noted with its path, behind those before it; one without a mode
/// leaves the notes alone.
pub proof fn law_modes_are_noted_in_turn(
    modes: Seq<(Seq<char>, u32)>,
    path: Seq<char>,
    mode: u32,
)
    ensures
        noted(modes, path, None) == modes,
        noted(modes, path, Some(mode)).len() == modes.len() + 1,
        noted(modes, path, Some(mode)).last() == (path, mode),
        noted(modes, path, Some(mode)).drop_last() == modes,
{
    assert(noted(modes, path, Some(mode)).drop_last() =~= modes);
}

/// A link of a ZIP archive is made exactly if its body is as long as was declared, is text, and is a
/// safe path; it leads where its body says.
pub proof fn law_zip_links_lead_where_they_say(path: Seq<char>, declared: u64, body: Seq<u8>)
    ensures
        link_target(path, declared, body) is Ok <==> body.len() == declared
            && vstd::utf8::valid_utf8(body) && entry_paths::archive_path_verdict(
            Some(vstd::utf8::decode_utf8(body)),
        ) is Ok,
        link_target(path, declared, body) is Ok ==> link_target(path, declared, body)->Ok_0
            == vstd::utf8::decode_utf8(body),
{
}

/// How an archive is unpacked is told by the end of its name alone, in whatever case it is written:
/// what stands before, dots and directories among it, does not matter.
pub proof fn law_archives_are_told_by_the_end_of_their_name(
    path: &str,
    dir: Seq<char>,
    name: Seq<char>,
    r: ArchiveFormat,
)
    requires
        call_ensures(archive_format, (path,), r),
        path@ == name || path@ == dir.push('/') + name,
        !name.contains('/'),
        name.len() > 0,
        name != seq!['.'],
        name != seq!['.', '.'],
    ensures
        r == ArchiveFormat::Zip <==> ends_with_letters(name, ".zip"@),
        r == ArchiveFormat::TarGz <==> ends_with_letters(name, ".tar.gz"@) || ends_with_letters(
            name,
            ".tgz"@,
        ),
        r == ArchiveFormat::TarBz2 <==> ends_with_letters(name, ".tar.bz2"@) || ends_with_letters(
            name,
            ".tbz2"@,
        ),
{
    law_endings_tell_the_format(dir, name);
}

/// Unpacking stops exactly if it was asked to, and a zip archive is begun exactly if it does not
/// announce more entries than are allowed.
pub proof fn law_unpacking_stops_when_asked(
    cancelled: bool,
    r: Result<(), Failure>,
    archive_path: &str,
    destination: &str,
    entries: u64,
    limits: ArchiveLimits,
    begun: Result<ZipExtraction, Failure>,
)
    requires
        call_ensures(check_extraction_cancelled, (cancelled,), r),
        call_ensures(ZipExtraction::begin, (archive_path, destination, entries, limits), begun),
    ensures
        r is Ok <==> !cancelled,
        begun is Ok <==> entries <= limits.max_entries,
        begun matches Ok(x) ==> x.archive_path@ == archive_path@ && x.destination@ == destination@
            && x.limits == limits && x.expanded == 0 && x.files == 0 && x.modes.len() == 0,
{
}

/// What is read counts while it stays within the limit; what goes beyond it is refused and does not.
pub proof fn law_copies_are_metered(meter: &mut CopyMeter, read: u64, r: Result<(), Failure>)
    requires
        call_ensures(CopyMeter::accept, (meter, read), r),
        old(meter).within_limit(),
    ensures
        r is Ok ==> final(meter).copied == old(meter).copied + read && final(meter).copied
            <= old(meter).max_bytes,
        r is Err ==> old(meter).copied + read > old(meter).max_bytes && final(meter).copied == old(meter).copied,
        final(meter).max_bytes == old(meter).max_bytes,
{
}

/// An entry of a tar archive counts exactly if it is unpacked: as an entry, with its size, and as a
/// file unless it is a directory.
pub proof fn law_tar_entries_are_counted(
    x: &mut TarExtraction,
    cancelled: bool,
    entry: &TarEntry,
    r: Result<(), Failure>,
)
    requires
        old(x).within_limits(),
        call_ensures(TarExtraction::next_entry, (x, cancelled, entry), r),
    ensures
        cancelled ==> r is Err,
        r is Ok ==> final(x).entries == old(x).entries + 1 && final(x).expanded == old(x).expanded
            + entry.size && final(x).files == old(x).files + (if entry.is_dir {
            0int
        } else {
            1int
        }),
        r is Ok ==> final(x).entries <= old(x).limits.max_entries && final(x).expanded <= old(x).limits.max_expanded_bytes && final(x).files <= old(x).limits.max_files,
        r is Err ==> *final(x) == *old(x),
        final(x).limits == old(x).limits,
{
    law_tar_entries_are_admitted_while_they_fit(*old(x), *entry);
}

/// A file of a ZIP archive is complete exactly if it was written as long as it was declared; its
/// mode is then noted behind the others.
pub proof fn law_zip_files_are_complete(
    x: &mut ZipExtraction,
    path: &str,
    declared_size: u64,
    copied: u64,
    mode: Option<u32>,
    r: Result<(), Failure>,
)
    requires
        call_ensures(ZipExtraction::file_written, (x, path, declared_size, copied, mode), r),
    ensures
        r is Ok <==> copied == declared_size,
        r is Err ==> final(x).modes.deep_view() == old(x).modes.deep_view(),
        r is Ok && mode is Some ==> final(x).modes.deep_view() == noted(
            old(x).modes.deep_view(),
            path@,
            mode,
        ),
        final(x).expanded == old(x).expanded,
        final(x).files == old(x).files,
{
}

/// Modes are set in the reverse of the order in which they were noted, so that what lies in a
/// directory comes before the directory, and none is left out.
pub proof fn law_modes_are_set_from_the_inside_out(x: ZipExtraction, r: Vec<ModeChange>, i: int)
    requires
        call_ensures(ZipExtraction::permission_pass, (x,), r),
    ensures
        r.len() == x.modes.len(),
        0 <= i < r.len() ==> r@[i].path@ == x.modes@[x.modes.len() - 1 - i].path@ && r@[i].mode
            == x.modes@[x.modes.len() - 1 - i].mode,
{
    assert(r.deep_view().len() == x.modes.deep_view().len());
    if 0 <= i < r.len() {
        let n = x.modes.len() - 1 - i;
        assert(r.deep_view()[i] == x.modes.deep_view()[n]);
        assert(r.deep_view()[i] == r@[i].deep_view());
        assert(x.modes.deep_view()[n] == x.modes@[n].deep_view());
    }
}

} // verus!
