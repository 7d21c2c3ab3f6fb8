//! Downloading the archive of a binary distribution.

use vstd::prelude::*;
use crate::digest;
use crate::digest::{hex_encode, parse_sha256, same_bytes, sha256_digest};
use crate::failure;
use crate::failure::{Failure, FailureView};
use crate::installer::binary::entry_paths;
use crate::installer::binary::entry_paths::validate_archive_component;
use crate::installer::binary::ArchiveLimits;
use crate::paths;
use crate::paths::join_path;
use crate::registry::BinaryTarget;
use crate::text;
use crate::text::to_decimal;

verus! {

/// The path segments of the URL that a text holds, if its path has any, or what is wrong with the
/// text.
pub uninterp spec fn url_segments(text: Seq<char>) -> Result<Option<Seq<Seq<char>>>, Seq<char>>;

/// The segments that a parse brought, as sequences of characters.
pub open spec fn segments_view(segments: Result<Option<Vec<String>>, String>) -> Result<
    Option<Seq<Seq<char>>>,
    Seq<char>,
> {
    match segments {
        Ok(Some(list)) => Ok(Some(list.deep_view())),
        Ok(None) => Ok(None),
        Err(words) => Err(words@),
    }
}

/// Calls `Url::parse` of the url crate and `path_segments` on its result. What they make of a
/// text is left open; it is taken to depend on the text alone.
#[verifier::external_body]
fn parse_url_segments(text: &str) -> (r: Result<Option<Vec<String>>, String>)
    ensures
        segments_view(r) == url_segments(text@),
{
    match reqwest::Url::parse(text) {
        Ok(url) => Ok(url.path_segments().map(|list| list.map(str::to_owned).collect())),
        Err(error) => Err(error.to_string()),
    }
}

/// The name that a downloaded archive is stored under: the last segment of its URL.
pub open spec fn archive_name(segments: Option<Seq<Seq<char>>>) -> Seq<char> {
    match segments {
        Some(list) => if list.len() > 0 && list.last().len() > 0 {
            list.last()
        } else {
            "download.bin"@
        },
        None => "download.bin"@,
    }
}

/// What a download needs to know before the request is sent.
#[derive(Debug, Clone)]
pub struct DownloadPlan {
    /// The digest that the archive must have.
    pub expected_digest: Vec<u8>,
    /// Where the archive is stored.
    pub destination: String,
}

/// A [`DownloadPlan`] over sequences.
pub struct DownloadPlanView {
    pub expected_digest: Seq<u8>,
    pub destination: Seq<char>,
}

impl View for DownloadPlan {
    type V = DownloadPlanView;

    open spec fn view(&self) -> DownloadPlanView {
        DownloadPlanView {
            expected_digest: self.expected_digest@,
            destination: self.destination@,
        }
    }
}

/// The plan for downloading an archive, given what its URL was parsed into: the declared digest
/// is checked first, then the URL, then the file name.
pub open spec fn download_plan(
    archive: Seq<char>,
    sha256: Option<Seq<char>>,
    temp_dir: Seq<char>,
    segments: Result<Option<Seq<Seq<char>>>, Seq<char>>,
) -> Result<DownloadPlanView, FailureView> {
    match sha256 {
        None => Err(digest::missing_digest()),
        Some(declared) => if !digest::is_digest_text(declared) {
            Err(digest::malformed_digest(declared))
        } else {
            match segments {
                Err(words) => Err(
                    failure::failure(words).within("invalid archive URL: "@ + archive),
                ),
                Ok(list) => {
                    let name = archive_name(list);
                    if !entry_paths::is_safe_component(name) {
                        Err(
                            entry_paths::unsafe_component(name).within(
                                "unsafe archive filename in URL: "@ + name,
                            ),
                        )
                    } else {
                        Ok(
                            DownloadPlanView {
                                expected_digest: digest::digest_bytes(declared),
                                destination: paths::join(temp_dir, name),
                            },
                        )
                    }
                },
            }
        },
    }
}

/// The digest that a target declares.
pub open spec fn declared_digest(target: BinaryTarget) -> Option<Seq<char>> {
    match target.sha256 {
        Some(d) => Some(d@),
        None => None,
    }
}

/// Plans the download of `target`, given what its URL was parsed into.
pub fn plan_parsed_download(
    target: &BinaryTarget,
    temp_dir: &str,
    segments: Result<Option<Vec<String>>, String>,
) -> (r: Result<DownloadPlan, Failure>)
    ensures
        match r {
            Ok(plan) => download_plan(
                target.archive@,
                declared_digest(*target),
                temp_dir@,
                segments_view(segments),
            ) == Ok::<DownloadPlanView, FailureView>(plan@),
            Err(e) => download_plan(
                target.archive@,
                declared_digest(*target),
                temp_dir@,
                segments_view(segments),
            ) == Err::<DownloadPlanView, FailureView>(e@),
        },
{
    let declared = match &target.sha256 {
        None => {
            return Err(
                Failure::new("binary target is missing required sha256 checksum".to_owned()),
            );
        },
        Some(declared) => declared,
    };
    let expected_digest = parse_sha256(declared.as_str())?;
    let list = match segments {
        Err(words) => {
            return Err(
                Failure::new(words).within(
                    "invalid archive URL: ".to_owned().concat(target.archive.as_str()),
                ),
            );
        },
        Ok(list) => list,
    };
    let name = match list {
        None => "download.bin".to_owned(),
        Some(list) => {
            let mut list = list;
            let ghost all = list.deep_view();
            assert(list@.len() > 0 ==> all.last() == list@.last()@);
            match list.pop() {
                None => "download.bin".to_owned(),
                Some(last) => if last.as_str().is_empty() {
                    "download.bin".to_owned()
                } else {
                    last
                },
            }
        },
    };
    match validate_archive_component(name.as_str()) {
        Err(e) => Err(
            e.within("unsafe archive filename in URL: ".to_owned().concat(name.as_str())),
        ),
        Ok(()) => Ok(
            DownloadPlan { expected_digest, destination: join_path(temp_dir, name.as_str()) },
        ),
    }
}

/// Plans the download of `target` into `temp_dir`.
pub fn plan_download(target: &BinaryTarget, temp_dir: &str) -> (r: Result<DownloadPlan, Failure>)
    ensures
        match r {
            Ok(plan) => download_plan(
                target.archive@,
                declared_digest(*target),
                temp_dir@,
                url_segments(target.archive@),
            ) == Ok::<DownloadPlanView, FailureView>(plan@),
            Err(e) => download_plan(
                target.archive@,
                declared_digest(*target),
                temp_dir@,
                url_segments(target.archive@),
            ) == Err::<DownloadPlanView, FailureView>(e@),
        },
{
    let segments = parse_url_segments(target.archive.as_str());
    plan_parsed_download(target, temp_dir, segments)
}

/// The failure of a download that is longer than the limit.
pub open spec fn download_exceeded(max_download_bytes: u64) -> FailureView {
    failure::failure(
        "archive exceeds download limit of "@ + text::decimal(max_download_bytes as nat)
            + " bytes"@,
    )
}

fn exceeded_failure(max_download_bytes: u64) -> (r: Failure)
    ensures
        r@ == download_exceeded(max_download_bytes),
{
    Failure::new(
        "archive exceeds download limit of ".to_owned().concat(
            to_decimal(max_download_bytes as u128).as_str(),
        ).concat(" bytes"),
    )
}

/// Refuses a response that announces more bytes than the limit.
pub fn check_content_length(length: Option<u64>, limits: &ArchiveLimits) -> (r: Result<
    (),
    Failure,
>)
    ensures
        match r {
            Ok(()) => length is None || length->Some_0 <= limits.max_download_bytes,
            Err(e) => length is Some && length->Some_0 > limits.max_download_bytes && e@
                == download_exceeded(limits.max_download_bytes),
        },
{
    match length {
        Some(length) => if length > limits.max_download_bytes {
            Err(exceeded_failure(limits.max_download_bytes))
        } else {
            Ok(())
        },
        None => Ok(()),
    }
}

/// What has been received once another chunk came, unless that takes it over the limit.
pub open spec fn with_chunk(received: Seq<u8>, limit: u64, chunk: Seq<u8>) -> Option<Seq<u8>> {
    if received.len() + chunk.len() <= limit {
        Some(received + chunk)
    } else {
        None
    }
}

/// A download in progress.
#[derive(Debug, Clone)]
pub struct Download {
    /// The digest that the archive must have.
    pub expected_digest: Vec<u8>,
    /// Most bytes that are accepted.
    pub max_download_bytes: u64,
    /// What has been received.
    pub received: Vec<u8>,
}

impl Download {
    /// Whether the limit has been kept.
    pub open spec fn within_limit(self) -> bool {
        self.received@.len() <= self.max_download_bytes
    }

    /// A download that has received nothing.
    pub fn start(plan: &DownloadPlan, limits: &ArchiveLimits) -> (r: Download)
        ensures
            r.expected_digest@ == plan.expected_digest@,
            r.max_download_bytes == limits.max_download_bytes,
            r.received@ == Seq::<u8>::empty(),
            r.within_limit(),
    {
        Download {
            expected_digest: plan.expected_digest.clone(),
            max_download_bytes: limits.max_download_bytes,
            received: Vec::new(),
        }
    }

    /// Accepts the next chunk, unless it takes the download over the limit.
    pub fn accept(&mut self, chunk: &[u8]) -> (r: Result<(), Failure>)
        requires
            old(self).within_limit(),
        ensures
            final(self).within_limit(),
            final(self).expected_digest@ == old(self).expected_digest@,
            final(self).max_download_bytes == old(self).max_download_bytes,
            match r {
                Ok(()) => with_chunk(
                    old(self).received@,
                    old(self).max_download_bytes,
                    chunk@,
                ) == Some(final(self).received@),
                Err(e) => with_chunk(
                    old(self).received@,
                    old(self).max_download_bytes,
                    chunk@,
                ) is None && final(self).received@ == old(self).received@ && e@
                    == download_exceeded(old(self).max_download_bytes),
            },
    {
        let room: u64 = self.max_download_bytes - self.received.len() as u64;
        if chunk.len() as u64 > room {
            return Err(exceeded_failure(self.max_download_bytes));
        }
        let ghost before = self.received@;
        self.received.extend_from_slice(chunk);
        assert(self.received@ == before + chunk@);
        Ok(())
    }

    /// Ends the download: what was received must have the expected digest.
    pub fn finish(&self) -> (r: Result<(), Failure>)
        ensures
            match r {
                Ok(()) => digest::sha256(self.received@) == self.expected_digest@,
                Err(e) => digest::sha256(self.received@) != self.expected_digest@ && e@
                    == digest::digest_mismatch(
                    self.expected_digest@,
                    digest::sha256(self.received@),
                ),
            },
    {
        let actual = sha256_digest(self.received.as_slice());
        if same_bytes(&actual, self.expected_digest.as_slice()) {
            Ok(())
        } else {
            Err(
                Failure::new(
                    "sha256 checksum mismatch: expected ".to_owned().concat(
                        hex_encode(self.expected_digest.as_slice()).as_str(),
                    ).concat(", got ").concat(hex_encode(&actual).as_str()),
                ),
            )
        }
    }
}

/// The content that comes in `chunks`.
pub open spec fn concatenated(chunks: Seq<Seq<u8>>) -> Seq<u8>
    decreases chunks.len(),
{
    if chunks.len() == 0 {
        Seq::empty()
    } else {
        concatenated(chunks.drop_last()) + chunks.last()
    }
}

/// What has been received once all `chunks` came one after the other, unless one of them was too
/// much.
pub open spec fn received_after(limit: u64, chunks: Seq<Seq<u8>>) -> Option<Seq<u8>>
    decreases chunks.len(),
{
    if chunks.len() == 0 {
        Some(Seq::empty())
    } else {
        match received_after(limit, chunks.drop_last()) {
            Some(received) => with_chunk(received, limit, chunks.last()),
            None => None,
        }
    }
}

/// How content is cut into chunks does not matter: it is received if and only if it is within the
/// limit as a whole.
pub proof fn law_chunks_do_not_matter(limit: u64, chunks: Seq<Seq<u8>>)
    ensures
        received_after(limit, chunks) == if concatenated(chunks).len() <= limit {
            Some(concatenated(chunks))
        } else {
            None
        },
    decreases chunks.len(),
{
    if chunks.len() > 0 {
        law_chunks_do_not_matter(limit, chunks.drop_last());
    }
}

/// A download ends well if and only if what came is within the limit and has the digest that was
/// declared for it.
pub proof fn law_finished_download_matches(declared: Seq<char>, limit: u64, chunks: Seq<Seq<u8>>)
    requires
        digest::is_digest_text(declared),
    ensures
        (received_after(limit, chunks) matches Some(received) && digest::sha256(received)
            == digest::digest_bytes(declared)) <==> (concatenated(chunks).len() <= limit
            && digest::digest_verdict(Some(declared), digest::sha256(concatenated(chunks))) is Ok),
{
    law_chunks_do_not_matter(limit, chunks);
}

/// A download is planned exactly if a well formed digest was declared and the archive's URL names a
/// file that is safe to write; it goes to the directory it was given under that name, and is held to
/// that digest.
pub proof fn law_downloads_are_planned_for_declared_archives(
    archive: Seq<char>,
    declared: Seq<char>,
    temp_dir: Seq<char>,
    segments: Seq<Seq<char>>,
)
    requires
        segments.len() > 0,
        segments.last().len() > 0,
    ensures
        download_plan(archive, None, temp_dir, Ok(Some(segments))) is Err,
        ({
            let plan = download_plan(archive, Some(declared), temp_dir, Ok(Some(segments)));
            &&& plan is Ok <==> digest::is_digest_text(declared) && entry_paths::is_safe_component(
                segments.last(),
            )
            &&& plan is Ok ==> {
                &&& digest::hex_text(plan->Ok_0.expected_digest) == text::ascii_lower(declared)
                &&& paths::components(plan->Ok_0.destination) == paths::components(temp_dir)
                    + seq![segments.last()]
            }
        }),
{
    let name = segments.last();
    if digest::is_digest_text(declared) {
        digest::law_digest_case(declared);
    }
    entry_paths::law_safe_components_are_single_names(name);
    if entry_paths::is_safe_component(name) {
        assert(name.contains(name[0]));
        paths::law_single_names_are_components(name);
        paths::law_join_puts_components_behind(temp_dir, name);
    }
}

/// A URL that names no file is downloaded under a name of its own, and what is no URL is not
/// downloaded.
pub proof fn law_nameless_archives_get_a_name(
    archive: Seq<char>,
    declared: Option<Seq<char>>,
    temp_dir: Seq<char>,
    segments: Seq<Seq<char>>,
    words: Seq<char>,
)
    ensures
        archive_name(None) == "download.bin"@,
        segments.len() == 0 || segments.last().len() == 0 ==> archive_name(Some(segments))
            == "download.bin"@,
        download_plan(archive, declared, temp_dir, Err(words)) is Err,
{
}

/// A chunk is taken whole, behind what was received before, exactly if it fits.
pub proof fn law_chunks_are_taken_whole(received: Seq<u8>, limit: u64, chunk: Seq<u8>)
    ensures
        with_chunk(received, limit, chunk) is Some <==> received.len() + chunk.len() <= limit,
        with_chunk(received, limit, chunk) is Some ==> with_chunk(received, limit, chunk)->Some_0
            == received + chunk,
{
}

/// Plans with the same view, and results of parsing with the same view, agree on everything.
pub proof fn law_download_views_hold_every_field(a: DownloadPlan, b: DownloadPlan)
    requires
        a@ == b@,
    ensures
        a.expected_digest@ == b.expected_digest@,
        a.destination@ == b.destination@,
{
}

/// The digest that a target declares is the one that it holds.
pub proof fn law_declared_digest_is_the_targets(target: BinaryTarget)
    ensures
        declared_digest(target) is Some <==> target.sha256 is Some,
        target.sha256 is Some ==> declared_digest(target)->Some_0 == target.sha256->Some_0@,
{
}

/// A download is begun with nothing received and the plan's digest. An announced length is refused
/// exactly if it is beyond the limit, and what was received is accepted exactly if it has the
/// declared digest.
pub proof fn law_downloads_are_checked_at_both_ends(
    length: Option<u64>,
    limits: &ArchiveLimits,
    announced: Result<(), Failure>,
    plan: &DownloadPlan,
    begun: Download,
    download: Download,
    finished: Result<(), Failure>,
)
    requires
        call_ensures(check_content_length, (length, limits), announced),
        call_ensures(Download::start, (plan, limits), begun),
        call_ensures(Download::finish, (&download,), finished),
    ensures
        announced is Err <==> length is Some && length->Some_0 > limits.max_download_bytes,
        begun.received.len() == 0,
        begun.expected_digest@ == plan.expected_digest@,
        begun.max_download_bytes == limits.max_download_bytes,
        finished is Ok <==> digest::sha256(download.received@) == download.expected_digest@,
{
}

/// A chunk is taken whole, behind what was received before, exactly if all of it stays within the
/// limit.
pub proof fn law_chunks_are_put_behind(
    download: &mut Download,
    chunk: &[u8],
    r: Result<(), Failure>,
)
    requires
        old(download).within_limit(),
        call_ensures(Download::accept, (download, chunk), r),
    ensures
        r is Ok ==> final(download).received@ == old(download).received@ + chunk@,
        r is Err ==> final(download).received@ == old(download).received@,
        r is Ok <==> old(download).received@.len() + chunk@.len() <= old(download).max_download_bytes,
        final(download).expected_digest@ == old(download).expected_digest@,
        final(download).max_download_bytes == old(download).max_download_bytes,
{
}

} // verus!
