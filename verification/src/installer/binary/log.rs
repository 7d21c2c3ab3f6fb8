//! The log of installations in the cache.

use vstd::prelude::*;
use time::OffsetDateTime;
use crate::installer::cache;
use crate::installer::cache::platform_cache_key;
use crate::paths;
use crate::paths::{file_name_of, sibling};
use crate::registry::{Platform, RegistryAgent};
use crate::text;
use crate::text::pad_number;

verus! {

/// Most bytes that the log is let grow to.
pub const INSTALL_LOG_MAX_BYTES: u64 = 1_048_576;

/// How many bytes of the log are kept when it is cut.
pub const INSTALL_LOG_TAIL_BYTES: u64 = 262_144;

/// A point of time in UTC.
#[derive(Debug, Clone, Copy, PartialEq, Eq, Structural)]
pub struct UtcTime {
    pub year: i32,
    pub month: u8,
    pub day: u8,
    pub hour: u8,
    pub minute: u8,
    pub second: u8,
}

impl UtcTime {
    /// Whether the parts are in the range of a calendar and a clock.
    pub open spec fn is_valid(self) -> bool {
        &&& -9999 <= self.year <= 9999
        &&& 1 <= self.month <= 12
        &&& 1 <= self.day <= 31
        &&& self.hour <= 23
        &&& self.minute <= 59
        &&& self.second <= 59
    }

    /// The time in the form `YYYY-MM-DDTHH:MM:SSZ`.
    pub open spec fn text(self) -> Seq<char> {
        text::signed_padded(self.year as int, 4) + "-"@ + text::signed_padded(self.month as int, 2)
            + "-"@ + text::signed_padded(self.day as int, 2) + "T"@ + text::signed_padded(
            self.hour as int,
            2,
        ) + ":"@ + text::signed_padded(self.minute as int, 2) + ":"@ + text::signed_padded(
            self.second as int,
            2,
        ) + "Z"@
    }

    /// Writes the time in the form `YYYY-MM-DDTHH:MM:SSZ`.
    pub fn to_text(&self) -> (r: String)
        ensures
            r@ == self.text(),
    {
        pad_number(self.year, 4).concat("-").concat(pad_number(self.month as i32, 2).as_str()).concat(
            "-",
        ).concat(pad_number(self.day as i32, 2).as_str()).concat("T").concat(
            pad_number(self.hour as i32, 2).as_str(),
        ).concat(":").concat(pad_number(self.minute as i32, 2).as_str()).concat(":").concat(
            pad_number(self.second as i32, 2).as_str(),
        ).concat("Z")
    }
}

/// Calls `OffsetDateTime::now_utc` of the time crate. The parts of the result are taken to be in
/// the ranges that the crate documents for them; what time it is is left open.
#[verifier::external_body]
fn now_utc() -> (r: UtcTime)
    ensures
        r.is_valid(),
{
    let now = OffsetDateTime::now_utc();
    UtcTime {
        year: now.year(),
        month: u8::from(now.month()),
        day: now.day(),
        hour: now.hour(),
        minute: now.minute(),
        second: now.second(),
    }
}

/// The current time in the form `YYYY-MM-DDTHH:MM:SSZ`.
pub fn utc_timestamp() -> (r: String)
    ensures
        exists|t: UtcTime| t.is_valid() && r@ == #[trigger] t.text(),
{
    let t = now_utc();
    assert(t.is_valid());
    t.to_text()
}

/// A timestamp of a year with four digits has twenty characters, the separators at their places.
pub proof fn law_timestamp_shape(t: UtcTime)
    requires
        t.is_valid(),
        t.year >= 0,
    ensures
        t.text().len() == 20,
        t.text()[4] == '-',
        t.text()[7] == '-',
        t.text()[10] == 'T',
        t.text()[13] == ':',
        t.text()[16] == ':',
        t.text()[19] == 'Z',
{
    reveal_strlit("-");
    reveal_strlit("T");
    reveal_strlit(":");
    reveal_strlit("Z");
    lemma_width(t.year as nat, 4);
    lemma_width(t.month as nat, 2);
    lemma_width(t.day as nat, 2);
    lemma_width(t.hour as nat, 2);
    lemma_width(t.minute as nat, 2);
    lemma_width(t.second as nat, 2);
}

proof fn lemma_width(n: nat, width: nat)
    requires
        width == 2 && n < 100 || width == 4 && n < 10000,
    ensures
        text::signed_padded(n as int, width).len() == width,
{
    reveal_with_fuel(text::decimal, 5);
    text::lemma_zero_padded_len(text::decimal(n), width);
}

/// What an installation attempt came to.
pub enum InstallAttempt<'a> {
    /// The path of the executable that is ready.
    Ready(&'a str),
    /// The messages of the failure.
    Failed(&'a str),
}

/// The line that is logged for an installation attempt.
pub open spec fn log_line(
    timestamp: Seq<char>,
    agent_id: Seq<char>,
    agent_version: Seq<char>,
    platform: Platform,
    attempt: InstallAttempt,
) -> Seq<char> {
    "["@ + timestamp + "] "@ + match attempt {
        InstallAttempt::Ready(_) => "ready agent="@,
        InstallAttempt::Failed(_) => "FAILED agent="@,
    } + agent_id + " version="@ + agent_version + " platform="@ + cache::platform_key(platform)
        + match attempt {
        InstallAttempt::Ready(path) => " executable="@ + path@,
        InstallAttempt::Failed(chain) => " error="@ + chain@,
    } + "\n"@
}

/// Words the line that is logged for an installation attempt.
pub fn install_log_line(
    timestamp: &str,
    agent: &RegistryAgent,
    platform: Platform,
    attempt: InstallAttempt,
) -> (r: String)
    ensures
        r@ == log_line(timestamp@, agent.id@, agent.version@, platform, attempt),
{
    let (lead, tail) = match &attempt {
        InstallAttempt::Ready(path) => (
            "ready agent=",
            " executable=".to_owned().concat(path),
        ),
        InstallAttempt::Failed(chain) => ("FAILED agent=", " error=".to_owned().concat(chain)),
    };
    "[".to_owned().concat(timestamp).concat("] ").concat(lead).concat(agent.id.as_str()).concat(
        " version=",
    ).concat(agent.version.as_str()).concat(" platform=").concat(
        platform_cache_key(platform),
    ).concat(tail.as_str()).concat("\n")
}

/// The lock beside the log, which stays the same file when the log is replaced.
pub fn install_log_lock_path(path: &str) -> (r: String)
    ensures
        r@ == paths::with_file_name(
            path@,
            match paths::file_name(path@) {
                Some(name) => name,
                None => "install.log"@,
            } + ".lock"@,
        ),
{
    let name = match file_name_of(path) {
        Some(name) => name,
        None => "install.log".to_owned(),
    };
    sibling(path, name.concat(".lock").as_str())
}

/// Whether a log of `len` bytes has to be cut before a line is appended to it.
pub fn must_truncate(len: u64, line_len: u64) -> (r: bool)
    ensures
        r == (len + line_len > INSTALL_LOG_MAX_BYTES),
{
    len > INSTALL_LOG_MAX_BYTES || line_len > INSTALL_LOG_MAX_BYTES - len
}

/// The first line of a log that was cut.
pub open spec fn truncation_header() -> Seq<u8> {
    vstd::utf8::encode_utf8("[install log truncated; keeping the last 262144 bytes]\n"@)
}

/// The end of a log that is kept when it is cut.
pub open spec fn log_tail(bytes: Seq<u8>) -> Seq<u8> {
    if bytes.len() <= INSTALL_LOG_TAIL_BYTES {
        bytes
    } else {
        bytes.skip(bytes.len() - INSTALL_LOG_TAIL_BYTES)
    }
}

/// `bytes` without its first line, where it has a complete one.
pub open spec fn without_first_line(bytes: Seq<u8>) -> Seq<u8> {
    if bytes.contains(10u8) {
        bytes.skip(bytes.index_of_first(10u8)->Some_0 + 1)
    } else {
        bytes
    }
}

/// Whether the end of a log that is kept begins in the middle of a line.
pub open spec fn cuts_a_line(bytes: Seq<u8>) -> bool {
    bytes.len() > INSTALL_LOG_TAIL_BYTES && bytes[bytes.len() - INSTALL_LOG_TAIL_BYTES - 1] != 10u8
}

/// What is kept of a log when it is cut: its end, without the rest of a line that the cut leaves
/// at its front.
pub open spec fn kept_log(bytes: Seq<u8>) -> Seq<u8> {
    if cuts_a_line(bytes) {
        without_first_line(log_tail(bytes))
    } else {
        log_tail(bytes)
    }
}

/// A log that was cut: a line that says so, and the last lines.
pub open spec fn truncated(bytes: Seq<u8>) -> Seq<u8> {
    truncation_header() + kept_log(bytes)
}

/// Where the bytes behind the first line of `bytes[start..]` begin.
fn after_first_line(bytes: &[u8], start: usize) -> (from: usize)
    requires
        start <= bytes.len(),
    ensures
        start <= from <= bytes.len(),
        bytes@.skip(from as int) == without_first_line(bytes@.skip(start as int)),
{
    broadcast use vstd::seq_lib::group_seq_properties;

    let ghost tail = bytes@.skip(start as int);
    let mut i: usize = start;
    while i < bytes.len()
        invariant
            start <= i <= bytes.len(),
            tail == bytes@.skip(start as int),
            forall|j: int| 0 <= j < i - start ==> tail[j] != 10u8,
        decreases bytes.len() - i,
    {
        if bytes[i] == 10u8 {
            proof {
                let at = (i - start) as int;
                assert(tail[at] == 10u8);
                assert(tail.contains(10u8));
                tail.index_of_first_ensures(10u8);
                assert(tail.index_of_first(10u8) == Some(at));
                assert(bytes@.skip(i + 1) == tail.skip(at + 1));
            }
            return i + 1;
        }
        i += 1;
    }
    start
}

/// Cuts a log.
pub fn truncate_install_log(bytes: &[u8]) -> (r: Vec<u8>)
    ensures
        r@ == truncated(bytes@),
{
    broadcast use vstd::seq_lib::group_seq_properties;

    let tail_len: usize = 262_144;
    let start: usize = if bytes.len() > tail_len {
        bytes.len() - tail_len
    } else {
        0
    };
    let ghost tail = log_tail(bytes@);
    assert(tail == bytes@.skip(start as int));
    let mut from: usize = start;
    if start > 0 && bytes[start - 1] != 10u8 {
        from = after_first_line(bytes, start);
    }
    assert(bytes@.skip(from as int) == kept_log(bytes@));
    let mut r: Vec<u8> = Vec::new();
    r.extend_from_slice("[install log truncated; keeping the last 262144 bytes]\n".as_bytes());
    assert(r@ == truncation_header());
    let ghost head = r@;
    let kept = vstd::slice::slice_subrange(bytes, from, bytes.len());
    r.extend_from_slice(kept);
    assert(kept@ == bytes@.skip(from as int));
    assert(r@ == head + kept@);
    r
}

/// The log after a line has been appended to it.
pub open spec fn appended(log: Seq<u8>, line: Seq<u8>) -> Seq<u8> {
    if log.len() + line.len() > INSTALL_LOG_MAX_BYTES {
        truncated(log) + line
    } else {
        log + line
    }
}

proof fn lemma_header_len()
    ensures
        truncation_header().len() == 55,
{
    let s = "[install log truncated; keeping the last 262144 bytes]\n"@;
    reveal_strlit("[install log truncated; keeping the last 262144 bytes]\n");
    assert(s.len() == 55);
    assert(vstd::utf8::is_ascii_chars(s));
    vstd::utf8::is_ascii_chars_encode_utf8(s);
}

proof fn lemma_without_first_line(bytes: Seq<u8>)
    ensures
        without_first_line(bytes).len() <= bytes.len(),
        bytes.contains(10u8) ==> without_first_line(bytes).len() < bytes.len() && bytes[bytes.len()
            - without_first_line(bytes).len() - 1] == 10u8,
        without_first_line(bytes) == bytes.skip(bytes.len() - without_first_line(bytes).len()),
{
    if bytes.contains(10u8) {
        bytes.index_of_first_ensures(10u8);
    } else {
        assert(bytes.skip(0) == bytes);
    }
}

/// A log is bounded: whatever it held, it is within its limit once a line has been appended that
/// leaves room for what is kept.
pub proof fn law_log_stays_bounded(log: Seq<u8>, line: Seq<u8>)
    requires
        line.len() + INSTALL_LOG_TAIL_BYTES + 55 <= INSTALL_LOG_MAX_BYTES,
    ensures
        appended(log, line).len() <= INSTALL_LOG_MAX_BYTES,
{
    lemma_header_len();
    lemma_without_first_line(log_tail(log));
}

/// Appending never loses the line that is appended.
pub proof fn law_log_ends_with_the_line(log: Seq<u8>, line: Seq<u8>)
    ensures
        line.is_suffix_of(appended(log, line)),
{
    let all = appended(log, line);
    assert(all.skip(all.len() - line.len()) == line);
}

/// What is kept of a log is its end, from the start of a line on, unless a single line is longer
/// than what is kept; and no complete line of that end is lost.
pub proof fn law_kept_lines_are_complete(log: Seq<u8>)
    ensures
        ({
            let tail = log_tail(log);
            let kept = kept_log(log);
            &&& truncated(log) == truncation_header() + kept
            &&& kept.is_suffix_of(log)
            &&& kept.len() == log.len() || log[log.len() - kept.len() - 1] == 10u8
                || !tail.contains(10u8)
            &&& !cuts_a_line(log) ==> kept == tail
            &&& cuts_a_line(log) && tail.contains(10u8) ==> {
                let lost = tail.take(tail.len() - kept.len());
                lost.last() == 10u8 && !lost.drop_last().contains(10u8)
            }
        }),
{
    let tail = log_tail(log);
    let kept = kept_log(log);
    lemma_without_first_line(tail);
    assert(kept == log.skip(log.len() - kept.len()));
    if cuts_a_line(log) && tail.contains(10u8) {
        tail.index_of_first_ensures(10u8);
    }
}

/// A log that is no longer than what is kept loses nothing.
pub proof fn law_short_logs_are_kept_whole(log: Seq<u8>)
    requires
        log.len() <= INSTALL_LOG_TAIL_BYTES,
    ensures
        truncated(log) == truncation_header() + log,
{
}

proof fn lemma_padded_number(n: nat, width: nat)
    requires
        width == 2 && n < 100 || width == 4 && n < 10000,
    ensures
        text::signed_padded(n as int, width).len() == width,
        text::number_of(text::signed_padded(n as int, width)) == n,
{
    lemma_width(n, width);
    text::law_padding_keeps_the_number(text::decimal(n), width);
    text::law_decimal_is_the_number(n);
}

/// A timestamp holds the numbers of its time, from the year to the second.
pub proof fn law_timestamps_hold_the_time(t: UtcTime)
    requires
        t.is_valid(),
        t.year >= 0,
    ensures
        text::number_of(t.text().subrange(0, 4)) == t.year,
        text::number_of(t.text().subrange(5, 7)) == t.month,
        text::number_of(t.text().subrange(8, 10)) == t.day,
        text::number_of(t.text().subrange(11, 13)) == t.hour,
        text::number_of(t.text().subrange(14, 16)) == t.minute,
        text::number_of(t.text().subrange(17, 19)) == t.second,
{
    reveal_strlit("-");
    reveal_strlit("T");
    reveal_strlit(":");
    reveal_strlit("Z");
    lemma_padded_number(t.year as nat, 4);
    lemma_padded_number(t.month as nat, 2);
    lemma_padded_number(t.day as nat, 2);
    lemma_padded_number(t.hour as nat, 2);
    lemma_padded_number(t.minute as nat, 2);
    lemma_padded_number(t.second as nat, 2);
    let s = t.text();
    assert(s.subrange(0, 4) =~= text::signed_padded(t.year as int, 4));
    assert(s.subrange(5, 7) =~= text::signed_padded(t.month as int, 2));
    assert(s.subrange(8, 10) =~= text::signed_padded(t.day as int, 2));
    assert(s.subrange(11, 13) =~= text::signed_padded(t.hour as int, 2));
    assert(s.subrange(14, 16) =~= text::signed_padded(t.minute as int, 2));
    assert(s.subrange(17, 19) =~= text::signed_padded(t.second as int, 2));
}

/// A line of the log tells when, what became of it, the agent, its version, the platform, and the
/// executable or the failure, and ends there.
pub proof fn law_log_lines_tell_everything(
    timestamp: Seq<char>,
    id: Seq<char>,
    version: Seq<char>,
    platform: Platform,
    words: &str,
)
    ensures
        ({
            let middle = id + " version="@ + version + " platform="@ + cache::platform_key(platform);
            let ready = log_line(timestamp, id, version, platform, InstallAttempt::Ready(words));
            let failed = log_line(timestamp, id, version, platform, InstallAttempt::Failed(words));
            &&& ready == "["@ + timestamp + "] ready agent="@ + middle + " executable="@ + words@
                + "\n"@
            &&& failed == "["@ + timestamp + "] FAILED agent="@ + middle + " error="@ + words@
                + "\n"@
        }),
{
    reveal_strlit("] ");
    reveal_strlit("ready agent=");
    reveal_strlit("FAILED agent=");
    reveal_strlit("] ready agent=");
    reveal_strlit("] FAILED agent=");
    let middle = id + " version="@ + version + " platform="@ + cache::platform_key(platform);
    let ready = log_line(timestamp, id, version, platform, InstallAttempt::Ready(words));
    let failed = log_line(timestamp, id, version, platform, InstallAttempt::Failed(words));
    assert(ready =~= "["@ + timestamp + "] ready agent="@ + middle + " executable="@ + words@
        + "\n"@);
    assert(failed =~= "["@ + timestamp + "] FAILED agent="@ + middle + " error="@ + words@ + "\n"@);
}

/// A line is appended and nothing is lost as long as the log stays within a mebibyte; beyond that
/// at most the last quarter of one is kept.
pub proof fn law_log_is_cut_beyond_a_mebibyte(log: Seq<u8>, line: Seq<u8>)
    ensures
        log.len() + line.len() <= 1_048_576 ==> appended(log, line) == log + line,
        log.len() + line.len() > 1_048_576 ==> appended(log, line) == truncated(log) + line,
        kept_log(log).len() <= 262_144,
        log_tail(log).len() == if log.len() < 262_144 {
            log.len() as int
        } else {
            262_144int
        },
        log_tail(log).is_suffix_of(log),
        log.len() > 262_144 ==> (cuts_a_line(log) <==> log[log.len() - 262_145] != 10u8),
        log.len() <= 262_144 ==> !cuts_a_line(log),
{
    lemma_without_first_line(log_tail(log));
    let tail = log_tail(log);
    assert(log.skip(log.len() - tail.len()) =~= tail);
}

/// The log is locked by a file beside it, of its own name with an ending.
pub proof fn law_logs_are_locked_beside_them(path: &str, name: Seq<char>, r: String)
    requires
        call_ensures(install_log_lock_path, (path,), r),
        paths::file_name(path@) == Some(name),
    ensures
        r@ == paths::with_file_name(path@, name + ".lock"@),
{
}

} // verus!
