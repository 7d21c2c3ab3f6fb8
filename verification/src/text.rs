//! Text as sequences of characters: searching, trimming, padding and numbers.

use vstd::prelude::*;

verus! {

/// `String::push` appends one character to the end of the string.
pub assume_specification[ String::push ](s: &mut String, c: char)
    ensures
        final(s)@ == old(s)@.push(c),
;

/// The characters of `s`, in order.
pub fn chars_of(s: &str) -> (v: Vec<char>)
    ensures
        v@ == s@,
{
    let mut v: Vec<char> = Vec::new();
    for c in it: s.chars()
        invariant
            it.seq() == s@,
            v@ == s@.take(it.index()),
    {
        v.push(c);
        assert(s@.take(it.index() + 1) == s@.take(it.index()).push(c));
    }
    v
}

/// The string made of the characters of `v`.
pub fn string_of(v: &Vec<char>) -> (s: String)
    ensures
        s@ == v@,
{
    let mut s = String::new();
    let mut i: usize = 0;
    while i < v.len()
        invariant
            i <= v.len(),
            s@ == v@.take(i as int),
        decreases v.len() - i,
    {
        s.push(v[i]);
        assert(v@.take(i + 1) == v@.take(i as int).push(v@[i as int]));
        i += 1;
    }
    assert(v@.take(v.len() as int) == v@);
    s
}

/// Whether two pieces of text hold the same characters.
pub fn same(a: &str, b: &str) -> (r: bool)
    ensures
        r == (a@ == b@),
{
    a.to_owned() == b.to_owned()
}

/// The text that an optional string holds.
pub open spec fn text_option(s: Option<&str>) -> Option<Seq<char>> {
    match s {
        Some(t) => Some(t@),
        None => None,
    }
}

/// The text that an optional owned string holds.
pub open spec fn opt_text(s: Option<String>) -> Option<Seq<char>> {
    match s {
        Some(t) => Some(t@),
        None => None,
    }
}

/// Whether two optional strings hold the same text, or both none.
pub fn same_optional(a: &Option<String>, b: &Option<String>) -> (r: bool)
    ensures
        r == (opt_text(*a) == opt_text(*b)),
{
    match (a, b) {
        (Some(x), Some(y)) => same(x.as_str(), y.as_str()),
        (None, None) => true,
        _ => false,
    }
}

/// Borrows the text of an optional string.
pub fn as_text(s: &Option<String>) -> (r: Option<&str>)
    ensures
        text_option(r) == opt_text(*s),
{
    match s {
        Some(t) => Some(t.as_str()),
        None => None,
    }
}

/// Whether `sub` stands in `s` at position `at`.
pub open spec fn occurs_at(s: Seq<char>, sub: Seq<char>, at: int) -> bool {
    &&& 0 <= at
    &&& at + sub.len() <= s.len()
    &&& s.subrange(at, at + sub.len()) == sub
}

/// Whether `sub` stands in `s` at any position.
pub open spec fn occurs(s: Seq<char>, sub: Seq<char>) -> bool {
    exists|at: int| #[trigger] occurs_at(s, sub, at)
}

fn matches_at(s: &Vec<char>, sub: &Vec<char>, at: usize) -> (r: bool)
    ensures
        r == occurs_at(s@, sub@, at as int),
{
    if sub.len() > s.len() || at > s.len() - sub.len() {
        return false;
    }
    let mut i: usize = 0;
    while i < sub.len()
        invariant
            i <= sub.len(),
            at + sub.len() <= s.len(),
            s@.subrange(at as int, at + i) == sub@.take(i as int),
        decreases sub.len() - i,
    {
        if s[at + i] != sub[i] {
            assert(s@.subrange(at as int, at + sub.len())[i as int] != sub@[i as int]);
            return false;
        }
        assert(s@.subrange(at as int, at + i + 1) == sub@.take(i + 1));
        i += 1;
    }
    assert(sub@.take(sub.len() as int) == sub@);
    true
}

/// Whether `s` begins with `prefix`.
pub fn has_prefix(s: &str, prefix: &str) -> (r: bool)
    ensures
        r == prefix@.is_prefix_of(s@),
{
    let r = matches_at(&chars_of(s), &chars_of(prefix), 0);
    assert(prefix@.len() <= s@.len() ==> s@.subrange(0, prefix@.len() as int) == s@.take(prefix@.len() as int));
    r
}

/// Whether `s` ends with `suffix`.
pub fn has_suffix(s: &str, suffix: &str) -> (r: bool)
    ensures
        r == suffix@.is_suffix_of(s@),
{
    let chars = chars_of(s);
    let tail = chars_of(suffix);
    if tail.len() > chars.len() {
        return false;
    }
    matches_at(&chars, &tail, chars.len() - tail.len())
}

/// Whether the character `c` stands anywhere in `s`.
pub fn has_char(s: &str, c: char) -> (r: bool)
    ensures
        r == s@.contains(c),
{
    let chars = chars_of(s);
    let mut i: usize = 0;
    while i < chars.len()
        invariant
            i <= chars.len(),
            chars@ == s@,
            forall|j: int| 0 <= j < i ==> chars@[j] != c,
        decreases chars.len() - i,
    {
        if chars[i] == c {
            return true;
        }
        i += 1;
    }
    false
}

/// The last position at which `sub` stands in `s`.
pub open spec fn is_last_occurrence(s: Seq<char>, sub: Seq<char>, at: int) -> bool {
    &&& occurs_at(s, sub, at)
    &&& forall|later: int| #[trigger] occurs_at(s, sub, later) ==> later <= at
}

/// Finds the last position at which `sub` stands in `s`.
pub fn last_occurrence(s: &str, sub: &str) -> (r: Option<usize>)
    ensures
        match r {
            Some(at) => is_last_occurrence(s@, sub@, at as int),
            None => !occurs(s@, sub@),
        },
{
    let chars = chars_of(s);
    let pattern = chars_of(sub);
    if pattern.len() > chars.len() {
        return None;
    }
    let mut at: usize = chars.len() - pattern.len();
    loop
        invariant
            at + pattern.len() <= chars.len(),
            chars@ == s@,
            pattern@ == sub@,
            forall|later: int| #[trigger] occurs_at(s@, sub@, later) ==> later <= at,
        decreases at,
    {
        if matches_at(&chars, &pattern, at) {
            return Some(at);
        }
        if at == 0 {
            return None;
        }
        at -= 1;
    }
}

/// `c` with an ASCII capital letter made small.
pub open spec fn lower_char(c: char) -> char {
    if 'A' <= c <= 'Z' {
        ((c as u8) + 32) as u8 as char
    } else {
        c
    }
}

/// `s` with its ASCII capital letters made small.
pub open spec fn ascii_lower(s: Seq<char>) -> Seq<char> {
    s.map_values(|c: char| lower_char(c))
}

/// Makes the ASCII capital letters of `s` small.
pub fn to_ascii_lower(s: &str) -> (r: String)
    ensures
        r@ == ascii_lower(s@),
{
    let chars = chars_of(s);
    let mut r = String::new();
    let mut i: usize = 0;
    while i < chars.len()
        invariant
            i <= chars.len(),
            chars@ == s@,
            r@ == ascii_lower(s@.take(i as int)),
        decreases chars.len() - i,
    {
        let c = chars[i];
        if 'A' <= c && c <= 'Z' {
            r.push(((c as u8) + 32) as char);
        } else {
            r.push(c);
        }
        assert(s@.take(i + 1) == s@.take(i as int).push(c));
        assert(r@ == ascii_lower(s@.take(i + 1)));
        i += 1;
    }
    assert(s@.take(s@.len() as int) == s@);
    r
}

/// The pieces of `s` between occurrences of `separator`; a text without it is one piece.
pub open spec fn split(s: Seq<char>, separator: char) -> Seq<Seq<char>>
    decreases s.len(),
{
    if s.len() == 0 {
        seq![Seq::empty()]
    } else {
        let front = split(s.drop_last(), separator);
        if s.last() == separator {
            front.push(Seq::empty())
        } else {
            front.drop_last().push(front.last().push(s.last()))
        }
    }
}

/// A text always has at least one piece.
pub proof fn lemma_split_not_empty(s: Seq<char>, separator: char)
    ensures
        split(s, separator).len() >= 1,
    decreases s.len(),
{
    if s.len() > 0 {
        lemma_split_not_empty(s.drop_last(), separator);
    }
}

/// Splitting goes piece by piece: a separator between two texts separates their pieces.
pub proof fn lemma_split_join(a: Seq<char>, b: Seq<char>, separator: char)
    ensures
        split(a.push(separator) + b, separator) == split(a, separator) + split(b, separator),
    decreases b.len(),
{
    lemma_split_not_empty(b, separator);
    let whole = a.push(separator) + b;
    if b.len() == 0 {
        assert(whole == a.push(separator));
        assert(whole.drop_last() == a);
        assert(split(whole, separator) == split(a, separator) + split(b, separator));
    } else {
        lemma_split_join(a, b.drop_last(), separator);
        lemma_split_not_empty(b.drop_last(), separator);
        assert(whole.drop_last() == a.push(separator) + b.drop_last());
        assert(whole.last() == b.last());
        let front = split(a, separator) + split(b.drop_last(), separator);
        assert(front.drop_last() == split(a, separator) + split(
            b.drop_last(),
            separator,
        ).drop_last());
        assert(split(whole, separator) == split(a, separator) + split(b, separator));
    }
}

/// No piece holds the separator.
pub proof fn lemma_pieces_hold_no_separator(s: Seq<char>, separator: char)
    ensures
        forall|i: int|
            0 <= i < split(s, separator).len() ==> !(#[trigger] split(s, separator)[i]).contains(
                separator,
            ),
    decreases s.len(),
{
    if s.len() > 0 {
        lemma_pieces_hold_no_separator(s.drop_last(), separator);
        lemma_split_not_empty(s.drop_last(), separator);
        let front = split(s.drop_last(), separator);
        let all = split(s, separator);
        assert forall|i: int| 0 <= i < all.len() implies !(#[trigger] all[i]).contains(
            separator,
        ) by {
            if s.last() != separator && i == front.len() - 1 {
                let piece = front[i];
                assert forall|k: int| 0 <= k < all[i].len() implies all[i][k] != separator by {
                    if k < piece.len() {
                        assert(all[i][k] == piece[k]);
                        assert(!piece.contains(separator));
                    }
                }
            } else if i < front.len() {
                assert(all[i] == front[i]);
            }
        }
    }
}

/// Cuts `s` at each occurrence of `separator`.
pub fn split_at_char(s: &str, separator: char) -> (r: Vec<String>)
    ensures
        r.deep_view() == split(s@, separator),
{
    let chars = chars_of(s);
    let mut r: Vec<String> = Vec::new();
    let mut piece = String::new();
    let mut i: usize = 0;
    assert(r.deep_view().push(piece@) == split(s@.take(0), separator));
    while i < chars.len()
        invariant
            i <= chars.len(),
            chars@ == s@,
            r.deep_view().push(piece@) == split(s@.take(i as int), separator),
        decreases chars.len() - i,
    {
        let c = chars[i];
        let ghost done = r.deep_view();
        let ghost open_piece = piece@;
        proof {
            let next = s@.take(i + 1);
            assert(next.drop_last() == s@.take(i as int));
            assert(next.last() == c);
            let front = split(s@.take(i as int), separator);
            assert(front.drop_last() == done);
            assert(front.last() == open_piece);
        }
        if c == separator {
            r.push(piece);
            piece = String::new();
            assert(r.deep_view() == done.push(open_piece));
        } else {
            piece.push(c);
        }
        i += 1;
    }
    assert(s@.take(s@.len() as int) == s@);
    let ghost done = r.deep_view();
    r.push(piece);
    assert(r.deep_view() == done.push(piece@));
    r
}

/// Whether `c` has the Unicode property White_Space.
pub open spec fn is_space(c: char) -> bool {
    let n = c as u32;
    ||| 9 <= n <= 13
    ||| n == 32
    ||| n == 0x85
    ||| n == 0xA0
    ||| n == 0x1680
    ||| 0x2000 <= n <= 0x200A
    ||| n == 0x2028
    ||| n == 0x2029
    ||| n == 0x202F
    ||| n == 0x205F
    ||| n == 0x3000
}

/// Tells whether `c` has the Unicode property White_Space.
pub fn is_whitespace(c: char) -> (r: bool)
    ensures
        r == is_space(c),
{
    let n: u32 = c as u32;
    (9 <= n && n <= 13) || n == 32 || n == 0x85 || n == 0xA0 || n == 0x1680 || (0x2000 <= n && n
        <= 0x200A) || n == 0x2028 || n == 0x2029 || n == 0x202F || n == 0x205F || n == 0x3000
}

/// `s` without the white space at its start.
pub open spec fn trim_start(s: Seq<char>) -> Seq<char>
    decreases s.len(),
{
    if s.len() > 0 && is_space(s[0]) {
        trim_start(s.drop_first())
    } else {
        s
    }
}

/// `s` without the white space at its end.
pub open spec fn trim_end(s: Seq<char>) -> Seq<char>
    decreases s.len(),
{
    if s.len() > 0 && is_space(s.last()) {
        trim_end(s.drop_last())
    } else {
        s
    }
}

/// `s` without the white space around it.
pub open spec fn trim(s: Seq<char>) -> Seq<char> {
    trim_end(trim_start(s))
}

/// Drops the white space around `s`.
pub fn trimmed(s: &str) -> (r: String)
    ensures
        r@ == trim(s@),
{
    let chars = chars_of(s);
    let mut start: usize = 0;
    assert(s@.skip(0) == s@);
    while start < chars.len() && is_whitespace(chars[start])
        invariant
            start <= chars.len(),
            chars@ == s@,
            trim_start(s@) == trim_start(s@.skip(start as int)),
        decreases chars.len() - start,
    {
        assert(s@.skip(start as int).drop_first() == s@.skip(start + 1));
        start += 1;
    }
    let ghost rest = s@.skip(start as int);
    assert(trim_start(s@) == rest);
    let mut end: usize = chars.len();
    assert(rest.take(rest.len() as int) == rest);
    while end > start && is_whitespace(chars[end - 1])
        invariant
            start <= end <= chars.len(),
            chars@ == s@,
            rest == s@.skip(start as int),
            trim_end(rest) == trim_end(rest.take(end - start)),
        decreases end,
    {
        assert(rest.take(end - start).drop_last() == rest.take(end - start - 1));
        assert(rest.take(end - start).last() == s@[end - 1]);
        end -= 1;
    }
    assert(end > start ==> rest.take(end - start).last() == s@[end - 1]);
    assert(trim_end(rest) == rest.take(end - start));
    assert(rest.take(end - start) == s@.subrange(start as int, end as int));
    s.substring_char(start, end).to_owned()
}

/// A text in quotes with its special characters escaped, as the debug format shows it.
pub uninterp spec fn debug_text(s: Seq<char>) -> Seq<char>;

/// Formats `s` with `{:?}` of `std::fmt`. What the text looks like is left open; it is taken to
/// depend on `s` alone.
#[verifier::external_body]
pub(crate) fn debug_string(s: &str) -> (r: String)
    ensures
        r@ == debug_text(s@),
{
    format!("{s:?}")
}

/// The text of a byte string, with a replacement character in place of what is not UTF-8.
pub uninterp spec fn lossy_text(bytes: Seq<u8>) -> Seq<char>;

/// Calls `String::from_utf8_lossy` of std. It is taken to give the text that the bytes encode
/// where they are valid UTF-8; what it gives otherwise is left open, and depends on the bytes
/// alone.
#[verifier::external_body]
pub(crate) fn lossy_string(bytes: &[u8]) -> (r: String)
    ensures
        r@ == lossy_text(bytes@),
        vstd::utf8::valid_utf8(bytes@) ==> r@ == vstd::utf8::decode_utf8(bytes@),
{
    String::from_utf8_lossy(bytes).into_owned()
}

/// A decimal digit as a character.
pub open spec fn digit_char(d: nat) -> char
    recommends
        d < 10,
{
    (48 + d) as u8 as char
}

/// `n` written in decimal without leading zeros.
pub open spec fn decimal(n: nat) -> Seq<char>
    decreases n,
{
    if n < 10 {
        seq![digit_char(n)]
    } else {
        decimal(n / 10).push(digit_char(n % 10))
    }
}

/// Writes `n` in decimal.
pub fn to_decimal(n: u128) -> (r: String)
    ensures
        r@ == decimal(n as nat),
    decreases n,
{
    let d: u8 = (n % 10) as u8;
    if n < 10 {
        let mut r = String::new();
        r.push((48 + d) as char);
        r
    } else {
        let mut r = to_decimal(n / 10);
        r.push((48 + d) as char);
        r
    }
}

/// `s` with zeros in front up to a width.
pub open spec fn zero_padded(s: Seq<char>, width: nat) -> Seq<char>
    decreases width - s.len(),
{
    if s.len() >= width {
        s
    } else {
        zero_padded(seq!['0'] + s, width)
    }
}

/// A number in decimal with zeros in front up to a width, the sign counted.
pub open spec fn signed_padded(n: int, width: nat) -> Seq<char> {
    if n < 0 {
        "-"@ + zero_padded(decimal((-n) as nat), (width - 1) as nat)
    } else {
        zero_padded(decimal(n as nat), width)
    }
}

/// Writes zeros in front of `s` up to `width`.
pub fn pad_zeros(s: String, width: usize) -> (r: String)
    ensures
        r@ == zero_padded(s@, width as nat),
{
    let mut r = s;
    let mut n: usize = r.as_str().unicode_len();
    while n < width
        invariant
            n == r@.len(),
            zero_padded(r@, width as nat) == zero_padded(s@, width as nat),
        decreases width - n,
    {
        let mut longer = "0".to_owned();
        longer.append(r.as_str());
        proof {
            reveal_strlit("0");
            assert(longer@ == seq!['0'] + r@);
        }
        r = longer;
        n += 1;
    }
    r
}

/// Writes a number with zeros in front up to `width`, the sign counted.
pub fn pad_number(n: i32, width: usize) -> (r: String)
    requires
        width > 0,
    ensures
        r@ == signed_padded(n as int, width as nat),
{
    if n < 0 {
        let magnitude: u128 = (-(n as i64)) as u128;
        "-".to_owned().concat(pad_zeros(to_decimal(magnitude), width - 1).as_str())
    } else {
        pad_zeros(to_decimal(n as u128), width)
    }
}

/// A padded text has the width asked for, unless it was longer already.
pub proof fn lemma_zero_padded_len(s: Seq<char>, width: nat)
    ensures
        zero_padded(s, width).len() == if s.len() >= width {
            s.len()
        } else {
            width
        },
    decreases width - s.len(),
{
    if s.len() < width {
        lemma_zero_padded_len(seq!['0'] + s, width);
    }
}

/// Decimal numbers hold digits only.
pub proof fn lemma_decimal_digits(n: nat)
    ensures
        decimal(n).len() > 0,
        forall|i: int| 0 <= i < decimal(n).len() ==> '0' <= #[trigger] decimal(n)[i] <= '9',
    decreases n,
{
    if n >= 10 {
        lemma_decimal_digits(n / 10);
    }
}

/// Splitting cuts at every separator and nowhere else: a text without a separator is one piece, and
/// a piece behind a separator is a piece of its own.
pub proof fn law_split_cuts_at_separators(a: Seq<char>, b: Seq<char>, separator: char)
    requires
        !b.contains(separator),
    ensures
        split(b, separator) == seq![b],
        split(a.push(separator) + b, separator) == split(a, separator).push(b),
    decreases b.len(),
{
    if b.len() == 0 {
        assert(b == Seq::<char>::empty());
    } else {
        assert(b.last() != separator) by {
            assert(b.contains(b.last()));
        }
        assert forall|c: char| b.drop_last().contains(c) implies b.contains(c) by {
            let i = choose|i: int| 0 <= i < b.drop_last().len() && b.drop_last()[i] == c;
            assert(b[i] == c);
        }
        law_split_cuts_at_separators(a, b.drop_last(), separator);
        assert(b.drop_last().push(b.last()) == b);
        assert(seq![b.drop_last()].drop_last().push(b) == seq![b]);
    }
    lemma_split_join(a, b, separator);
    assert(split(a, separator) + seq![b] == split(a, separator).push(b));
}

/// Only the capital letters from `A` to `Z` become small, each the letter of its own; everything
/// else stays as it is, and in its place.
pub proof fn law_lower_case_changes_capitals_only(s: Seq<char>)
    ensures
        ascii_lower(s).len() == s.len(),
        forall|i: int|
            #![trigger ascii_lower(s)[i]]
            0 <= i < s.len() ==> if 65 <= s[i] as int && s[i] as int <= 90 {
                ascii_lower(s)[i] as int == s[i] as int + 32
            } else {
                ascii_lower(s)[i] == s[i]
            },
{
}

/// The printable characters of ASCII are no white space; blanks, tabs and the ends of lines are.
pub proof fn law_printable_ascii_is_no_space(c: char)
    ensures
        33 <= c as int <= 126 ==> !is_space(c),
        is_space(' '),
        is_space('\t'),
        is_space('\n'),
        is_space('\r'),
{
}

proof fn lemma_trim_start(s: Seq<char>) -> (lead: int)
    ensures
        0 <= lead <= s.len(),
        trim_start(s) == s.skip(lead),
        forall|i: int| 0 <= i < lead ==> is_space(#[trigger] s[i]),
        lead < s.len() ==> !is_space(s[lead]),
    decreases s.len(),
{
    if s.len() > 0 && is_space(s[0]) {
        let rest = s.drop_first();
        let inner = lemma_trim_start(rest);
        assert(rest.skip(inner) == s.skip(inner + 1));
        assert forall|i: int| 0 <= i < inner + 1 implies is_space(#[trigger] s[i]) by {
            if i > 0 {
                assert(rest[i - 1] == s[i]);
            }
        }
        if inner < rest.len() {
            assert(rest[inner] == s[inner + 1]);
        }
        inner + 1
    } else {
        assert(s.skip(0) == s);
        0
    }
}

proof fn lemma_trim_end(s: Seq<char>) -> (end: int)
    ensures
        0 <= end <= s.len(),
        trim_end(s) == s.take(end),
        forall|i: int| end <= i < s.len() ==> is_space(#[trigger] s[i]),
        end > 0 ==> !is_space(s[end - 1]),
    decreases s.len(),
{
    if s.len() > 0 && is_space(s.last()) {
        let end = lemma_trim_end(s.drop_last());
        assert(s.drop_last().take(end) == s.take(end));
        assert forall|i: int| end <= i < s.len() implies is_space(#[trigger] s[i]) by {
            if i < s.len() - 1 {
                assert(s.drop_last()[i] == s[i]);
            }
        }
        end
    } else {
        assert(s.take(s.len() as int) == s);
        s.len() as int
    }
}

/// Trimming takes white space off both ends, all of it, and nothing else.
pub proof fn law_trim_takes_outer_space_only(s: Seq<char>)
    ensures
        exists|from: int, to: int|
            #![trigger s.subrange(from, to)]
            0 <= from <= to <= s.len() && trim(s) == s.subrange(from, to) && (forall|i: int|
                0 <= i < from || to <= i < s.len() ==> is_space(#[trigger] s[i])) && (from < to
                ==> !is_space(s[from]) && !is_space(s[to - 1])),
{
    let from = lemma_trim_start(s);
    let rest = s.skip(from);
    let end = lemma_trim_end(rest);
    assert(rest.take(end) == s.subrange(from, from + end));
    assert forall|i: int| 0 <= i < from || from + end <= i < s.len() implies is_space(
        #[trigger] s[i],
    ) by {
        if i >= from {
            assert(rest[i - from] == s[i]);
        }
    }
    if end > 0 {
        assert(rest[end - 1] == s[from + end - 1]);
    }
}

/// The number that decimal digits stand for.
pub open spec fn number_of(digits: Seq<char>) -> int
    decreases digits.len(),
{
    if digits.len() == 0 {
        0
    } else {
        number_of(digits.drop_last()) * 10 + (digits.last() as int - 48)
    }
}

/// The decimal digits of a number stand for it, with no zero in front of a number above zero.
pub proof fn law_decimal_is_the_number(n: nat)
    ensures
        number_of(decimal(n)) == n,
        n > 0 ==> decimal(n)[0] != '0',
        forall|i: int| 0 <= i < decimal(n).len() ==> '0' <= #[trigger] decimal(n)[i] <= '9',
    decreases n,
{
    lemma_decimal_digits(n);
    if n >= 10 {
        law_decimal_is_the_number(n / 10);
        lemma_decimal_digits(n / 10);
        assert(decimal(n).drop_last() == decimal(n / 10));
    } else {
        assert(decimal(n).drop_last().len() == 0);
        reveal_with_fuel(number_of, 2);
    }
}

/// Padding puts zeros in front, up to the width and no further.
pub proof fn law_padding_puts_zeros_in_front(s: Seq<char>, width: nat)
    ensures
        s.is_suffix_of(zero_padded(s, width)),
        zero_padded(s, width).len() == if s.len() < width {
            width
        } else {
            s.len()
        },
        forall|i: int|
            0 <= i < zero_padded(s, width).len() - s.len() ==> #[trigger] zero_padded(s, width)[i]
                == '0',
    decreases width - s.len(),
{
    lemma_zero_padded_len(s, width);
    if s.len() < width {
        let longer = seq!['0'] + s;
        law_padding_puts_zeros_in_front(longer, width);
        let all = zero_padded(s, width);
        let skipped = all.len() - longer.len();
        assert(all.skip(skipped) == longer);
        assert(all.skip(skipped + 1) == longer.skip(1));
        assert(longer.skip(1) == s);
        assert(all[skipped] == all.skip(skipped)[0]);
    } else {
        assert(s.skip(0) == s);
    }
}

/// Whether two texts differ at most in the case of the letters from `a` to `z`.
pub open spec fn same_letters(a: Seq<char>, b: Seq<char>) -> bool {
    &&& a.len() == b.len()
    &&& forall|i: int|
        #![trigger a[i]]
        #![trigger b[i]]
        0 <= i < a.len() ==> {
            ||| a[i] == b[i]
            ||| 65 <= a[i] as int <= 90 && b[i] as int == a[i] as int + 32
            ||| 65 <= b[i] as int <= 90 && a[i] as int == b[i] as int + 32
        }
}

/// Making letters small makes two texts the same exactly if they differ in case only.
pub proof fn law_lower_case_forgets_case_only(a: Seq<char>, b: Seq<char>)
    ensures
        ascii_lower(a) == ascii_lower(b) <==> same_letters(a, b),
{
    law_lower_case_changes_capitals_only(a);
    law_lower_case_changes_capitals_only(b);
    if ascii_lower(a) == ascii_lower(b) {
        assert forall|i: int| 0 <= i < a.len() implies {
            ||| a[i] == b[i]
            ||| 65 <= a[i] as int <= 90 && b[i] as int == a[i] as int + 32
            ||| 65 <= b[i] as int <= 90 && a[i] as int == b[i] as int + 32
        } by {
            assert(ascii_lower(a)[i] == ascii_lower(b)[i]);
        }
    }
    if same_letters(a, b) {
        assert forall|i: int| 0 <= i < a.len() implies ascii_lower(a)[i] == ascii_lower(b)[i] by {
            assert(a[i] == a[i]);
        }
        assert(ascii_lower(a) =~= ascii_lower(b));
    }
}

/// Padding a number does not change it.
pub proof fn law_padding_keeps_the_number(s: Seq<char>, width: nat)
    ensures
        number_of(zero_padded(s, width)) == number_of(s),
    decreases width - s.len(),
{
    if s.len() < width {
        law_padding_keeps_the_number(seq!['0'] + s, width);
        lemma_leading_zero(s);
    }
}

proof fn lemma_leading_zero(s: Seq<char>)
    ensures
        number_of(seq!['0'] + s) == number_of(s),
    decreases s.len(),
{
    let all = seq!['0'] + s;
    if s.len() == 0 {
        assert(all.drop_last().len() == 0);
        reveal_with_fuel(number_of, 2);
    } else {
        assert(all.drop_last() =~= seq!['0'] + s.drop_last());
        assert(all.last() == s.last());
        lemma_leading_zero(s.drop_last());
    }
}

/// Whether a text begins or ends with another, or holds a character, is a matter of the characters
/// at those places.
pub proof fn law_texts_are_looked_into(
    s: &str,
    part: &str,
    c: char,
    begins: bool,
    ends: bool,
    holds: bool,
)
    requires
        call_ensures(has_prefix, (s, part), begins),
        call_ensures(has_suffix, (s, part), ends),
        call_ensures(has_char, (s, c), holds),
    ensures
        begins <==> part@.len() <= s@.len() && forall|i: int|
            0 <= i < part@.len() ==> #[trigger] s@[i] == part@[i],
        ends <==> part@.len() <= s@.len() && forall|i: int|
            0 <= i < part@.len() ==> s@[s@.len() - part@.len() + i] == #[trigger] part@[i],
        holds <==> exists|i: int| 0 <= i < s@.len() && #[trigger] s@[i] == c,
{
    let n = part@.len() as int;
    let m = s@.len() as int;
    if begins {
        assert forall|i: int| 0 <= i < n implies #[trigger] s@[i] == part@[i] by {
            assert(s@.take(n)[i] == s@[i]);
        }
    }
    if n <= m && (forall|i: int| 0 <= i < n ==> #[trigger] s@[i] == part@[i]) {
        assert(s@.take(n) =~= part@);
    }
    if ends {
        assert forall|i: int| 0 <= i < n implies s@[m - n + i] == #[trigger] part@[i] by {
            assert(s@.skip(m - n)[i] == s@[m - n + i]);
        }
    }
    if n <= m && (forall|i: int| 0 <= i < n ==> s@[m - n + i] == #[trigger] part@[i]) {
        assert(s@.skip(m - n) =~= part@);
    }
}

/// The last occurrence of a text is one, and none begins behind it; there is none exactly if it does
/// not occur.
pub proof fn law_the_last_occurrence_is_found(s: &str, sub: &str, r: Option<usize>, at: int)
    requires
        call_ensures(last_occurrence, (s, sub), r),
    ensures
        r is Some ==> occurs_at(s@, sub@, r->Some_0 as int),
        occurs_at(s@, sub@, at) ==> r is Some && at <= r->Some_0,
{
}

} // verus!
