//! DASH manifest parsing and preview detection.
//!
//! A manifest arrives base64-encoded and is either a JSON document with
//! direct URLs (no segments, so nothing to stream progressively) or a DASH
//! XML document.  From the XML the parser extracts the `initialization`
//! attribute value, the `media` attribute value (a URL template containing
//! `$Number$`), and the segment count: every `<S ...>` element of the
//! timeline contributes `1 + r` segments, where `r` is its repeat attribute
//! (0 when absent).  `&amp;` is decoded to `&` in both URLs.

use vstd::prelude::*;
use vstd::string::StrSliceExecFns;
use vstd::string::StringSliceAdditionalSpecFns;

use base64::Engine;

use crate::errors::ManifestError;
use crate::text::AMPERSAND;
use crate::text::QUOTE;
use crate::text::all_ascii_digits;
use crate::text::copy_range;
use crate::text::dec_rep;
use crate::text::dec_value;
use crate::text::find_at;
use crate::text::find_sub;
use crate::text::is_ascii_digit;
use crate::text::is_ascii_space;
use crate::text::lemma_find_at_some;
use crate::text::matches_at;
use crate::text::parse_u64_dec;
use crate::text::replace_all;
use crate::text::replace_all_bytes;
use crate::text::u64_to_dec_bytes;

verus! {

/// A full track is expected to have at least this many segments; below it a
/// manifest is suspected to be a preview.
pub const MIN_SEGMENTS_FOR_FULL_TRACK: usize = 20;

/// Largest segment count the planner can hold: positions in seconds (four
/// per segment) must fit in a `usize`.
pub const SEGMENT_CAP: usize = usize::MAX / 4;

/// ASCII code of `>`.
pub const TAG_CLOSE: u8 = 62;

/// ASCII code of `{`.
pub const LEFT_BRACE: u8 = 123;

// ---------------------------------------------------------------------------
// The byte patterns the scanner looks for.
// ---------------------------------------------------------------------------

pub open spec fn init_attr_pat() -> Seq<u8> {
    "initialization=\"".spec_bytes()
}

pub open spec fn media_attr_pat() -> Seq<u8> {
    "media=\"".spec_bytes()
}

pub open spec fn amp_entity() -> Seq<u8> {
    "&amp;".spec_bytes()
}

pub open spec fn number_token() -> Seq<u8> {
    "$Number$".spec_bytes()
}

pub open spec fn s_open_pat() -> Seq<u8> {
    "<S".spec_bytes()
}

pub open spec fn repeat_attr_pat() -> Seq<u8> {
    "r=\"".spec_bytes()
}

fn init_attr_pat_exec() -> (r: Vec<u8>)
    ensures
        r@ == init_attr_pat(),
        r@.len() == 16,
{
    let s = "initialization=\"";
    proof {
        reveal_strlit("initialization=\"");
        assert(s.is_ascii());
        vstd::string::is_ascii_spec_bytes(s);
    }
    s.as_bytes_vec()
}

fn media_attr_pat_exec() -> (r: Vec<u8>)
    ensures
        r@ == media_attr_pat(),
        r@.len() == 7,
{
    let s = "media=\"";
    proof {
        reveal_strlit("media=\"");
        assert(s.is_ascii());
        vstd::string::is_ascii_spec_bytes(s);
    }
    s.as_bytes_vec()
}

fn amp_entity_exec() -> (r: Vec<u8>)
    ensures
        r@ == amp_entity(),
        r@.len() == 5,
{
    let s = "&amp;";
    proof {
        reveal_strlit("&amp;");
        assert(s.is_ascii());
        vstd::string::is_ascii_spec_bytes(s);
    }
    s.as_bytes_vec()
}

fn number_token_exec() -> (r: Vec<u8>)
    ensures
        r@ == number_token(),
        r@.len() == 8,
{
    let s = "$Number$";
    proof {
        reveal_strlit("$Number$");
        assert(s.is_ascii());
        vstd::string::is_ascii_spec_bytes(s);
    }
    s.as_bytes_vec()
}

/// The bytes of the repeat-attribute pattern, spelled out for the scanner.
proof fn lemma_repeat_attr_bytes()
    ensures
        repeat_attr_pat() =~= seq![114u8, 61u8, 34u8],
{
    let s = "r=\"";
    reveal_strlit("r=\"");
    assert(s.is_ascii());
    vstd::string::is_ascii_spec_bytes(s);
}

/// The bytes of the `<S` pattern, spelled out for the scanner.
proof fn lemma_s_open_bytes()
    ensures
        s_open_pat() =~= seq![60u8, 83u8],
{
    let s = "<S";
    reveal_strlit("<S");
    assert(s.is_ascii());
    vstd::string::is_ascii_spec_bytes(s);
}

// ---------------------------------------------------------------------------
// Attribute extraction.
// ---------------------------------------------------------------------------

/// `&amp;` entities decoded to plain ampersands.
pub open spec fn decode_entities(s: Seq<u8>) -> Seq<u8> {
    replace_all(s, amp_entity(), seq![AMPERSAND])
}

/// The raw (not yet entity-decoded) value of the first attribute occurrence
/// matching `pat` (a pattern ending in the opening quote): the bytes between
/// the pattern and the next double quote.
pub open spec fn spec_attr_value(h: Seq<u8>, pat: Seq<u8>) -> Option<Seq<u8>> {
    match find_at(h, pat, 0) {
        Option::None => Option::None,
        Option::Some(i) => match find_at(h, seq![QUOTE], i + pat.len()) {
            Option::None => Option::None,
            Option::Some(e) => Option::Some(h.subrange(i + pat.len(), e)),
        },
    }
}

/// True when the manifest carries a non-empty value for the attribute.
pub open spec fn has_attr_value(h: Seq<u8>, pat: Seq<u8>) -> bool {
    match spec_attr_value(h, pat) {
        Option::Some(v) => v.len() > 0,
        Option::None => false,
    }
}

/// Extract and entity-decode the first value of the given attribute.
/// Returns `None` when the attribute or its closing quote is missing or the
/// value is empty.
fn extract_attr(h: &Vec<u8>, pat: &Vec<u8>) -> (r: Option<Vec<u8>>)
    requires
        pat@.len() >= 1,
    ensures
        match r {
            Option::Some(v) => has_attr_value(h@, pat@) && v@ == decode_entities(
                spec_attr_value(h@, pat@)->Some_0,
            ),
            Option::None => !has_attr_value(h@, pat@),
        },
{
    let found = find_sub(h, pat, 0);
    match found {
        Option::None => Option::None,
        Option::Some(i) => {
            let hn: usize = h.len();
            proof {
                assert(hn == h@.len());
                lemma_find_at_some(h@, pat@, 0, i as int);
            }
            let start: usize = i + pat.len();
            let mut quote: Vec<u8> = Vec::new();
            quote.push(QUOTE);
            proof {
                assert(quote@ =~= seq![QUOTE]);
            }
            let closing = find_sub(h, &quote, start);
            match closing {
                Option::None => Option::None,
                Option::Some(e) => {
                    proof {
                        lemma_find_at_some(h@, quote@, start as int, e as int);
                    }
                    if e == start {
                        // Empty attribute value: treated as missing.
                        proof {
                            assert(h@.subrange(start as int, e as int) =~= Seq::<u8>::empty());
                        }
                        Option::None
                    } else {
                        let raw = copy_range(h, start, e);
                        let amp = amp_entity_exec();
                        let mut plain: Vec<u8> = Vec::new();
                        plain.push(AMPERSAND);
                        proof {
                            assert(plain@ =~= seq![AMPERSAND]);
                        }
                        Option::Some(replace_all_bytes(&raw, &amp, &plain))
                    }
                },
            }
        },
    }
}

// ---------------------------------------------------------------------------
// Segment counting.
// ---------------------------------------------------------------------------

/// True when an `<S` element (followed by whitespace, so `<Sx...` does not
/// count) opens at index `i`.
pub open spec fn is_s_elem_at(h: Seq<u8>, i: int) -> bool {
    &&& matches_at(h, s_open_pat(), i)
    &&& i + 2 < h.len()
    &&& is_ascii_space(h[i + 2])
}

/// Index of the first `<S ` element at or after `from`.
pub open spec fn find_s_elem(h: Seq<u8>, from: int) -> Option<int>
    decreases h.len() + 1 - from,
{
    if from < 0 || from + 3 > h.len() {
        Option::None
    } else if is_s_elem_at(h, from) {
        Option::Some(from)
    } else {
        find_s_elem(h, from + 1)
    }
}

proof fn lemma_find_s_elem_some(h: Seq<u8>, from: int, i: int)
    requires
        find_s_elem(h, from) == Option::<int>::Some(i),
    ensures
        from <= i,
        is_s_elem_at(h, i),
        i + 3 <= h.len(),
    decreases h.len() + 1 - from,
{
    if !(from < 0 || from + 3 > h.len()) {
        if is_s_elem_at(h, from) {
        } else {
            lemma_find_s_elem_some(h, from + 1, i);
        }
    }
}

/// First index at or after `k` holding a non-digit (or the end of `s`).
pub open spec fn digit_run_end(s: Seq<u8>, k: int) -> int
    decreases s.len() + 1 - k,
{
    if k < 0 || k >= s.len() {
        k
    } else if is_ascii_digit(s[k]) {
        digit_run_end(s, k + 1)
    } else {
        k
    }
}

proof fn lemma_digit_run_end(s: Seq<u8>, k: int)
    requires
        0 <= k <= s.len(),
    ensures
        k <= digit_run_end(s, k) <= s.len(),
        forall|m: int| k <= m < digit_run_end(s, k) ==> is_ascii_digit(#[trigger] s[m]),
    decreases s.len() + 1 - k,
{
    if k < s.len() && is_ascii_digit(s[k]) {
        lemma_digit_run_end(s, k + 1);
    }
}

/// First position `j` in an element's text where whitespace is followed by
/// `r="`, marking the repeat attribute.
pub open spec fn find_repeat_attr(e: Seq<u8>, from: int) -> Option<int>
    decreases e.len() + 1 - from,
{
    if from < 0 || from + 4 > e.len() {
        Option::None
    } else if is_ascii_space(e[from]) && matches_at(e, repeat_attr_pat(), from + 1) {
        Option::Some(from)
    } else {
        find_repeat_attr(e, from + 1)
    }
}

proof fn lemma_find_repeat_attr_some(e: Seq<u8>, from: int, j: int)
    requires
        find_repeat_attr(e, from) == Option::<int>::Some(j),
    ensures
        from <= j,
        j + 4 <= e.len(),
        is_ascii_space(e[j]),
        matches_at(e, repeat_attr_pat(), j + 1),
    decreases e.len() + 1 - from,
{
    if !(from < 0 || from + 4 > e.len()) {
        if is_ascii_space(e[from]) && matches_at(e, repeat_attr_pat(), from + 1) {
        } else {
            lemma_find_repeat_attr_some(e, from + 1, j);
        }
    }
}

/// Repeat count of one `<S ...>` element: the decimal value after its first
/// ` r="` attribute, or 0 when the attribute is absent.
pub open spec fn elem_repeat(e: Seq<u8>) -> nat {
    match find_repeat_attr(e, 0) {
        Option::None => 0,
        Option::Some(j) => dec_value(e.subrange(j + 4, digit_run_end(e, j + 4))),
    }
}

/// Total number of segments declared by the timeline from position `from`
/// on: each complete `<S ...>` element contributes `1 + r`.
pub open spec fn count_segments_from(h: Seq<u8>, from: int) -> nat
    decreases h.len() + 1 - from,
    when from >= 0
    via count_segments_from_decreases
{
    match find_s_elem(h, from) {
        Option::None => 0,
        Option::Some(i) => match find_at(h, seq![TAG_CLOSE], i) {
            Option::None => 0,
            Option::Some(e) => (1 + elem_repeat(h.subrange(i, e)) + count_segments_from(
                h,
                e + 1,
            )) as nat,
        },
    }
}

#[via_fn]
proof fn count_segments_from_decreases(h: Seq<u8>, from: int) {
    match find_s_elem(h, from) {
        Option::None => {},
        Option::Some(i) => {
            lemma_find_s_elem_some(h, from, i);
            match find_at(h, seq![TAG_CLOSE], i) {
                Option::None => {},
                Option::Some(e) => {
                    lemma_find_at_some(h, seq![TAG_CLOSE], i, e);
                },
            }
        },
    }
}

/// The segment count declared by the whole manifest.
pub open spec fn spec_segment_count(h: Seq<u8>) -> nat {
    count_segments_from(h, 0)
}

/// Scan one element for its repeat count.  `None` means the count does not
/// fit in a `u64`.
#[verifier::loop_isolation(false)]
fn elem_repeat_exec(e: &Vec<u8>) -> (r: Option<u64>)
    ensures
        match r {
            Option::Some(v) => v == elem_repeat(e@),
            Option::None => elem_repeat(e@) > u64::MAX,
        },
{
    let found = find_repeat_attr_exec(e);
    match found {
        Option::None => {
            proof {
                assert(find_repeat_attr(e@, 0) is None);
            }
            Option::Some(0)
        },
        Option::Some(j) => {
            let en: usize = e.len();
            proof {
                assert(en == e@.len());
                lemma_find_repeat_attr_some(e@, 0, j as int);
            }
            let start: usize = j + 4;
            let mut k: usize = start;
            while k < e.len() && e[k] >= 48 && e[k] <= 57
                invariant
                    start <= k <= e@.len(),
                    digit_run_end(e@, start as int) == digit_run_end(e@, k as int),
                decreases e@.len() - k,
            {
                k = k + 1;
            }
            proof {
                assert(digit_run_end(e@, k as int) == k);
            }
            if k == start {
                proof {
                    assert(e@.subrange(start as int, start as int) =~= Seq::<u8>::empty());
                }
                Option::Some(0)
            } else {
                let run = copy_range(e, start, k);
                let parsed = parse_u64_dec(&run);
                proof {
                    lemma_digit_run_end(e@, start as int);
                    assert(all_ascii_digits(run@));
                }
                parsed
            }
        },
    }
}

/// Find the position of the repeat attribute (whitespace followed by `r="`)
/// in an element's text.
#[verifier::loop_isolation(false)]
fn find_repeat_attr_exec(e: &Vec<u8>) -> (r: Option<usize>)
    ensures
        match r {
            Option::Some(j) => find_repeat_attr(e@, 0) == Option::<int>::Some(j as int),
            Option::None => find_repeat_attr(e@, 0) is None,
        },
{
    proof {
        lemma_repeat_attr_bytes();
    }
    if e.len() < 4 {
        return Option::None;
    }
    let mut j: usize = 0;
    let last: usize = e.len() - 4;
    while j <= last
        invariant
            0 <= j <= last + 1,
            e@.len() >= 4,
            last == e@.len() - 4,
            find_repeat_attr(e@, 0) == find_repeat_attr(e@, j as int),
        decreases last + 1 - j,
    {
        let b = e[j];
        if (b == 32 || b == 9 || b == 10 || b == 13) && e[j + 1] == 114 && e[j + 2] == 61 && e[j
            + 3] == 34 {
            proof {
                assert(e@.subrange(j + 1, j + 4) =~= repeat_attr_pat());
            }
            return Option::Some(j);
        }
        proof {
            if matches_at(e@, repeat_attr_pat(), j + 1) && is_ascii_space(e@[j as int]) {
                assert(e@.subrange(j + 1, j + 4)[0] == e@[j + 1]);
                assert(e@.subrange(j + 1, j + 4)[1] == e@[j + 2]);
                assert(e@.subrange(j + 1, j + 4)[2] == e@[j + 3]);
                assert(false);
            }
        }
        j = j + 1;
    }
    Option::None
}

/// Count the segments declared by the timeline.  `None` means the count
/// exceeds what the planner can hold.
#[verifier::loop_isolation(false)]
fn count_segments(h: &Vec<u8>) -> (r: Option<usize>)
    ensures
        match r {
            Option::Some(n) => n == spec_segment_count(h@) && n <= SEGMENT_CAP,
            Option::None => spec_segment_count(h@) > SEGMENT_CAP,
        },
{
    proof {
        lemma_s_open_bytes();
    }
    let mut gt: Vec<u8> = Vec::new();
    gt.push(TAG_CLOSE);
    proof {
        assert(gt@ =~= seq![TAG_CLOSE]);
    }
    let mut count: usize = 0;
    let mut pos: usize = 0;
    let hn: usize = h.len();
    loop
        invariant
            0 <= pos <= h@.len(),
            hn == h@.len(),
            count <= SEGMENT_CAP,
            gt@ == seq![TAG_CLOSE],
            count + count_segments_from(h@, pos as int) == spec_segment_count(h@),
        decreases h@.len() - pos,
    {
        let next = find_s_elem_exec(h, pos);
        match next {
            Option::None => {
                return Option::Some(count);
            },
            Option::Some(i) => {
                proof {
                    lemma_find_s_elem_some(h@, pos as int, i as int);
                }
                let close = find_sub(h, &gt, i);
                match close {
                    Option::None => {
                        return Option::Some(count);
                    },
                    Option::Some(e) => {
                        proof {
                            lemma_find_at_some(h@, gt@, i as int, e as int);
                        }
                        let elem = copy_range(h, i, e);
                        let rep = elem_repeat_exec(&elem);
                        let room: usize = SEGMENT_CAP - count;
                        match rep {
                            Option::None => {
                                return Option::None;
                            },
                            Option::Some(r) => {
                                if r >= room as u64 {
                                    return Option::None;
                                }
                                count = count + 1 + (r as usize);
                                pos = e + 1;
                            },
                        }
                    },
                }
            },
        }
    }
}

/// Find the next `<S ` element at or after `from`.
#[verifier::loop_isolation(false)]
fn find_s_elem_exec(h: &Vec<u8>, from: usize) -> (r: Option<usize>)
    requires
        from <= h@.len(),
    ensures
        match r {
            Option::Some(i) => find_s_elem(h@, from as int) == Option::<int>::Some(i as int),
            Option::None => find_s_elem(h@, from as int) is None,
        },
{
    proof {
        lemma_s_open_bytes();
    }
    if h.len() < 3 || from > h.len() - 3 {
        proof {
            lemma_find_s_elem_range_none(h@, from as int);
        }
        return Option::None;
    }
    let mut i: usize = from;
    let last: usize = h.len() - 3;
    while i <= last
        invariant
            from <= i <= last + 1,
            last == h@.len() - 3,
            find_s_elem(h@, from as int) == find_s_elem(h@, i as int),
        decreases last + 1 - i,
    {
        let b0 = h[i];
        let b1 = h[i + 1];
        let b2 = h[i + 2];
        if b0 == 60 && b1 == 83 && (b2 == 32 || b2 == 9 || b2 == 10 || b2 == 13) {
            proof {
                assert(h@.subrange(i as int, i + 2) =~= s_open_pat());
            }
            return Option::Some(i);
        }
        proof {
            if is_s_elem_at(h@, i as int) {
                assert(h@.subrange(i as int, i + 2)[0] == h@[i as int]);
                assert(h@.subrange(i as int, i + 2)[1] == h@[i + 1]);
                assert(false);
            }
        }
        i = i + 1;
    }
    proof {
        lemma_find_s_elem_range_none(h@, i as int);
    }
    Option::None
}

proof fn lemma_find_s_elem_range_none(h: Seq<u8>, from: int)
    requires
        from + 3 > h.len() || from < 0,
    ensures
        find_s_elem(h, from) is None,
{
}

// ---------------------------------------------------------------------------
// Manifest kind and preview detection.
// ---------------------------------------------------------------------------

/// Index of the first byte that is not ASCII whitespace.
pub open spec fn first_content(s: Seq<u8>, from: int) -> Option<int>
    decreases s.len() + 1 - from,
{
    if from < 0 || from >= s.len() {
        Option::None
    } else if is_ascii_space(s[from]) {
        first_content(s, from + 1)
    } else {
        Option::Some(from)
    }
}

/// A manifest whose first non-whitespace byte is `{` is a JSON (direct-URL)
/// document, not DASH.
pub open spec fn is_json_manifest(s: Seq<u8>) -> bool {
    match first_content(s, 0) {
        Option::Some(i) => s[i] == LEFT_BRACE,
        Option::None => false,
    }
}

/// Whether the manifest is a JSON (direct-URL) document.
#[verifier::loop_isolation(false)]
pub fn manifest_is_json(s: &Vec<u8>) -> (r: bool)
    ensures
        r == is_json_manifest(s@),
{
    let mut i: usize = 0;
    while i < s.len()
        invariant
            0 <= i <= s@.len(),
            first_content(s@, 0) == first_content(s@, i as int),
        decreases s@.len() - i,
    {
        let b = s[i];
        if !(b == 32 || b == 9 || b == 10 || b == 13) {
            return b == LEFT_BRACE;
        }
        i = i + 1;
    }
    false
}

/// Preview heuristic: a manifest with fewer than 20 segments is a preview,
/// unless a declared duration says that under twice as many segments as
/// present were expected.  With no declared duration, few segments alone
/// condemn it.
pub open spec fn spec_is_preview(total_segments: nat, expected_duration_ms: Option<u64>) -> bool {
    total_segments < MIN_SEGMENTS_FOR_FULL_TRACK && match expected_duration_ms {
        Option::Some(ms) => total_segments < ((ms / 1000) / 4) as nat / 2,
        Option::None => true,
    }
}

/// Whether a parsed manifest should be rejected as a preview.
pub fn is_preview_manifest(total_segments: usize, expected_duration_ms: Option<u64>) -> (r: bool)
    ensures
        r == spec_is_preview(total_segments as nat, expected_duration_ms),
{
    if total_segments >= MIN_SEGMENTS_FOR_FULL_TRACK {
        return false;
    }
    match expected_duration_ms {
        Option::Some(ms) => {
            let expected_segments: u64 = (ms / 1000) / 4;
            (total_segments as u64) < expected_segments / 2
        },
        Option::None => true,
    }
}

/// A declared duration that expects at least `2 n + 2` segments always
/// condemns a manifest of `n < 20` segments as a preview: the preview test
/// compares against half the expected count, and the two extra segments
/// absorb the halving's rounding.
pub proof fn lemma_preview_condition(n: nat, ms: u64)
    requires
        n < MIN_SEGMENTS_FOR_FULL_TRACK,
        (ms / 1000) / 4 >= 2 * n + 2,
    ensures
        spec_is_preview(n, Option::Some(ms)),
{
    let expected = ((ms / 1000) / 4) as nat;
    assert(expected / 2 >= (2 * n + 2) / 2) by {
        vstd::arithmetic::div_mod::lemma_div_is_ordered(2 * n as int + 2, expected as int, 2);
    }
    assert((2 * n + 2) / 2 == n + 1) by {
        vstd::arithmetic::div_mod::lemma_div_multiples_vanish(n as int + 1, 2);
        assert(2 * (n as int + 1) == 2 * n as int + 2) by (nonlinear_arith);
    }
}

// ---------------------------------------------------------------------------
// Parsing.
// ---------------------------------------------------------------------------

/// What the parser extracts from a DASH manifest: the two URLs are
/// entity-decoded; media segment URLs come from the template by substituting
/// the one-based segment number for `$Number$`.
#[derive(Debug, Clone, PartialEq, Eq)]
pub struct DashManifest {
    /// Entity-decoded URL of the init segment.
    pub init_url: Vec<u8>,
    /// Entity-decoded media URL template containing `$Number$`.
    pub media_template: Vec<u8>,
    /// Declared number of media segments.
    pub total_segments: usize,
}

impl DashManifest {
    /// The parser's guarantee relating a manifest's bytes to this value.
    pub open spec fn parsed_from(self, h: Seq<u8>) -> bool {
        &&& has_attr_value(h, init_attr_pat())
        &&& has_attr_value(h, media_attr_pat())
        &&& self.init_url@ == decode_entities(spec_attr_value(h, init_attr_pat())->Some_0)
        &&& self.media_template@ == decode_entities(spec_attr_value(h, media_attr_pat())->Some_0)
        &&& self.total_segments == spec_segment_count(h)
        &&& 1 <= self.total_segments <= SEGMENT_CAP
    }
}

/// Which parse error a DASH document gives, and when: the init URL is
/// checked first, then the media template, then the segment count.
pub open spec fn parse_failure(h: Seq<u8>, e: ManifestError) -> bool {
    ||| (e == ManifestError::MissingInitUrl && !has_attr_value(h, init_attr_pat()))
    ||| (e == ManifestError::MissingMediaTemplate && has_attr_value(h, init_attr_pat())
        && !has_attr_value(h, media_attr_pat()))
    ||| (e == ManifestError::NoSegments && has_attr_value(h, init_attr_pat()) && has_attr_value(
        h,
        media_attr_pat(),
    ) && spec_segment_count(h) == 0)
    ||| (e == ManifestError::TooManySegments && has_attr_value(h, init_attr_pat())
        && has_attr_value(h, media_attr_pat()) && spec_segment_count(h) > SEGMENT_CAP)
}

/// Parse a DASH manifest: extract the init URL, the media URL template and
/// the segment count.
pub fn parse_dash_manifest(h: &Vec<u8>) -> (r: Result<DashManifest, ManifestError>)
    ensures
        match r {
            Result::Ok(m) => m.parsed_from(h@),
            Result::Err(e) => parse_failure(h@, e),
        },
{
    let init_pat = init_attr_pat_exec();
    let media_pat = media_attr_pat_exec();
    let init_url = match extract_attr(h, &init_pat) {
        Option::Some(v) => v,
        Option::None => {
            return Result::Err(ManifestError::MissingInitUrl);
        },
    };
    let media_template = match extract_attr(h, &media_pat) {
        Option::Some(v) => v,
        Option::None => {
            return Result::Err(ManifestError::MissingMediaTemplate);
        },
    };
    let total_segments = match count_segments(h) {
        Option::Some(n) => n,
        Option::None => {
            return Result::Err(ManifestError::TooManySegments);
        },
    };
    if total_segments == 0 {
        return Result::Err(ManifestError::NoSegments);
    }
    Result::Ok(DashManifest { init_url, media_template, total_segments })
}

// ---------------------------------------------------------------------------
// Base64 decoding and the full preparation pipeline.
// ---------------------------------------------------------------------------

/// What the standard-alphabet base64 decoding of a string yields, or `None`
/// when the string is not valid base64.
pub uninterp spec fn base64_decoding(s: Seq<char>) -> Option<Seq<u8>>;

/// Relies on base64's `Engine::decode` with the standard alphabet: the
/// result is a function of the input characters alone.
#[verifier::external_body]
fn base64_decode(s: &str) -> (r: Option<Vec<u8>>)
    ensures
        match r {
            Option::Some(v) => base64_decoding(s@) == Option::Some(v@),
            Option::None => base64_decoding(s@) is None,
        },
{
    base64::engine::general_purpose::STANDARD.decode(s).ok()
}

/// Decode and validate a manifest for progressive streaming: base64-decode
/// it, refuse JSON (direct-URL) manifests, parse the DASH document, and
/// reject previews.  No state is touched; the caller installs a stream only
/// from an `Ok` result.
pub fn prepare_stream_manifest(manifest_b64: &str, expected_duration_ms: Option<u64>) -> (r: Result<
    DashManifest,
    ManifestError,
>)
    ensures
        match r {
            Result::Ok(m) => {
                &&& base64_decoding(manifest_b64@) matches Option::Some(h)
                &&& !is_json_manifest(h)
                &&& m.parsed_from(h)
                &&& !spec_is_preview(m.total_segments as nat, expected_duration_ms)
            },
            Result::Err(e) => {
                ||| (e == ManifestError::Decode && base64_decoding(manifest_b64@) is None)
                ||| (base64_decoding(manifest_b64@) matches Option::Some(h) && e
                    == ManifestError::NotDash && is_json_manifest(h))
                ||| (base64_decoding(manifest_b64@) matches Option::Some(h) && !is_json_manifest(
                    h,
                ) && parse_failure(h, e))
                ||| (base64_decoding(manifest_b64@) matches Option::Some(h) && !is_json_manifest(
                    h,
                ) && e == ManifestError::Preview && 1 <= spec_segment_count(h) <= SEGMENT_CAP
                    && spec_is_preview(spec_segment_count(h), expected_duration_ms))
            },
        },
{
    let decoded = match base64_decode(manifest_b64) {
        Option::Some(v) => v,
        Option::None => {
            return Result::Err(ManifestError::Decode);
        },
    };
    if manifest_is_json(&decoded) {
        return Result::Err(ManifestError::NotDash);
    }
    let parsed = match parse_dash_manifest(&decoded) {
        Result::Ok(m) => m,
        Result::Err(e) => {
            return Result::Err(e);
        },
    };
    if is_preview_manifest(parsed.total_segments, expected_duration_ms) {
        return Result::Err(ManifestError::Preview);
    }
    Result::Ok(parsed)
}

// ---------------------------------------------------------------------------
// Media segment URLs.
// ---------------------------------------------------------------------------

/// The URL of media segment `number` (one-based): the template with every
/// `$Number$` replaced by the decimal segment number.
pub open spec fn spec_media_url(template: Seq<u8>, number: nat) -> Seq<u8> {
    replace_all(template, number_token(), dec_rep(number))
}

/// Build the URL of media segment `number` (one-based) from the template.
pub fn media_url_bytes(template: &Vec<u8>, number: u64) -> (r: Vec<u8>)
    ensures
        r@ == spec_media_url(template@, number as nat),
{
    let digits = u64_to_dec_bytes(number);
    let token = number_token_exec();
    replace_all_bytes(template, &token, &digits)
}

} // verus!

