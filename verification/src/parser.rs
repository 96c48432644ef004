//! The structured-text parser: a pure, deterministic extraction of typed
//! entities from the loosely formatted markdown a completion provider
//! returns.
//!
//! A section is found by scanning for the leftmost `##` heading whose
//! title matches exactly (whitespace-tolerant around it); its body runs to
//! the next `"\n## "` or the end.  An event or dive section is split into
//! blocks at `"\n###"` followed by whitespace; within a block, lines of
//! the shape `- **Key**: value` populate a field map where the last
//! occurrence of a key wins and keys compare ASCII-case-insensitively.
//! Missing or malformed fields fall back to documented defaults; they
//! never raise an error.

use vstd::prelude::*;
use crate::text::{is_ws_char, ws_end, lemma_ws_end, ws_end_at, char_end, lemma_char_end,
    char_end_at, line_end, nxt_line, hash_end, hash_end_at, trim_seq, trim_vec, sub_vec,
    match_at, is_prefix, has_prefix, vecs_eq, find_from, lemma_find_from, find_at,
    to_chars, string_from_chars, lower_seq, lower_vec};
use crate::numbers::{spec_parse_i32, parse_i32_chars, is_f64_literal, check_f64_literal};
use crate::enums::{ConfidenceLevel, EventCategory};
use crate::events::{ViralEvent, ViralEventModel, DeepDive, DeepDiveModel, CompletenessAudit,
    CompletenessAuditModel, events_view, dives_view, strings_view};

verus! {

/// The view of an optional extracted piece of text.
pub open spec fn oview(o: Option<Vec<char>>) -> Option<Seq<char>> {
    match o {
        Some(v) => Some(v@),
        None => None,
    }
}

// ---------------------------------------------------------------------
// Section lookup
// ---------------------------------------------------------------------

/// Index of the last `'\n'` in `s[k..e)`, or `-1`.
pub open spec fn last_nl(s: Seq<char>, k: int, e: int) -> int
    decreases e - k,
{
    if k < e {
        if s[e - 1] == '\n' {
            e - 1
        } else {
            last_nl(s, k, e - 1)
        }
    } else {
        -1
    }
}

/// Where the body of a section starts when a heading for `title` begins
/// exactly at `i`: after `##`, optional whitespace, the exact title, then
/// a whitespace run that must contain a newline; the body starts after
/// the last newline of that run.  `-1` when no heading matches at `i`.
pub open spec fn heading_body_start(s: Seq<char>, i: int, title: Seq<char>) -> int {
    if 0 <= i && i + 2 <= s.len() && s[i] == '#' && s[i + 1] == '#' {
        let j = ws_end(s, i + 2);
        if j + title.len() <= s.len() && s.subrange(j, j + title.len() as int) == title {
            let k = j + title.len() as int;
            let e = ws_end(s, k);
            let p = last_nl(s, k, e);
            if p >= 0 {
                p + 1
            } else {
                -1
            }
        } else {
            -1
        }
    } else {
        -1
    }
}

/// Body start for the leftmost heading of `title` at or after `i`, `-1`
/// if none exists.
pub open spec fn heading_from(s: Seq<char>, i: int, title: Seq<char>) -> int
    decreases s.len() - i,
{
    if 0 <= i && i < s.len() {
        if heading_body_start(s, i, title) >= 0 {
            heading_body_start(s, i, title)
        } else {
            heading_from(s, i + 1, title)
        }
    } else {
        -1
    }
}

/// The half-open body range of the section named `title`: from the body
/// start to the next `"\n## "` or the end of the text.
pub open spec fn section_range(s: Seq<char>, title: Seq<char>) -> Option<(int, int)> {
    let b = heading_from(s, 0, title);
    if b >= 0 {
        let e = find_from(s, b, "\n## "@);
        if e >= 0 {
            Some((b, e))
        } else {
            Some((b, s.len() as int))
        }
    } else {
        None
    }
}

/// The body of the section named `title`, if the section exists.
pub open spec fn find_section(s: Seq<char>, title: Seq<char>) -> Option<Seq<char>> {
    match section_range(s, title) {
        Some(r) => Some(s.subrange(r.0, r.1)),
        None => None,
    }
}

#[verifier::loop_isolation(false)]
fn heading_body_at(v: &Vec<char>, i: usize, title: &Vec<char>) -> (r: Option<usize>)
    requires
        i < v@.len(),
    ensures
        match r {
            Some(b) => heading_body_start(v@, i as int, title@) == b as int && i <= b <= v@.len(),
            None => heading_body_start(v@, i as int, title@) < 0,
        },
{
    if v.len() - i < 2 || !(v[i] == '#' && v[i + 1] == '#') {
        return None;
    }
    let j = ws_end_at(v, i + 2);
    if title.len() > v.len() - j || !match_at(v, j, title) {
        return None;
    }
    let k = j + title.len();
    let e = ws_end_at(v, k);
    let mut p = e;
    loop
        invariant
            k <= p <= e <= v@.len(),
            last_nl(v@, k as int, e as int) == last_nl(v@, k as int, p as int),
        decreases p,
    {
        if p == k {
            return None;
        }
        if v[p - 1] == '\n' {
            return Some(p);
        }
        p -= 1;
    }
}

#[verifier::loop_isolation(false)]
fn find_section_at(v: &Vec<char>, title: &Vec<char>) -> (r: Option<(usize, usize)>)
    ensures
        match r {
            Some(be) => section_range(v@, title@) == Some((be.0 as int, be.1 as int))
                && be.0 <= be.1 <= v@.len(),
            None => section_range(v@, title@) is None,
        },
{
    let pat = to_chars("\n## ");
    proof {
        reveal_strlit("\n## ");
        assert(pat@.len() == 4);
    }
    let mut i: usize = 0;
    loop
        invariant
            i <= v@.len(),
            heading_from(v@, 0, title@) == heading_from(v@, i as int, title@),
        decreases v@.len() - i,
    {
        if i >= v.len() {
            return None;
        }
        match heading_body_at(v, i, title) {
            Some(b) => {
                match find_at(v, b, &pat) {
                    Some(e) => {
                        proof {
                            lemma_find_from(v@, b as int, pat@);
                        }
                        return Some((b, e));
                    },
                    None => {
                        return Some((b, v.len()));
                    },
                }
            },
            None => {
                i += 1;
            },
        }
    }
}

// ---------------------------------------------------------------------
// Field lines
// ---------------------------------------------------------------------

/// Smallest `m' >= m` where `"**:"` occurs and at least one
/// non-whitespace character follows it, or `-1`.
pub open spec fn key_end(t: Seq<char>, m: int) -> int
    decreases t.len() - m,
{
    if 0 <= m && m + 3 <= t.len() {
        if t[m] == '*' && t[m + 1] == '*' && t[m + 2] == ':' && ws_end(t, m + 3) < t.len() {
            m
        } else {
            key_end(t, m + 1)
        }
    } else {
        -1
    }
}

/// The `- **Key**: value` match beginning exactly at `i` on the trimmed
/// line `t`: a dash, optional whitespace, `**`, the shortest key ending
/// at a `"**:"` that a non-empty value follows, then the trimmed rest.
pub open spec fn field_at(t: Seq<char>, i: int) -> Option<(Seq<char>, Seq<char>)> {
    if t[i] == '-' {
        let j = ws_end(t, i + 1);
        if j + 2 <= t.len() && t[j] == '*' && t[j + 1] == '*' {
            let m = key_end(t, j + 3);
            if m >= 0 {
                let w = ws_end(t, m + 3);
                Some((t.subrange(j + 2, m), trim_seq(t.subrange(w, t.len() as int))))
            } else {
                None
            }
        } else {
            None
        }
    } else {
        None
    }
}

/// The leftmost field match at or after `i`.
pub open spec fn field_from(t: Seq<char>, i: int) -> Option<(Seq<char>, Seq<char>)>
    decreases t.len() - i,
{
    if 0 <= i && i < t.len() {
        if field_at(t, i) is Some {
            field_at(t, i)
        } else {
            field_from(t, i + 1)
        }
    } else {
        None
    }
}

/// The key/value pair a trimmed line yields, if any.
pub open spec fn parse_field_line(t: Seq<char>) -> Option<(Seq<char>, Seq<char>)> {
    field_from(t, 0)
}

#[verifier::loop_isolation(false)]
fn key_end_at(t: &Vec<char>, m0: usize) -> (r: Option<usize>)
    requires
        m0 <= t@.len(),
    ensures
        match r {
            Some(m) => key_end(t@, m0 as int) == m as int && m0 <= m && m + 3 <= t@.len(),
            None => key_end(t@, m0 as int) < 0,
        },
{
    let mut m = m0;
    loop
        invariant
            m0 <= m <= t@.len(),
            key_end(t@, m0 as int) == key_end(t@, m as int),
        decreases t@.len() - m,
    {
        if t.len() < 3 || m > t.len() - 3 {
            return None;
        }
        if t[m] == '*' && t[m + 1] == '*' && t[m + 2] == ':' && ws_end_at(t, m + 3) < t.len() {
            return Some(m);
        }
        m += 1;
    }
}

#[verifier::loop_isolation(false)]
fn parse_field_line_exec(t: &Vec<char>) -> (r: Option<(Vec<char>, Vec<char>)>)
    ensures
        match r {
            Some(kv) => parse_field_line(t@) == Some((kv.0@, kv.1@)),
            None => parse_field_line(t@) is None,
        },
{
    let mut i: usize = 0;
    loop
        invariant
            i <= t@.len(),
            field_from(t@, 0) == field_from(t@, i as int),
        decreases t@.len() - i,
    {
        if i >= t.len() {
            return None;
        }
        if t[i] == '-' {
            let j = ws_end_at(t, i + 1);
            if t.len() - j >= 2 && t[j] == '*' && t[j + 1] == '*' {
                let ke = if t.len() - j >= 3 {
                    key_end_at(t, j + 3)
                } else {
                    None
                };
                match ke {
                    Some(m) => {
                        let w = ws_end_at(t, m + 3);
                        let key = sub_vec(t, j + 2, m);
                        let raw = sub_vec(t, w, t.len());
                        let value = trim_vec(&raw);
                        assert(field_at(t@, i as int) == Some((key@, value@)));
                        return Some((key, value));
                    },
                    None => {
                        assert(field_at(t@, i as int) is None);
                    },
                }
            } else {
                assert(field_at(t@, i as int) is None);
            }
        } else {
            assert(field_at(t@, i as int) is None);
        }
        i += 1;
    }
}

// ---------------------------------------------------------------------
// Field maps over lines
// ---------------------------------------------------------------------

/// The value of the last line at or after `i` whose field key lowercases
/// to `key`.
pub open spec fn lookup_from(s: Seq<char>, i: int, key: Seq<char>) -> Option<Seq<char>>
    decreases s.len() - i,
    via lookup_from_dec
{
    if 0 <= i && i < s.len() {
        let j = line_end(s, i);
        let later = lookup_from(s, nxt_line(s, i), key);
        if later is Some {
            later
        } else {
            match parse_field_line(trim_seq(s.subrange(i, j))) {
                Some(kv) => if lower_seq(kv.0) == key {
                    Some(kv.1)
                } else {
                    None
                },
                None => None,
            }
        }
    } else {
        None
    }
}

#[via_fn]
proof fn lookup_from_dec(s: Seq<char>, i: int, key: Seq<char>) {
    if 0 <= i && i < s.len() {
        lemma_char_end(s, i, '\n');
    }
}

#[verifier::loop_isolation(false)]
fn lookup_field(v: &Vec<char>, start: usize, key: &Vec<char>) -> (r: Option<Vec<char>>)
    requires
        start <= v@.len(),
    ensures
        oview(r) == lookup_from(v@, start as int, key@),
{
    let mut i = start;
    let mut acc: Option<Vec<char>> = None;
    loop
        invariant
            start <= i <= v@.len(),
            lookup_from(v@, start as int, key@) == if lookup_from(v@, i as int, key@) is Some {
                lookup_from(v@, i as int, key@)
            } else {
                oview(acc)
            },
        decreases v@.len() - i,
    {
        if i >= v.len() {
            return acc;
        }
        let j = char_end_at(v, i, '\n');
        let line = sub_vec(v, i, j);
        let t = trim_vec(&line);
        match parse_field_line_exec(&t) {
            Some(kv) => {
                let lk = lower_vec(&kv.0);
                if vecs_eq(&lk, key) {
                    acc = Some(kv.1);
                }
            },
            None => {},
        }
        i = if j < v.len() {
            j + 1
        } else {
            v.len()
        };
    }
}

// ---------------------------------------------------------------------
// Blocks
// ---------------------------------------------------------------------

/// Whether a block delimiter — a newline, `###`, then at least one
/// whitespace character — begins at `d`.
pub open spec fn is_delim_at(s: Seq<char>, d: int) -> bool {
    0 <= d && d + 4 < s.len() && s[d] == '\n' && s[d + 1] == '#' && s[d + 2] == '#'
        && s[d + 3] == '#' && is_ws_char(s[d + 4])
}

/// The leftmost block delimiter at or after `i`, or `-1`.
pub open spec fn find_delim(s: Seq<char>, i: int) -> int
    decreases s.len() - i,
{
    if 0 <= i && i < s.len() {
        if is_delim_at(s, i) {
            i
        } else {
            find_delim(s, i + 1)
        }
    } else {
        -1
    }
}

pub proof fn lemma_find_delim(s: Seq<char>, i: int)
    requires
        0 <= i,
    ensures
        find_delim(s, i) >= 0 ==> i <= find_delim(s, i) && is_delim_at(s, find_delim(s, i)),
    decreases s.len() - i,
{
    if 0 <= i && i < s.len() && !is_delim_at(s, i) {
        lemma_find_delim(s, i + 1);
    }
}

#[verifier::loop_isolation(false)]
fn find_delim_at(v: &Vec<char>, i: usize) -> (r: Option<usize>)
    requires
        i <= v@.len(),
    ensures
        match r {
            Some(d) => find_delim(v@, i as int) == d as int && i <= d && is_delim_at(v@, d as int),
            None => find_delim(v@, i as int) < 0,
        },
{
    let mut d = i;
    loop
        invariant
            i <= d <= v@.len(),
            find_delim(v@, i as int) == find_delim(v@, d as int),
        decreases v@.len() - d,
    {
        if d >= v.len() {
            return None;
        }
        if v.len() - d > 4 && v[d] == '\n' && v[d + 1] == '#' && v[d + 2] == '#' && v[d + 3] == '#'
            && crate::text::char_is_ws(v[d + 4]) {
            return Some(d);
        }
        d += 1;
    }
}

/// The first line of a block with heading markers stripped: a leading
/// `#` run and the whitespace after it are removed.
pub open spec fn strip_heading(t: Seq<char>) -> Seq<char> {
    if t.len() > 0 && t[0] == '#' {
        t.subrange(ws_end(t, hash_end(t, 0)), t.len() as int)
    } else {
        t
    }
}

fn strip_heading_vec(t: &Vec<char>) -> (r: Vec<char>)
    ensures
        r@ == strip_heading(t@),
{
    if t.len() > 0 && t[0] == '#' {
        let h = hash_end_at(t, 0);
        let w = ws_end_at(t, h);
        sub_vec(t, w, t.len())
    } else {
        let r = sub_vec(t, 0, t.len());
        assert(r@ =~= t@);
        r
    }
}

// ---------------------------------------------------------------------
// Viral events
// ---------------------------------------------------------------------

/// Category keyword mapping; unknown or missing text falls back to
/// `Research`.
pub open spec fn spec_category(v: Option<Seq<char>>) -> EventCategory {
    match v {
        Some(s) => if s == "product_launch"@ {
            EventCategory::ProductLaunch
        } else if s == "funding"@ {
            EventCategory::Funding
        } else if s == "partnership"@ {
            EventCategory::Partnership
        } else if s == "regulation"@ {
            EventCategory::Regulation
        } else if s == "research"@ {
            EventCategory::Research
        } else if s == "open_source"@ {
            EventCategory::OpenSource
        } else {
            EventCategory::Research
        },
        None => EventCategory::Research,
    }
}

/// Confidence keyword mapping; unknown or missing text falls back to
/// `Medium`.
pub open spec fn spec_confidence(v: Option<Seq<char>>) -> ConfidenceLevel {
    match v {
        Some(s) => if s == "high"@ {
            ConfidenceLevel::High
        } else if s == "medium"@ {
            ConfidenceLevel::Medium
        } else if s == "low"@ {
            ConfidenceLevel::Low
        } else {
            ConfidenceLevel::Medium
        },
        None => ConfidenceLevel::Medium,
    }
}

pub open spec fn clamp_impact(n: int) -> int {
    if n < 1 {
        1
    } else if n > 10 {
        10
    } else {
        n
    }
}

/// Impact rating: the field text parsed as an integer, defaulting to 5
/// when missing or malformed, clamped into `[1, 10]`.
pub open spec fn spec_impact(v: Option<Seq<char>>) -> int {
    match v {
        Some(s) => match spec_parse_i32(s) {
            Some(n) => clamp_impact(n),
            None => 5,
        },
        None => 5,
    }
}

pub open spec fn spec_source(v: Option<Seq<char>>) -> Seq<char> {
    match v {
        Some(s) => s,
        None => "Unknown"@,
    }
}

pub open spec fn spec_summary(v: Option<Seq<char>>) -> Seq<char> {
    match v {
        Some(s) => s,
        None => Seq::empty(),
    }
}

/// The event a trimmed block yields: the first line, stripped of heading
/// markers, is the headline — an empty headline drops the block; the
/// remaining lines populate the field map.
pub open spec fn spec_event_of_block(b: Seq<char>) -> Option<ViralEventModel> {
    let j = line_end(b, 0);
    let headline = strip_heading(trim_seq(b.subrange(0, j)));
    if headline.len() == 0 {
        None
    } else {
        let f = nxt_line(b, 0);
        Some(ViralEventModel {
            headline,
            category: spec_category(lookup_from(b, f, "category"@)),
            impact_rating: spec_impact(lookup_from(b, f, "impact rating"@)),
            confidence: spec_confidence(lookup_from(b, f, "confidence"@)),
            source: spec_source(lookup_from(b, f, "source"@)),
            summary: spec_summary(lookup_from(b, f, "summary"@)),
        })
    }
}

/// The events of all blocks at or after `i`, in order.
pub open spec fn events_from(s: Seq<char>, i: int) -> Seq<ViralEventModel>
    decreases s.len() - i,
    via events_from_dec
{
    if 0 <= i && i <= s.len() {
        let d = find_delim(s, i);
        let blk = if d >= 0 {
            s.subrange(i, d)
        } else {
            s.subrange(i, s.len() as int)
        };
        let t = trim_seq(blk);
        let here = if t.len() == 0 {
            Seq::<ViralEventModel>::empty()
        } else {
            match spec_event_of_block(t) {
                Some(e) => seq![e],
                None => Seq::<ViralEventModel>::empty(),
            }
        };
        if d >= 0 {
            here + events_from(s, ws_end(s, d + 4))
        } else {
            here
        }
    } else {
        Seq::empty()
    }
}

#[via_fn]
proof fn events_from_dec(s: Seq<char>, i: int) {
    if 0 <= i && i <= s.len() {
        let d = find_delim(s, i);
        if d >= 0 {
            lemma_find_delim(s, i);
            lemma_ws_end(s, d + 4);
        }
    }
}

/// What `parse_viral_events` returns, as a model.
pub open spec fn spec_parse_viral_events(md: Seq<char>) -> Seq<ViralEventModel> {
    match find_section(md, "Global Viral Events"@) {
        Some(body) => events_from(body, 0),
        None => Seq::empty(),
    }
}

fn category_of(v: &Option<Vec<char>>) -> (r: EventCategory)
    ensures
        r == spec_category(oview(*v)),
{
    match v {
        Some(s) => {
            if vecs_eq(s, &to_chars("product_launch")) {
                EventCategory::ProductLaunch
            } else if vecs_eq(s, &to_chars("funding")) {
                EventCategory::Funding
            } else if vecs_eq(s, &to_chars("partnership")) {
                EventCategory::Partnership
            } else if vecs_eq(s, &to_chars("regulation")) {
                EventCategory::Regulation
            } else if vecs_eq(s, &to_chars("research")) {
                EventCategory::Research
            } else if vecs_eq(s, &to_chars("open_source")) {
                EventCategory::OpenSource
            } else {
                EventCategory::Research
            }
        },
        None => EventCategory::Research,
    }
}

fn confidence_of(v: &Option<Vec<char>>) -> (r: ConfidenceLevel)
    ensures
        r == spec_confidence(oview(*v)),
{
    match v {
        Some(s) => {
            if vecs_eq(s, &to_chars("high")) {
                ConfidenceLevel::High
            } else if vecs_eq(s, &to_chars("medium")) {
                ConfidenceLevel::Medium
            } else if vecs_eq(s, &to_chars("low")) {
                ConfidenceLevel::Low
            } else {
                ConfidenceLevel::Medium
            }
        },
        None => ConfidenceLevel::Medium,
    }
}

fn impact_of(v: &Option<Vec<char>>) -> (r: i32)
    ensures
        r as int == spec_impact(oview(*v)),
{
    match v {
        Some(s) => {
            match parse_i32_chars(s) {
                Some(n) => {
                    if n < 1 {
                        1
                    } else if n > 10 {
                        10
                    } else {
                        n
                    }
                },
                None => 5,
            }
        },
        None => 5,
    }
}

fn parse_event_block(b: &Vec<char>) -> (r: Option<ViralEvent>)
    ensures
        match r {
            Some(e) => spec_event_of_block(b@) == Some(e@),
            None => spec_event_of_block(b@) is None,
        },
{
    let j = char_end_at(b, 0, '\n');
    let first = sub_vec(b, 0, j);
    let ft = trim_vec(&first);
    let head = strip_heading_vec(&ft);
    if head.len() == 0 {
        return None;
    }
    let f: usize = if j < b.len() {
        j + 1
    } else {
        b.len()
    };
    let cat = lookup_field(b, f, &to_chars("category"));
    let imp = lookup_field(b, f, &to_chars("impact rating"));
    let conf = lookup_field(b, f, &to_chars("confidence"));
    let src = lookup_field(b, f, &to_chars("source"));
    let sum = lookup_field(b, f, &to_chars("summary"));
    let category = category_of(&cat);
    let impact_rating = impact_of(&imp);
    let confidence = confidence_of(&conf);
    let source = match src {
        Some(s) => string_from_chars(&s),
        None => {
            let u = to_chars("Unknown");
            string_from_chars(&u)
        },
    };
    let summary = match sum {
        Some(s) => string_from_chars(&s),
        None => String::new(),
    };
    Some(ViralEvent { headline: string_from_chars(&head), category, impact_rating, confidence, source, summary })
}

/// Extracts the events of the `Global Viral Events` section; an absent
/// section yields no events, and a block whose headline is empty after
/// marker stripping is dropped.
#[verifier::loop_isolation(false)]
pub fn parse_viral_events(markdown: &str) -> (r: Vec<ViralEvent>)
    ensures
        events_view(r@) == spec_parse_viral_events(markdown@),
{
    let v = to_chars(markdown);
    let title = to_chars("Global Viral Events");
    let mut out: Vec<ViralEvent> = Vec::new();
    match find_section_at(&v, &title) {
        None => {
            assert(events_view(out@) =~= spec_parse_viral_events(markdown@));
            out
        },
        Some((bs, be)) => {
            let body = sub_vec(&v, bs, be);
            let mut i: usize = 0;
            loop
                invariant
                    i <= body@.len(),
                    events_view(out@) + events_from(body@, i as int) == events_from(body@, 0),
                    spec_parse_viral_events(markdown@) == events_from(body@, 0),
                decreases body@.len() - i,
            {
                let d_opt = find_delim_at(&body, i);
                let end = match d_opt {
                    Some(dd) => dd,
                    None => body.len(),
                };
                let blk = sub_vec(&body, i, end);
                let t = trim_vec(&blk);
                let ghost old_out = out@;
                if t.len() > 0 {
                    match parse_event_block(&t) {
                        Some(e) => {
                            out.push(e);
                            proof {
                                assert(events_view(old_out.push(e)) =~= events_view(old_out).push(e@));
                            }
                        },
                        None => {},
                    }
                }
                match d_opt {
                    Some(dd) => {
                        i = ws_end_at(&body, dd + 4);
                    },
                    None => {
                        assert(events_view(out@) =~= events_from(body@, 0));
                        break;
                    },
                }
            }
            out
        },
    }
}

// ---------------------------------------------------------------------
// TL;DR
// ---------------------------------------------------------------------

/// What `parse_tldr` returns: the trimmed body of the `TL;DR` section,
/// absent when the section is absent or its body is blank.
pub open spec fn spec_parse_tldr(md: Seq<char>) -> Option<Seq<char>> {
    match find_section(md, "TL;DR"@) {
        Some(body) => {
            let t = trim_seq(body);
            if t.len() == 0 {
                None
            } else {
                Some(t)
            }
        },
        None => None,
    }
}

/// Extracts the executive summary.
pub fn parse_tldr(markdown: &str) -> (r: Option<String>)
    ensures
        match r {
            Some(s) => spec_parse_tldr(markdown@) == Some(s@),
            None => spec_parse_tldr(markdown@) is None,
        },
{
    let v = to_chars(markdown);
    let title = to_chars("TL;DR");
    match find_section_at(&v, &title) {
        None => None,
        Some((bs, be)) => {
            let body = sub_vec(&v, bs, be);
            let t = trim_vec(&body);
            if t.len() == 0 {
                None
            } else {
                Some(string_from_chars(&t))
            }
        },
    }
}

// ---------------------------------------------------------------------
// Deep dives
// ---------------------------------------------------------------------

/// Field lookup for dive blocks: a line starting the findings list
/// switches the block into findings mode, after which no line is a field.
pub open spec fn dive_lookup_from(s: Seq<char>, i: int, in_f: bool, key: Seq<char>) -> Option<
    Seq<char>,
>
    decreases s.len() - i,
    via dive_lookup_from_dec
{
    if 0 <= i && i < s.len() {
        let j = line_end(s, i);
        let st = trim_seq(s.subrange(i, j));
        if is_prefix(st, "- **Key Findings**"@) || in_f {
            dive_lookup_from(s, nxt_line(s, i), true, key)
        } else {
            let later = dive_lookup_from(s, nxt_line(s, i), false, key);
            if later is Some {
                later
            } else {
                match parse_field_line(st) {
                    Some(kv) => if lower_seq(kv.0) == key {
                        Some(kv.1)
                    } else {
                        None
                    },
                    None => None,
                }
            }
        }
    } else {
        None
    }
}

#[via_fn]
proof fn dive_lookup_from_dec(s: Seq<char>, i: int, in_f: bool, key: Seq<char>) {
    if 0 <= i && i < s.len() {
        lemma_char_end(s, i, '\n');
    }
}

/// The findings collected from the lines at or after `i`: once in
/// findings mode, every line starting with `"- "` contributes its rest,
/// trimmed.
pub open spec fn findings_from(s: Seq<char>, i: int, in_f: bool) -> Seq<Seq<char>>
    decreases s.len() - i,
    via findings_from_dec
{
    if 0 <= i && i < s.len() {
        let j = line_end(s, i);
        let st = trim_seq(s.subrange(i, j));
        if is_prefix(st, "- **Key Findings**"@) {
            findings_from(s, nxt_line(s, i), true)
        } else if in_f && is_prefix(st, "- "@) {
            seq![trim_seq(st.subrange(2, st.len() as int))] + findings_from(s, nxt_line(s, i), true)
        } else {
            findings_from(s, nxt_line(s, i), in_f)
        }
    } else {
        Seq::empty()
    }
}

#[via_fn]
proof fn findings_from_dec(s: Seq<char>, i: int, in_f: bool) {
    if 0 <= i && i < s.len() {
        lemma_char_end(s, i, '\n');
    }
}

/// The dive a trimmed block yields; priority defaults to `MEDIUM` and is
/// not validated further.
pub open spec fn spec_dive_of_block(b: Seq<char>) -> Option<DeepDiveModel> {
    let j = line_end(b, 0);
    let title = strip_heading(trim_seq(b.subrange(0, j)));
    if title.len() == 0 {
        None
    } else {
        let f = nxt_line(b, 0);
        Some(DeepDiveModel {
            title,
            priority: match dive_lookup_from(b, f, false, "priority"@) {
                Some(v) => v,
                None => "MEDIUM"@,
            },
            summary: match dive_lookup_from(b, f, false, "summary"@) {
                Some(v) => v,
                None => Seq::empty(),
            },
            key_findings: findings_from(b, f, false),
        })
    }
}

/// The dives of all blocks at or after `i`, in order.
pub open spec fn dives_from(s: Seq<char>, i: int) -> Seq<DeepDiveModel>
    decreases s.len() - i,
    via dives_from_dec
{
    if 0 <= i && i <= s.len() {
        let d = find_delim(s, i);
        let blk = if d >= 0 {
            s.subrange(i, d)
        } else {
            s.subrange(i, s.len() as int)
        };
        let t = trim_seq(blk);
        let here = if t.len() == 0 {
            Seq::<DeepDiveModel>::empty()
        } else {
            match spec_dive_of_block(t) {
                Some(e) => seq![e],
                None => Seq::<DeepDiveModel>::empty(),
            }
        };
        if d >= 0 {
            here + dives_from(s, ws_end(s, d + 4))
        } else {
            here
        }
    } else {
        Seq::empty()
    }
}

#[via_fn]
proof fn dives_from_dec(s: Seq<char>, i: int) {
    if 0 <= i && i <= s.len() {
        let d = find_delim(s, i);
        if d >= 0 {
            lemma_find_delim(s, i);
            lemma_ws_end(s, d + 4);
        }
    }
}

/// What `parse_deep_dives` returns, as a model.
pub open spec fn spec_parse_deep_dives(md: Seq<char>) -> Seq<DeepDiveModel> {
    match find_section(md, "Strategic Deep Dives"@) {
        Some(body) => dives_from(body, 0),
        None => Seq::empty(),
    }
}

#[verifier::loop_isolation(false)]
fn dive_lookup(v: &Vec<char>, start: usize, key: &Vec<char>) -> (r: Option<Vec<char>>)
    requires
        start <= v@.len(),
    ensures
        oview(r) == dive_lookup_from(v@, start as int, false, key@),
{
    let kf = to_chars("- **Key Findings**");
    let mut i = start;
    let mut in_f = false;
    let mut acc: Option<Vec<char>> = None;
    loop
        invariant
            start <= i <= v@.len(),
            dive_lookup_from(v@, start as int, false, key@) == if dive_lookup_from(
                v@,
                i as int,
                in_f,
                key@,
            ) is Some {
                dive_lookup_from(v@, i as int, in_f, key@)
            } else {
                oview(acc)
            },
        decreases v@.len() - i,
    {
        if i >= v.len() {
            return acc;
        }
        let j = char_end_at(v, i, '\n');
        let line = sub_vec(v, i, j);
        let t = trim_vec(&line);
        if has_prefix(&t, &kf) {
            in_f = true;
        } else if !in_f {
            match parse_field_line_exec(&t) {
                Some(kv) => {
                    let lk = lower_vec(&kv.0);
                    if vecs_eq(&lk, key) {
                        acc = Some(kv.1);
                    }
                },
                None => {},
            }
        }
        i = if j < v.len() {
            j + 1
        } else {
            v.len()
        };
    }
}

#[verifier::loop_isolation(false)]
fn collect_findings(v: &Vec<char>, start: usize) -> (r: Vec<String>)
    requires
        start <= v@.len(),
    ensures
        strings_view(r@) == findings_from(v@, start as int, false),
{
    let kf = to_chars("- **Key Findings**");
    let dash = to_chars("- ");
    let mut i = start;
    let mut in_f = false;
    let mut out: Vec<String> = Vec::new();
    loop
        invariant
            start <= i <= v@.len(),
            strings_view(out@) + findings_from(v@, i as int, in_f) == findings_from(
                v@,
                start as int,
                false,
            ),
        decreases v@.len() - i,
    {
        if i >= v.len() {
            assert(strings_view(out@) =~= findings_from(v@, start as int, false));
            return out;
        }
        let j = char_end_at(v, i, '\n');
        let line = sub_vec(v, i, j);
        let t = trim_vec(&line);
        let ghost old_out = out@;
        if has_prefix(&t, &kf) {
            in_f = true;
        } else if in_f && has_prefix(&t, &dash) {
            proof {
                reveal_strlit("- ");
            }
            let tail = sub_vec(&t, 2, t.len());
            let fin = trim_vec(&tail);
            let fs = string_from_chars(&fin);
            out.push(fs);
            proof {
                assert(strings_view(old_out.push(fs)) =~= strings_view(old_out).push(fs@));
            }
        }
        i = if j < v.len() {
            j + 1
        } else {
            v.len()
        };
    }
}

fn parse_dive_block(b: &Vec<char>) -> (r: Option<DeepDive>)
    ensures
        match r {
            Some(d) => spec_dive_of_block(b@) == Some(d@),
            None => spec_dive_of_block(b@) is None,
        },
{
    let j = char_end_at(b, 0, '\n');
    let first = sub_vec(b, 0, j);
    let ft = trim_vec(&first);
    let head = strip_heading_vec(&ft);
    if head.len() == 0 {
        return None;
    }
    let f: usize = if j < b.len() {
        j + 1
    } else {
        b.len()
    };
    let pri = dive_lookup(b, f, &to_chars("priority"));
    let sum = dive_lookup(b, f, &to_chars("summary"));
    let findings = collect_findings(b, f);
    let priority = match pri {
        Some(s) => string_from_chars(&s),
        None => {
            let m = to_chars("MEDIUM");
            string_from_chars(&m)
        },
    };
    let summary = match sum {
        Some(s) => string_from_chars(&s),
        None => String::new(),
    };
    Some(DeepDive { title: string_from_chars(&head), priority, summary, key_findings: findings })
}

/// Extracts the dives of the `Strategic Deep Dives` section.
#[verifier::loop_isolation(false)]
pub fn parse_deep_dives(markdown: &str) -> (r: Vec<DeepDive>)
    ensures
        dives_view(r@) == spec_parse_deep_dives(markdown@),
{
    let v = to_chars(markdown);
    let title = to_chars("Strategic Deep Dives");
    let mut out: Vec<DeepDive> = Vec::new();
    match find_section_at(&v, &title) {
        None => {
            assert(dives_view(out@) =~= spec_parse_deep_dives(markdown@));
            out
        },
        Some((bs, be)) => {
            let body = sub_vec(&v, bs, be);
            let mut i: usize = 0;
            loop
                invariant
                    i <= body@.len(),
                    dives_view(out@) + dives_from(body@, i as int) == dives_from(body@, 0),
                    spec_parse_deep_dives(markdown@) == dives_from(body@, 0),
                decreases body@.len() - i,
            {
                let d_opt = find_delim_at(&body, i);
                let end = match d_opt {
                    Some(dd) => dd,
                    None => body.len(),
                };
                let blk = sub_vec(&body, i, end);
                let t = trim_vec(&blk);
                let ghost old_out = out@;
                if t.len() > 0 {
                    match parse_dive_block(&t) {
                        Some(d) => {
                            out.push(d);
                            proof {
                                assert(dives_view(old_out.push(d)) =~= dives_view(old_out).push(d@));
                            }
                        },
                        None => {},
                    }
                }
                match d_opt {
                    Some(dd) => {
                        i = ws_end_at(&body, dd + 4);
                    },
                    None => {
                        assert(dives_view(out@) =~= dives_from(body@, 0));
                        break;
                    },
                }
            }
            out
        },
    }
}

// ---------------------------------------------------------------------
// Completeness audit
// ---------------------------------------------------------------------

/// The gap list: the field text split at commas, each piece trimmed,
/// empty pieces dropped.
pub open spec fn gaps_from(s: Seq<char>, i: int) -> Seq<Seq<char>>
    decreases s.len() - i,
    via gaps_from_dec
{
    if 0 <= i && i <= s.len() {
        let j = char_end(s, i, ',');
        let g = trim_seq(s.subrange(i, j));
        let here = if g.len() > 0 {
            seq![g]
        } else {
            Seq::<Seq<char>>::empty()
        };
        if j < s.len() {
            here + gaps_from(s, j + 1)
        } else {
            here
        }
    } else {
        Seq::empty()
    }
}

#[via_fn]
proof fn gaps_from_dec(s: Seq<char>, i: int) {
    if 0 <= i && i <= s.len() {
        lemma_char_end(s, i, ',');
    }
}

pub open spec fn spec_gaps(v: Option<Seq<char>>) -> Seq<Seq<char>> {
    match v {
        Some(s) => gaps_from(s, 0),
        None => Seq::empty(),
    }
}

/// What `parse_completeness_audit` returns, as a model: the audit exists
/// only when the section exists and all three numeric fields parse; a
/// missing gaps field yields an empty list, not an absent audit.
pub open spec fn spec_parse_audit(md: Seq<char>) -> Option<CompletenessAuditModel> {
    match find_section(md, "Completeness Audit"@) {
        Some(body) => {
            let ovs = lookup_from(body, 0, "verified signals"@);
            let osc = lookup_from(body, 0, "sources checked"@);
            let ocs = lookup_from(body, 0, "confidence score"@);
            match (ovs, osc, ocs) {
                (Some(vs), Some(sc), Some(cs)) => {
                    match (spec_parse_i32(vs), spec_parse_i32(sc)) {
                        (Some(nvs), Some(nsc)) => {
                            if is_f64_literal(cs) {
                                Some(CompletenessAuditModel {
                                    verified_signals: nvs,
                                    sources_checked: nsc,
                                    confidence_score: cs,
                                    gaps: spec_gaps(lookup_from(body, 0, "gaps"@)),
                                })
                            } else {
                                None
                            }
                        },
                        _ => None,
                    }
                },
                _ => None,
            }
        },
        None => None,
    }
}

#[verifier::loop_isolation(false)]
fn split_gaps(g: &Vec<char>) -> (r: Vec<String>)
    ensures
        strings_view(r@) == gaps_from(g@, 0),
{
    let mut out: Vec<String> = Vec::new();
    let mut i: usize = 0;
    loop
        invariant
            i <= g@.len(),
            strings_view(out@) + gaps_from(g@, i as int) == gaps_from(g@, 0),
        decreases g@.len() - i,
    {
        let j = char_end_at(g, i, ',');
        let piece = sub_vec(g, i, j);
        let t = trim_vec(&piece);
        let ghost old_out = out@;
        if t.len() > 0 {
            let ts = string_from_chars(&t);
            out.push(ts);
            proof {
                assert(strings_view(old_out.push(ts)) =~= strings_view(old_out).push(ts@));
            }
        }
        if j < g.len() {
            i = j + 1;
        } else {
            assert(strings_view(out@) =~= gaps_from(g@, 0));
            return out;
        }
    }
}

/// Extracts the completeness audit; the audit is wholly absent when any
/// of the three numeric fields is missing or fails to parse.
pub fn parse_completeness_audit(markdown: &str) -> (r: Option<CompletenessAudit>)
    ensures
        match r {
            Some(a) => spec_parse_audit(markdown@) == Some(a@),
            None => spec_parse_audit(markdown@) is None,
        },
{
    let v = to_chars(markdown);
    let title = to_chars("Completeness Audit");
    match find_section_at(&v, &title) {
        None => None,
        Some((bs, be)) => {
            let body = sub_vec(&v, bs, be);
            let ovs = lookup_field(&body, 0, &to_chars("verified signals"));
            let osc = lookup_field(&body, 0, &to_chars("sources checked"));
            let ocs = lookup_field(&body, 0, &to_chars("confidence score"));
            match (ovs, osc, ocs) {
                (Some(vs), Some(sc), Some(cs)) => {
                    let nvs = parse_i32_chars(&vs);
                    let nsc = parse_i32_chars(&sc);
                    match (nvs, nsc) {
                        (Some(a), Some(b)) => {
                            if check_f64_literal(&cs) {
                                let gaps = match lookup_field(&body, 0, &to_chars("gaps")) {
                                    Some(g) => split_gaps(&g),
                                    None => Vec::new(),
                                };
                                assert(strings_view(Seq::<String>::empty()) =~= Seq::<Seq<char>>::empty());
                                Some(CompletenessAudit {
                                    verified_signals: a,
                                    sources_checked: b,
                                    confidence_score: string_from_chars(&cs),
                                    gaps,
                                })
                            } else {
                                None
                            }
                        },
                        _ => None,
                    }
                },
                _ => None,
            }
        },
    }
}

// ---------------------------------------------------------------------
// Laws
// ---------------------------------------------------------------------

/// Law: whatever the field text, an extracted impact rating lies in
/// `[1, 10]`; out-of-range values are clamped and malformed or missing
/// ones default to 5.
pub proof fn lemma_impact_clamped(v: Option<Seq<char>>)
    ensures
        1 <= spec_impact(v) <= 10,
{
}

/// Law: an unrecognized or missing category falls back to `Research`,
/// and an unrecognized or missing confidence falls back to `Medium`.
pub proof fn lemma_category_confidence_fallback()
    ensures
        spec_category(None) == EventCategory::Research,
        spec_confidence(None) == ConfidenceLevel::Medium,
        forall|s: Seq<char>|
            !(s == "product_launch"@ || s == "funding"@ || s == "partnership"@
                || s == "regulation"@ || s == "research"@ || s == "open_source"@)
                ==> spec_category(Some(s)) == EventCategory::Research,
        forall|s: Seq<char>|
            !(s == "high"@ || s == "medium"@ || s == "low"@) ==> spec_confidence(Some(s))
                == ConfidenceLevel::Medium,
{
}

/// Law: a block whose first line is blank after heading-marker stripping
/// yields no event and no dive.
pub proof fn lemma_empty_headline_dropped(b: Seq<char>)
    requires
        strip_heading(trim_seq(b.subrange(0, line_end(b, 0)))).len() == 0,
    ensures
        spec_event_of_block(b) is None,
        spec_dive_of_block(b) is None,
{
}

/// Law: the audit is absent whenever the `Sources Checked` field is
/// missing from its section, whatever the other fields hold — and absent
/// likewise when the whole section is missing.
pub proof fn lemma_audit_needs_sources_checked(md: Seq<char>)
    requires
        match find_section(md, "Completeness Audit"@) {
            Some(body) => lookup_from(body, 0, "sources checked"@) is None,
            None => true,
        },
    ensures
        spec_parse_audit(md) is None,
{
}

/// Law: parsing is deterministic — equal input text yields equal
/// extraction results for every extractor, so running the parser twice
/// on the same text gives the same entities.
pub proof fn lemma_parser_deterministic(a: Seq<char>, b: Seq<char>)
    requires
        a == b,
    ensures
        spec_parse_tldr(a) == spec_parse_tldr(b),
        spec_parse_viral_events(a) == spec_parse_viral_events(b),
        spec_parse_deep_dives(a) == spec_parse_deep_dives(b),
        spec_parse_audit(a) == spec_parse_audit(b),
{
}

} // verus!
