//! Verified character and sequence utilities the parser is built on:
//! whitespace classification, trimming, scanning runs, substring search,
//! and conversions between `&str`, `Vec<char>` and `String`.

use vstd::prelude::*;
use vstd::string::*;

verus! {

/// The Unicode `White_Space` code points, i.e. the characters that
/// `str::trim` removes.
pub open spec fn is_ws_char(c: char) -> bool {
    c as u32 == 0x20 || c as u32 == 0x09 || c as u32 == 0x0a || c as u32 == 0x0b
        || c as u32 == 0x0c || c as u32 == 0x0d || c as u32 == 0x85 || c as u32 == 0xa0
        || c as u32 == 0x1680 || (0x2000 <= c as u32 && c as u32 <= 0x200a)
        || c as u32 == 0x2028 || c as u32 == 0x2029 || c as u32 == 0x202f
        || c as u32 == 0x205f || c as u32 == 0x3000
}

pub fn char_is_ws(c: char) -> (r: bool)
    ensures
        r == is_ws_char(c),
{
    let x = c as u32;
    x == 0x20 || x == 0x09 || x == 0x0a || x == 0x0b || x == 0x0c || x == 0x0d || x == 0x85
        || x == 0xa0 || x == 0x1680 || (0x2000 <= x && x <= 0x200a) || x == 0x2028
        || x == 0x2029 || x == 0x202f || x == 0x205f || x == 0x3000
}

pub open spec fn is_digit_char(c: char) -> bool {
    c == '0' || c == '1' || c == '2' || c == '3' || c == '4' || c == '5' || c == '6'
        || c == '7' || c == '8' || c == '9'
}

/// The value of a decimal digit; other characters count as zero.
pub open spec fn digit_val(c: char) -> int {
    if c == '1' { 1 } else if c == '2' { 2 } else if c == '3' { 3 }
    else if c == '4' { 4 } else if c == '5' { 5 } else if c == '6' { 6 }
    else if c == '7' { 7 } else if c == '8' { 8 } else if c == '9' { 9 }
    else { 0 }
}

pub fn char_is_digit(c: char) -> (r: bool)
    ensures
        r == is_digit_char(c),
{
    c == '0' || c == '1' || c == '2' || c == '3' || c == '4' || c == '5' || c == '6'
        || c == '7' || c == '8' || c == '9'
}

pub fn digit_u64(c: char) -> (r: u64)
    ensures
        r == digit_val(c),
{
    match c {
        '1' => 1, '2' => 2, '3' => 3, '4' => 4, '5' => 5,
        '6' => 6, '7' => 7, '8' => 8, '9' => 9, _ => 0,
    }
}

/// ASCII lower-casing of a single character; other characters are kept.
pub open spec fn lower_char(c: char) -> char {
    if c == 'A' { 'a' } else if c == 'B' { 'b' } else if c == 'C' { 'c' }
    else if c == 'D' { 'd' } else if c == 'E' { 'e' } else if c == 'F' { 'f' }
    else if c == 'G' { 'g' } else if c == 'H' { 'h' } else if c == 'I' { 'i' }
    else if c == 'J' { 'j' } else if c == 'K' { 'k' } else if c == 'L' { 'l' }
    else if c == 'M' { 'm' } else if c == 'N' { 'n' } else if c == 'O' { 'o' }
    else if c == 'P' { 'p' } else if c == 'Q' { 'q' } else if c == 'R' { 'r' }
    else if c == 'S' { 's' } else if c == 'T' { 't' } else if c == 'U' { 'u' }
    else if c == 'V' { 'v' } else if c == 'W' { 'w' } else if c == 'X' { 'x' }
    else if c == 'Y' { 'y' } else if c == 'Z' { 'z' } else { c }
}

pub fn char_lower(c: char) -> (r: char)
    ensures
        r == lower_char(c),
{
    match c {
        'A' => 'a', 'B' => 'b', 'C' => 'c', 'D' => 'd', 'E' => 'e', 'F' => 'f',
        'G' => 'g', 'H' => 'h', 'I' => 'i', 'J' => 'j', 'K' => 'k', 'L' => 'l',
        'M' => 'm', 'N' => 'n', 'O' => 'o', 'P' => 'p', 'Q' => 'q', 'R' => 'r',
        'S' => 's', 'T' => 't', 'U' => 'u', 'V' => 'v', 'W' => 'w', 'X' => 'x',
        'Y' => 'y', 'Z' => 'z', _ => c,
    }
}

pub open spec fn lower_seq(s: Seq<char>) -> Seq<char> {
    s.map_values(|c: char| lower_char(c))
}

pub fn lower_vec(v: &Vec<char>) -> (r: Vec<char>)
    ensures
        r@ == lower_seq(v@),
{
    let mut r: Vec<char> = Vec::new();
    let mut i: usize = 0;
    while i < v.len()
        invariant
            i <= v@.len(),
            r@.len() == i,
            forall|k: int| 0 <= k < i ==> r@[k] == lower_char(v@[k]),
        decreases v@.len() - i,
    {
        r.push(char_lower(v[i]));
        i += 1;
    }
    assert(r@ =~= lower_seq(v@));
    r
}

/// First index at or after `i` holding a non-whitespace character.
pub open spec fn ws_end(s: Seq<char>, i: int) -> int
    decreases s.len() - i,
{
    if 0 <= i && i < s.len() && is_ws_char(s[i]) {
        ws_end(s, i + 1)
    } else {
        i
    }
}

pub proof fn lemma_ws_end(s: Seq<char>, i: int)
    requires
        0 <= i <= s.len(),
    ensures
        i <= ws_end(s, i) <= s.len(),
        forall|k: int| i <= k < ws_end(s, i) ==> is_ws_char(s[k]),
        ws_end(s, i) < s.len() ==> !is_ws_char(s[ws_end(s, i)]),
    decreases s.len() - i,
{
    if i < s.len() && is_ws_char(s[i]) {
        lemma_ws_end(s, i + 1);
    }
}

pub fn ws_end_at(v: &Vec<char>, i: usize) -> (j: usize)
    requires
        i <= v@.len(),
    ensures
        j == ws_end(v@, i as int),
        i <= j <= v@.len(),
{
    let mut j = i;
    while j < v.len() && char_is_ws(v[j])
        invariant
            i <= j <= v@.len(),
            ws_end(v@, i as int) == ws_end(v@, j as int),
        decreases v@.len() - j,
    {
        j += 1;
    }
    j
}

/// First index at or after `i` holding the character `c`.
pub open spec fn char_end(s: Seq<char>, i: int, c: char) -> int
    decreases s.len() - i,
{
    if 0 <= i && i < s.len() && s[i] != c {
        char_end(s, i + 1, c)
    } else {
        i
    }
}

pub proof fn lemma_char_end(s: Seq<char>, i: int, c: char)
    requires
        0 <= i <= s.len(),
    ensures
        i <= char_end(s, i, c) <= s.len(),
        forall|k: int| i <= k < char_end(s, i, c) ==> s[k] != c,
        char_end(s, i, c) < s.len() ==> s[char_end(s, i, c)] == c,
    decreases s.len() - i,
{
    if i < s.len() && s[i] != c {
        lemma_char_end(s, i + 1, c);
    }
}

pub fn char_end_at(v: &Vec<char>, i: usize, c: char) -> (j: usize)
    requires
        i <= v@.len(),
    ensures
        j == char_end(v@, i as int, c),
        i <= j <= v@.len(),
{
    let mut j = i;
    while j < v.len() && v[j] != c
        invariant
            i <= j <= v@.len(),
            char_end(v@, i as int, c) == char_end(v@, j as int, c),
        decreases v@.len() - j,
    {
        j += 1;
    }
    j
}

/// End of the current line: the next `'\n'` at or after `i`, or the end.
pub open spec fn line_end(s: Seq<char>, i: int) -> int {
    char_end(s, i, '\n')
}

/// Start of the next line, capped at the end of the text.
pub open spec fn nxt_line(s: Seq<char>, i: int) -> int {
    if line_end(s, i) < s.len() {
        line_end(s, i) + 1
    } else {
        s.len() as int
    }
}

/// First index at or after `i` holding a character other than `'#'`.
pub open spec fn hash_end(s: Seq<char>, i: int) -> int
    decreases s.len() - i,
{
    if 0 <= i && i < s.len() && s[i] == '#' {
        hash_end(s, i + 1)
    } else {
        i
    }
}

pub fn hash_end_at(v: &Vec<char>, i: usize) -> (j: usize)
    requires
        i <= v@.len(),
    ensures
        j == hash_end(v@, i as int),
        i <= j <= v@.len(),
{
    let mut j = i;
    while j < v.len() && v[j] == '#'
        invariant
            i <= j <= v@.len(),
            hash_end(v@, i as int) == hash_end(v@, j as int),
        decreases v@.len() - j,
    {
        j += 1;
    }
    j
}

/// First index at or after `i` holding a character other than `c`.
pub open spec fn run_end(s: Seq<char>, i: int, c: char) -> int
    decreases s.len() - i,
{
    if 0 <= i && i < s.len() && s[i] == c {
        run_end(s, i + 1, c)
    } else {
        i
    }
}

pub fn run_end_at(v: &Vec<char>, i: usize, c: char) -> (j: usize)
    requires
        i <= v@.len(),
    ensures
        j == run_end(v@, i as int, c),
        i <= j <= v@.len(),
{
    let mut j = i;
    while j < v.len() && v[j] == c
        invariant
            i <= j <= v@.len(),
            run_end(v@, i as int, c) == run_end(v@, j as int, c),
        decreases v@.len() - j,
    {
        j += 1;
    }
    j
}

/// Index just before the trailing run of `c` when scanning backwards
/// from `j`.
pub open spec fn rrun_begin(s: Seq<char>, j: int, c: char) -> int
    decreases j,
{
    if 0 < j && j <= s.len() && s[j - 1] == c {
        rrun_begin(s, j - 1, c)
    } else {
        j
    }
}

pub fn rrun_begin_at(v: &Vec<char>, j: usize, c: char) -> (b: usize)
    requires
        j <= v@.len(),
    ensures
        b == rrun_begin(v@, j as int, c),
        b <= j,
{
    let mut b = j;
    while b > 0 && v[b - 1] == c
        invariant
            0 <= b <= j <= v@.len(),
            rrun_begin(v@, j as int, c) == rrun_begin(v@, b as int, c),
        decreases b,
    {
        b -= 1;
    }
    b
}

/// Index just after the last trailing whitespace run boundary when
/// scanning backwards from `j`.
pub open spec fn rws_begin(s: Seq<char>, j: int) -> int
    decreases j,
{
    if 0 < j && j <= s.len() && is_ws_char(s[j - 1]) {
        rws_begin(s, j - 1)
    } else {
        j
    }
}

/// What `str::trim` leaves: the sequence with leading and trailing
/// whitespace removed.
pub open spec fn trim_seq(s: Seq<char>) -> Seq<char> {
    let a = ws_end(s, 0);
    let b = rws_begin(s, s.len() as int);
    if a < b {
        s.subrange(a, b)
    } else {
        Seq::empty()
    }
}

pub fn trim_vec(v: &Vec<char>) -> (r: Vec<char>)
    ensures
        r@ == trim_seq(v@),
{
    let a = ws_end_at(v, 0);
    let mut b = v.len();
    while b > 0 && char_is_ws(v[b - 1])
        invariant
            0 <= b <= v@.len(),
            rws_begin(v@, v@.len() as int) == rws_begin(v@, b as int),
        decreases b,
    {
        b -= 1;
    }
    if a < b {
        sub_vec(v, a, b)
    } else {
        let r: Vec<char> = Vec::new();
        assert(r@ =~= trim_seq(v@));
        r
    }
}

pub fn sub_vec(v: &Vec<char>, a: usize, b: usize) -> (r: Vec<char>)
    requires
        a <= b <= v@.len(),
    ensures
        r@ == v@.subrange(a as int, b as int),
{
    let mut r: Vec<char> = Vec::new();
    let mut i = a;
    while i < b
        invariant
            a <= i <= b <= v@.len(),
            r@.len() == i - a,
            forall|k: int| 0 <= k < r@.len() ==> r@[k] == v@[a + k],
        decreases b - i,
    {
        r.push(v[i]);
        i += 1;
    }
    assert(r@ =~= v@.subrange(a as int, b as int));
    r
}

/// Whether `pat` occurs in `s` starting exactly at `i`.
pub open spec fn match_at_spec(s: Seq<char>, i: int, pat: Seq<char>) -> bool {
    0 <= i && i + pat.len() <= s.len() && s.subrange(i, i + pat.len() as int) == pat
}

pub fn match_at(v: &Vec<char>, i: usize, pat: &Vec<char>) -> (r: bool)
    requires
        i <= v@.len(),
    ensures
        r == match_at_spec(v@, i as int, pat@),
{
    if v.len() - i < pat.len() {
        return false;
    }
    let mut k: usize = 0;
    while k < pat.len()
        invariant
            0 <= k <= pat@.len(),
            i + pat@.len() <= v@.len(),
            v@.len() <= usize::MAX,
            forall|m: int| 0 <= m < k ==> v@[i + m] == pat@[m],
        decreases pat@.len() - k,
    {
        if v[i + k] != pat[k] {
            assert(v@.subrange(i as int, i + pat@.len() as int)[k as int] != pat@[k as int]);
            return false;
        }
        k += 1;
    }
    assert(v@.subrange(i as int, i + pat@.len() as int) =~= pat@);
    true
}

/// Whether `p` is a prefix of `s`.
pub open spec fn is_prefix(s: Seq<char>, p: Seq<char>) -> bool {
    p.len() <= s.len() && s.subrange(0, p.len() as int) == p
}

pub fn has_prefix(v: &Vec<char>, p: &Vec<char>) -> (r: bool)
    ensures
        r == is_prefix(v@, p@),
{
    match_at(v, 0, p)
}

pub fn vecs_eq(a: &Vec<char>, b: &Vec<char>) -> (r: bool)
    ensures
        r == (a@ == b@),
{
    if a.len() != b.len() {
        return false;
    }
    let mut k: usize = 0;
    while k < a.len()
        invariant
            0 <= k <= a@.len(),
            a@.len() == b@.len(),
            forall|m: int| 0 <= m < k ==> a@[m] == b@[m],
        decreases a@.len() - k,
    {
        if a[k] != b[k] {
            return false;
        }
        k += 1;
    }
    assert(a@ =~= b@);
    true
}

/// First index at or after `i` where `pat` occurs in `s`, or `-1`.
pub open spec fn find_from(s: Seq<char>, i: int, pat: Seq<char>) -> int
    decreases s.len() - i,
{
    if 0 <= i && i + pat.len() <= s.len() {
        if s.subrange(i, i + pat.len() as int) == pat {
            i
        } else if i < s.len() {
            find_from(s, i + 1, pat)
        } else {
            -1
        }
    } else {
        -1
    }
}

pub proof fn lemma_find_from(s: Seq<char>, i: int, pat: Seq<char>)
    requires
        0 <= i,
    ensures
        find_from(s, i, pat) >= 0 ==> i <= find_from(s, i, pat)
            && match_at_spec(s, find_from(s, i, pat), pat),
        find_from(s, i, pat) >= 0 ==> forall|k: int|
            i <= k < find_from(s, i, pat) ==> !match_at_spec(s, k, pat),
        find_from(s, i, pat) == -1 ==> forall|k: int| i <= k ==> !match_at_spec(s, k, pat),
    decreases s.len() - i,
{
    if i + pat.len() <= s.len() && s.subrange(i, i + pat.len() as int) != pat && i < s.len() {
        lemma_find_from(s, i + 1, pat);
    }
}

pub fn find_at(v: &Vec<char>, i: usize, pat: &Vec<char>) -> (r: Option<usize>)
    requires
        i <= v@.len(),
        pat@.len() > 0,
    ensures
        find_from(v@, i as int, pat@) >= 0 ==> r == Some(find_from(v@, i as int, pat@) as usize),
        find_from(v@, i as int, pat@) < 0 ==> r is None,
{
    let mut j = i;
    loop
        invariant
            i <= j <= v@.len(),
            pat@.len() > 0,
            find_from(v@, i as int, pat@) == find_from(v@, j as int, pat@),
        decreases v@.len() - j,
    {
        if v.len() - j < pat.len() {
            return None;
        }
        if match_at(v, j, pat) {
            return Some(j);
        }
        j += 1;
    }
}

/// The characters of a string slice, as a vector.
pub fn to_chars(s: &str) -> (r: Vec<char>)
    ensures
        r@ == s@,
{
    let n = s.unicode_len();
    let mut r: Vec<char> = Vec::new();
    let mut i: usize = 0;
    while i < n
        invariant
            i <= n,
            n == s@.len(),
            r@ == s@.subrange(0, i as int),
        decreases n - i,
    {
        let c = s.get_char(i);
        r.push(c);
        i += 1;
        assert(r@ =~= s@.subrange(0, i as int));
    }
    assert(r@ =~= s@);
    r
}

/// Relies on `String::push`: appends the given character to the end of
/// the string.
#[verifier::external_body]
fn push_char(s: &mut String, c: char)
    ensures
        final(s)@ == old(s)@.push(c),
{
    s.push(c);
}

/// A `String` holding exactly the given characters.
pub fn string_from_chars(v: &Vec<char>) -> (r: String)
    ensures
        r@ == v@,
{
    let mut r = String::new();
    let mut i: usize = 0;
    while i < v.len()
        invariant
            i <= v@.len(),
            r@ == v@.subrange(0, i as int),
        decreases v@.len() - i,
    {
        push_char(&mut r, v[i]);
        i += 1;
        assert(r@ =~= v@.subrange(0, i as int));
    }
    assert(r@ =~= v@);
    r
}

} // verus!
