//! Application settings and the parsing of the CORS origin list, which
//! accepts either a JSON-style bracketed list or a plain comma-separated
//! list.  Reading the environment happens outside the library; it hands
//! the raw text in.

use vstd::prelude::*;
use crate::text::{trim_seq, trim_vec, sub_vec, char_end, lemma_char_end, char_end_at, run_end,
    run_end_at, rrun_begin, rrun_begin_at, to_chars, string_from_chars};
use crate::events::strings_view;

verus! {

/// The application's configuration values.
#[derive(Clone, Debug)]
pub struct Settings {
    pub app_env: String,
    pub app_port: u16,
    pub openai_api_key: String,
    pub tavily_api_key: String,
    pub app_shared_password: String,
    pub jwt_secret: String,
    pub jwt_algorithm: String,
    pub jwt_expire_hours: i64,
    pub openai_model: String,
    pub cors_origins: Vec<String>,
}

/// The bracketed list's interior, or the text unchanged when it is not
/// bracketed.
pub open spec fn strip_brackets(t: Seq<char>) -> Seq<char> {
    if t.len() >= 2 && t[0] == '[' && t[t.len() - 1] == ']' {
        t.subrange(1, t.len() - 1)
    } else {
        t
    }
}

/// The text with every leading and trailing double quote removed.
pub open spec fn strip_quotes(s: Seq<char>) -> Seq<char> {
    let a = run_end(s, 0, '"');
    let b = rrun_begin(s, s.len() as int, '"');
    if a < b {
        s.subrange(a, b)
    } else {
        Seq::empty()
    }
}

/// One origin entry: the piece trimmed, unquoted, and trimmed again.
pub open spec fn cors_piece(p: Seq<char>) -> Seq<char> {
    trim_seq(strip_quotes(trim_seq(p)))
}

/// The origin entries of the comma-separated interior at or after `i`,
/// empty entries dropped.
pub open spec fn cors_from(s: Seq<char>, i: int) -> Seq<Seq<char>>
    decreases s.len() - i,
    via cors_from_dec
{
    if 0 <= i && i <= s.len() {
        let j = char_end(s, i, ',');
        let g = cors_piece(s.subrange(i, j));
        let here = if g.len() > 0 {
            seq![g]
        } else {
            Seq::<Seq<char>>::empty()
        };
        if j < s.len() {
            here + cors_from(s, j + 1)
        } else {
            here
        }
    } else {
        Seq::empty()
    }
}

#[via_fn]
proof fn cors_from_dec(s: Seq<char>, i: int) {
    if 0 <= i && i <= s.len() {
        lemma_char_end(s, i, ',');
    }
}

/// What `parse_cors_origins` returns, as a model.
pub open spec fn spec_parse_cors(raw: Seq<char>) -> Seq<Seq<char>> {
    cors_from(strip_brackets(trim_seq(raw)), 0)
}

fn strip_quotes_vec(s: &Vec<char>) -> (r: Vec<char>)
    ensures
        r@ == strip_quotes(s@),
{
    let a = run_end_at(s, 0, '"');
    let b = rrun_begin_at(s, s.len(), '"');
    if a < b {
        sub_vec(s, a, b)
    } else {
        let r: Vec<char> = Vec::new();
        assert(r@ =~= strip_quotes(s@));
        r
    }
}

/// Parses the configured CORS origins from either a JSON-style array
/// text or a plain comma-separated list: brackets are stripped, each
/// comma-separated entry is trimmed and unquoted, and empty entries are
/// dropped.
#[verifier::loop_isolation(false)]
pub fn parse_cors_origins(raw: &str) -> (r: Vec<String>)
    ensures
        strings_view(r@) == spec_parse_cors(raw@),
{
    let v = to_chars(raw);
    let t = trim_vec(&v);
    let inner = if t.len() >= 2 && t[0] == '[' && t[t.len() - 1] == ']' {
        sub_vec(&t, 1, t.len() - 1)
    } else {
        let c = sub_vec(&t, 0, t.len());
        assert(c@ =~= t@);
        c
    };
    assert(inner@ == strip_brackets(trim_seq(raw@)));
    let mut out: Vec<String> = Vec::new();
    let mut i: usize = 0;
    loop
        invariant
            i <= inner@.len(),
            strings_view(out@) + cors_from(inner@, i as int) == cors_from(inner@, 0),
        decreases inner@.len() - i,
    {
        let j = char_end_at(&inner, i, ',');
        let piece = sub_vec(&inner, i, j);
        let t1 = trim_vec(&piece);
        let q = strip_quotes_vec(&t1);
        let t2 = trim_vec(&q);
        let ghost old_out = out@;
        if t2.len() > 0 {
            let ts = string_from_chars(&t2);
            out.push(ts);
            proof {
                assert(strings_view(old_out.push(ts)) =~= strings_view(old_out).push(ts@));
            }
        }
        if j < inner.len() {
            i = j + 1;
        } else {
            assert(strings_view(out@) =~= cors_from(inner@, 0));
            return out;
        }
    }
}

} // verus!
