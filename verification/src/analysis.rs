//! The analysis orchestrator's pure heart: building the full analysis
//! input, and combining the three section outputs with all-or-nothing
//! semantics — if any one call failed, the whole analysis fails and the
//! error names the failing phase.

use vstd::prelude::*;
use vstd::string::*;
use crate::text::is_prefix;

verus! {

pub open spec fn result_view(r: Result<String, String>) -> Result<Seq<char>, Seq<char>> {
    match r {
        Ok(s) => Ok(s@),
        Err(s) => Err(s@),
    }
}

/// What combining the three section outcomes yields: the first failure
/// wins, in TL;DR, Events, Dives order, with the phase named; on full
/// success the outputs are concatenated in that order, separated by a
/// blank line.
pub open spec fn spec_combine(
    tldr: Result<Seq<char>, Seq<char>>,
    events: Result<Seq<char>, Seq<char>>,
    dives: Result<Seq<char>, Seq<char>>,
) -> Result<Seq<char>, Seq<char>> {
    match tldr {
        Err(m) => Err("TL;DR failed: "@ + m),
        Ok(ts) => match events {
            Err(m) => Err("Events failed: "@ + m),
            Ok(es) => match dives {
                Err(m) => Err("Dives failed: "@ + m),
                Ok(ds) => Ok(ts + "\n\n"@ + es + "\n\n"@ + ds),
            },
        },
    }
}

/// Combines the three completion outcomes into one raw text blob, or the
/// error of the first failing phase.
pub fn combine_analysis(
    tldr: Result<String, String>,
    events: Result<String, String>,
    dives: Result<String, String>,
) -> (r: Result<String, String>)
    ensures
        result_view(r) == spec_combine(result_view(tldr), result_view(events), result_view(dives)),
{
    match tldr {
        Err(m) => {
            let mut s = String::from_str("TL;DR failed: ");
            s.append(m.as_str());
            Err(s)
        },
        Ok(ts) => match events {
            Err(m) => {
                let mut s = String::from_str("Events failed: ");
                s.append(m.as_str());
                Err(s)
            },
            Ok(es) => match dives {
                Err(m) => {
                    let mut s = String::from_str("Dives failed: ");
                    s.append(m.as_str());
                    Err(s)
                },
                Ok(ds) => {
                    let mut s = ts;
                    s.append("\n\n");
                    s.append(es.as_str());
                    s.append("\n\n");
                    s.append(ds.as_str());
                    Ok(s)
                },
            },
        },
    }
}

/// The full analysis input: the base prompt with the merged search
/// context appended.
pub fn build_full_prompt(prompt: &str, search_context: &str) -> (r: String)
    ensures
        r@ == prompt@ + "\n\nSearch context:\n"@ + search_context@,
{
    let mut s = String::from_str(prompt);
    s.append("\n\nSearch context:\n");
    s.append(search_context);
    s
}

/// Law (failed analysis phase): when any of the three section calls
/// failed, the combined analysis is an error whose non-empty message
/// names the first failing phase — TL;DR, then Events, then Dives.
pub proof fn lemma_failed_phase_named(
    tldr: Result<Seq<char>, Seq<char>>,
    events: Result<Seq<char>, Seq<char>>,
    dives: Result<Seq<char>, Seq<char>>,
)
    requires
        tldr is Err || events is Err || dives is Err,
    ensures
        spec_combine(tldr, events, dives) is Err,
        spec_combine(tldr, events, dives)->Err_0.len() > 0,
        tldr is Err ==> is_prefix(spec_combine(tldr, events, dives)->Err_0, "TL;DR failed: "@),
        tldr is Ok && events is Err ==> is_prefix(
            spec_combine(tldr, events, dives)->Err_0,
            "Events failed: "@,
        ),
        tldr is Ok && events is Ok && dives is Err ==> is_prefix(
            spec_combine(tldr, events, dives)->Err_0,
            "Dives failed: "@,
        ),
{
    reveal_strlit("TL;DR failed: ");
    reveal_strlit("Events failed: ");
    reveal_strlit("Dives failed: ");
    let m = spec_combine(tldr, events, dives)->Err_0;
    if tldr is Err {
        assert(m.subrange(0, 14) =~= "TL;DR failed: "@);
    } else if events is Err {
        assert(m.subrange(0, 15) =~= "Events failed: "@);
    } else {
        assert(m.subrange(0, 14) =~= "Dives failed: "@);
    }
}

} // verus!
