//! The fixed research prompt template, instantiated with the run date.

use vstd::prelude::*;
use vstd::string::*;

verus! {

/// The full research prompt for a date: the fixed template text with the
/// date spliced in after `Today's date: `.
pub open spec fn spec_research_prompt(date: Seq<char>) -> Seq<char> {
    "You are a Global AI Viral Intelligence Tracker v4.0.\n\nToday's date: "@ + date
        + "\n\nYour mission: Produce a comprehensive daily intelligence report covering the most\nsignificant and viral developments in the AI industry from the past 24 hours.\n\nStructure your report with these sections:\n\n## TL;DR\nA 3-5 bullet executive summary of the most impactful developments.\n\n## Global Viral Events\nFor each event, provide:\n- Headline\n- Category (product_launch, funding, partnership, regulation, research, open_source)\n- Impact Rating (1-10)\n- Confidence Level (high, medium, low)\n- Source\n\n## Strategic Deep Dives\nPick 2-3 events for deeper analysis:\n- Title and priority (HIGH/MEDIUM/LOW)\n- Summary paragraph\n- Key findings (bullet list)\n\n## Completeness Audit\n- Number of verified signals\n- Sources checked\n- Overall confidence score (0.0-1.0)\n- Coverage gaps (if any)\n\nBe thorough, cite sources, and rate your confidence honestly."@
}

/// Builds the research prompt for a date.
pub fn build_research_prompt(date: &str) -> (r: String)
    ensures
        r@ == spec_research_prompt(date@),
{
    let mut s = String::from_str(
        "You are a Global AI Viral Intelligence Tracker v4.0.\n\nToday's date: ",
    );
    s.append(date);
    s.append(
        "\n\nYour mission: Produce a comprehensive daily intelligence report covering the most\nsignificant and viral developments in the AI industry from the past 24 hours.\n\nStructure your report with these sections:\n\n## TL;DR\nA 3-5 bullet executive summary of the most impactful developments.\n\n## Global Viral Events\nFor each event, provide:\n- Headline\n- Category (product_launch, funding, partnership, regulation, research, open_source)\n- Impact Rating (1-10)\n- Confidence Level (high, medium, low)\n- Source\n\n## Strategic Deep Dives\nPick 2-3 events for deeper analysis:\n- Title and priority (HIGH/MEDIUM/LOW)\n- Summary paragraph\n- Key findings (bullet list)\n\n## Completeness Audit\n- Number of verified signals\n- Sources checked\n- Overall confidence score (0.0-1.0)\n- Coverage gaps (if any)\n\nBe thorough, cite sources, and rate your confidence honestly.",
    );
    s
}

} // verus!
