//! The search aggregator: three query variants are derived from a topic,
//! and the per-query outcomes are merged in query order, deduplicated by
//! url (first occurrence wins) and rendered into one context string.
//! Aggregation fails only when the merged set is empty.

use vstd::prelude::*;
use vstd::string::*;

verus! {

/// One search hit; its identity is its url.
#[derive(Clone, Debug, PartialEq)]
pub struct SearchHit {
    pub title: String,
    pub url: String,
    pub content: String,
}

/// Model of a [`SearchHit`].
pub struct SearchHitModel {
    pub title: Seq<char>,
    pub url: Seq<char>,
    pub content: Seq<char>,
}

impl View for SearchHit {
    type V = SearchHitModel;

    open spec fn view(&self) -> SearchHitModel {
        SearchHitModel { title: self.title@, url: self.url@, content: self.content@ }
    }
}

/// Why aggregation failed.
#[derive(Clone, Copy, Debug, PartialEq, Eq, Structural)]
pub enum SearchError {
    /// Every query failed or returned nothing.
    AllSearchesFailed,
}

impl SearchError {
    pub fn message(&self) -> (r: String)
        ensures
            r@ == "All Tavily searches failed"@,
    {
        String::from_str("All Tavily searches failed")
    }
}

pub open spec fn hits_view(s: Seq<SearchHit>) -> Seq<SearchHitModel> {
    s.map_values(|h: SearchHit| h@)
}

/// The models of the per-query outcomes; a failed query is `None`.
pub open spec fn outcomes_view(o: Seq<Option<Vec<SearchHit>>>) -> Seq<Option<Seq<SearchHitModel>>> {
    o.map_values(
        |x: Option<Vec<SearchHit>>|
            match x {
                Some(v) => Some(hits_view(v@)),
                None => None,
            },
    )
}

/// The hits of the successful outcomes, in outcome order.
pub open spec fn flatten_ok(o: Seq<Option<Seq<SearchHitModel>>>) -> Seq<SearchHitModel>
    decreases o.len(),
{
    if o.len() == 0 {
        Seq::empty()
    } else {
        (match o[0] {
            Some(hs) => hs,
            None => Seq::<SearchHitModel>::empty(),
        }) + flatten_ok(o.drop_first())
    }
}

pub open spec fn seq_contains_url(seen: Seq<Seq<char>>, u: Seq<char>) -> bool {
    exists|k: int| 0 <= k < seen.len() && seen[k] == u
}

/// One deduplication pass: the hits kept (those whose url was not seen
/// before, first occurrence winning) and the seen-url list afterwards.
pub open spec fn dedup_step(hits: Seq<SearchHitModel>, seen: Seq<Seq<char>>) -> (
    Seq<SearchHitModel>,
    Seq<Seq<char>>,
)
    decreases hits.len(),
{
    if hits.len() == 0 {
        (Seq::<SearchHitModel>::empty(), seen)
    } else {
        let h = hits[0];
        if seq_contains_url(seen, h.url) {
            dedup_step(hits.drop_first(), seen)
        } else {
            let rest = dedup_step(hits.drop_first(), seen.push(h.url));
            (seq![h] + rest.0, rest.1)
        }
    }
}

/// The merged, deduplicated hit list of a run's outcomes.
pub open spec fn spec_merged(o: Seq<Option<Seq<SearchHitModel>>>) -> Seq<SearchHitModel> {
    dedup_step(flatten_ok(o), Seq::empty()).0
}

/// The fixed text block one hit renders to.
pub open spec fn render_hit(h: SearchHitModel) -> Seq<char> {
    "Title: "@ + h.title + "\nURL: "@ + h.url + "\nContent: "@ + h.content + "\n"@
}

/// The rendered hits joined by the separator line.
pub open spec fn join_rendered(hs: Seq<SearchHitModel>) -> Seq<char>
    decreases hs.len(),
{
    if hs.len() == 0 {
        Seq::empty()
    } else if hs.len() == 1 {
        render_hit(hs[0])
    } else {
        render_hit(hs[0]) + "\n---\n"@ + join_rendered(hs.drop_first())
    }
}

proof fn lemma_join_push(hs: Seq<SearchHitModel>, h: SearchHitModel)
    ensures
        hs.len() == 0 ==> join_rendered(hs.push(h)) == render_hit(h),
        hs.len() > 0 ==> join_rendered(hs.push(h)) == join_rendered(hs) + "\n---\n"@ + render_hit(
            h,
        ),
    decreases hs.len(),
{
    if hs.len() == 0 {
        assert(hs.push(h)[0] == h);
        assert(hs.push(h).len() == 1);
    } else {
        lemma_join_push(hs.drop_first(), h);
        assert(hs.push(h).drop_first() =~= hs.drop_first().push(h));
        assert(hs.push(h)[0] == hs[0]);
        if hs.len() == 1 {
            assert(join_rendered(hs) == render_hit(hs[0]));
        } else {
            assert(join_rendered(hs.push(h)) == render_hit(hs[0]) + "\n---\n"@ + join_rendered(
                hs.drop_first().push(h),
            ));
            assert((render_hit(hs[0]) + "\n---\n"@ + join_rendered(hs.drop_first())) + "\n---\n"@
                + render_hit(h) =~= render_hit(hs[0]) + "\n---\n"@ + (join_rendered(
                hs.drop_first(),
            ) + "\n---\n"@ + render_hit(h)));
        }
    }
}

proof fn lemma_flatten_push(o: Seq<Option<Seq<SearchHitModel>>>, x: Option<Seq<SearchHitModel>>)
    ensures
        flatten_ok(o.push(x)) == flatten_ok(o) + (match x {
            Some(hs) => hs,
            None => Seq::<SearchHitModel>::empty(),
        }),
    decreases o.len(),
{
    let tail = match x {
        Some(hs) => hs,
        None => Seq::<SearchHitModel>::empty(),
    };
    if o.len() == 0 {
        assert(o.push(x)[0] == x);
        assert(o.push(x).drop_first() =~= Seq::<Option<Seq<SearchHitModel>>>::empty());
        assert(flatten_ok(Seq::<Option<Seq<SearchHitModel>>>::empty()).len() == 0);
        assert(flatten_ok(o.push(x)) =~= tail);
        assert(flatten_ok(o) + tail =~= tail);
    } else {
        lemma_flatten_push(o.drop_first(), x);
        assert(o.push(x).drop_first() =~= o.drop_first().push(x));
        assert(o.push(x)[0] == o[0]);
        let head = match o[0] {
            Some(hs) => hs,
            None => Seq::<SearchHitModel>::empty(),
        };
        assert(head + (flatten_ok(o.drop_first()) + tail) =~= (head + flatten_ok(o.drop_first()))
            + tail);
    }
}

proof fn lemma_dedup_concat(a: Seq<SearchHitModel>, b: Seq<SearchHitModel>, seen: Seq<Seq<char>>)
    ensures
        dedup_step(a + b, seen).0 == dedup_step(a, seen).0 + dedup_step(b, dedup_step(a, seen).1).0,
        dedup_step(a + b, seen).1 == dedup_step(b, dedup_step(a, seen).1).1,
    decreases a.len(),
{
    if a.len() == 0 {
        assert(a + b =~= b);
        assert(dedup_step(a, seen).0 + dedup_step(b, seen).0 =~= dedup_step(b, seen).0);
    } else {
        assert((a + b)[0] == a[0]);
        assert((a + b).drop_first() =~= a.drop_first() + b);
        if seq_contains_url(seen, a[0].url) {
            lemma_dedup_concat(a.drop_first(), b, seen);
        } else {
            lemma_dedup_concat(a.drop_first(), b, seen.push(a[0].url));
            assert(seq![a[0]] + (dedup_step(a.drop_first(), seen.push(a[0].url)).0 + dedup_step(
                b,
                dedup_step(a.drop_first(), seen.push(a[0].url)).1,
            ).0) =~= (seq![a[0]] + dedup_step(a.drop_first(), seen.push(a[0].url)).0) + dedup_step(
                b,
                dedup_step(a.drop_first(), seen.push(a[0].url)).1,
            ).0);
        }
    }
}

/// The first hit bearing a given url.
pub open spec fn first_hit_with(hits: Seq<SearchHitModel>, u: Seq<char>) -> SearchHitModel
    decreases hits.len(),
{
    if hits.len() == 0 {
        arbitrary()
    } else if hits[0].url == u {
        hits[0]
    } else {
        first_hit_with(hits.drop_first(), u)
    }
}

pub open spec fn merged_urls(hs: Seq<SearchHitModel>) -> Seq<Seq<char>> {
    hs.map_values(|h: SearchHitModel| h.url)
}

/// Law (deduplication): among the hits kept by a deduplication pass, no
/// url occurs twice; every kept hit is the first hit bearing its url; and
/// every hit whose url was not already seen is represented.  Applied to
/// `spec_merged` (an empty seen list), this says the aggregated context
/// holds each url's content exactly once, first occurrence preserved.
pub proof fn lemma_dedup_first_occurrence(hits: Seq<SearchHitModel>, seen: Seq<Seq<char>>)
    ensures
        forall|p: int, q: int|
            0 <= p < q < dedup_step(hits, seen).0.len() ==> dedup_step(hits, seen).0[p].url
                != dedup_step(hits, seen).0[q].url,
        forall|p: int|
            0 <= p < dedup_step(hits, seen).0.len() ==> !seq_contains_url(
                seen,
                dedup_step(hits, seen).0[p].url,
            ),
        forall|p: int|
            0 <= p < dedup_step(hits, seen).0.len() ==> dedup_step(hits, seen).0[p]
                == first_hit_with(hits, dedup_step(hits, seen).0[p].url),
        forall|i: int|
            0 <= i < hits.len() && !seq_contains_url(seen, hits[i].url) ==> seq_contains_url(
                merged_urls(dedup_step(hits, seen).0),
                hits[i].url,
            ),
    decreases hits.len(),
{
    if hits.len() > 0 {
        let h = hits[0];
        let rest = hits.drop_first();
        if seq_contains_url(seen, h.url) {
            lemma_dedup_first_occurrence(rest, seen);
            assert(dedup_step(hits, seen) == dedup_step(rest, seen));
            assert forall|p: int| 0 <= p < dedup_step(hits, seen).0.len() implies dedup_step(
                hits,
                seen,
            ).0[p] == first_hit_with(hits, dedup_step(hits, seen).0[p].url) by {
                assert(dedup_step(hits, seen).0[p].url != h.url);
            }
            assert forall|i: int|
                0 <= i < hits.len() && !seq_contains_url(seen, hits[i].url) implies seq_contains_url(
                merged_urls(dedup_step(hits, seen).0),
                hits[i].url,
            ) by {
                assert(hits[i].url != h.url);
                assert(hits[i] == rest[i - 1]);
            }
        } else {
            lemma_dedup_first_occurrence(rest, seen.push(h.url));
            let out = dedup_step(hits, seen).0;
            let rout = dedup_step(rest, seen.push(h.url)).0;
            assert(out =~= seq![h] + rout);
            assert(out[0] == h);
            assert forall|p: int| 0 <= p < out.len() implies out[p] == first_hit_with(
                hits,
                out[p].url,
            ) && !seq_contains_url(seen, out[p].url) by {
                if p == 0 {
                    assert(first_hit_with(hits, h.url) == h);
                } else {
                    assert(out[p] == rout[p - 1]);
                    assert(!seq_contains_url(seen.push(h.url), rout[p - 1].url));
                    assert(seen.push(h.url)[seen.len() as int] == h.url);
                    assert(rout[p - 1].url != h.url);
                    assert forall|k: int| 0 <= k < seen.len() implies seen[k] != rout[p - 1].url by {
                        assert(seen.push(h.url)[k] == seen[k]);
                    }
                }
            }
            assert forall|p: int, q: int| 0 <= p < q < out.len() implies out[p].url
                != out[q].url by {
                if p == 0 {
                    assert(out[q] == rout[q - 1]);
                    assert(!seq_contains_url(seen.push(h.url), rout[q - 1].url));
                    assert(seen.push(h.url)[seen.len() as int] == h.url);
                } else {
                    assert(out[p] == rout[p - 1] && out[q] == rout[q - 1]);
                }
            }
            assert forall|i: int|
                0 <= i < hits.len() && !seq_contains_url(seen, hits[i].url) implies seq_contains_url(
                merged_urls(out),
                hits[i].url,
            ) by {
                if hits[i].url == h.url {
                    assert(merged_urls(out)[0] == h.url);
                } else {
                    assert(hits[i] == rest[i - 1]);
                    assert(!seq_contains_url(seen.push(h.url), rest[i - 1].url)) by {
                        assert forall|k: int|
                            0 <= k < seen.push(h.url).len() implies seen.push(h.url)[k] != rest[i
                            - 1].url by {
                            if k < seen.len() {
                                assert(seen.push(h.url)[k] == seen[k]);
                            }
                        }
                    }
                    let k0 = choose|k: int|
                        0 <= k < merged_urls(rout).len() && merged_urls(rout)[k] == rest[i - 1].url;
                    assert(merged_urls(out)[k0 + 1] == merged_urls(rout)[k0]);
                }
            }
        }
    }
}

/// Law (total failure): when every search outcome failed, the merged set
/// is empty — aggregation fails; when any outcome carries at least one
/// hit, the merged set is non-empty — losing one query does not lose the
/// aggregation.
pub proof fn lemma_aggregate_failure_modes(o: Seq<Option<Seq<SearchHitModel>>>)
    ensures
        (forall|k: int| 0 <= k < o.len() ==> o[k] is None) ==> spec_merged(o).len() == 0,
        (exists|k: int| 0 <= k < o.len() && o[k] is Some && o[k]->Some_0.len() > 0)
            ==> spec_merged(o).len() > 0,
{
    lemma_flatten_all_none(o);
    lemma_flatten_some_nonempty(o);
    lemma_dedup_keeps_nonempty(flatten_ok(o), Seq::empty());
}

proof fn lemma_flatten_all_none(o: Seq<Option<Seq<SearchHitModel>>>)
    ensures
        (forall|k: int| 0 <= k < o.len() ==> o[k] is None) ==> flatten_ok(o).len() == 0,
    decreases o.len(),
{
    if o.len() > 0 {
        lemma_flatten_all_none(o.drop_first());
        if forall|k: int| 0 <= k < o.len() ==> o[k] is None {
            assert(o[0] is None);
            assert(forall|k: int|
                0 <= k < o.drop_first().len() ==> #[trigger] o.drop_first()[k] == o[k + 1]);
        }
    }
}

proof fn lemma_flatten_some_nonempty(o: Seq<Option<Seq<SearchHitModel>>>)
    ensures
        (exists|k: int| 0 <= k < o.len() && o[k] is Some && o[k]->Some_0.len() > 0) ==> flatten_ok(
            o,
        ).len() > 0,
    decreases o.len(),
{
    if o.len() > 0 {
        lemma_flatten_some_nonempty(o.drop_first());
        if exists|k: int| 0 <= k < o.len() && o[k] is Some && o[k]->Some_0.len() > 0 {
            let k = choose|k: int| 0 <= k < o.len() && o[k] is Some && o[k]->Some_0.len() > 0;
            if k > 0 {
                assert(o.drop_first()[k - 1] == o[k]);
            }
        }
    }
}

proof fn lemma_dedup_keeps_nonempty(hits: Seq<SearchHitModel>, seen: Seq<Seq<char>>)
    ensures
        hits.len() > 0 && !seq_contains_url(seen, hits[0].url) ==> dedup_step(hits, seen).0.len()
            > 0,
        seen.len() == 0 && hits.len() > 0 ==> dedup_step(hits, seen).0.len() > 0,
{
}

// ---------------------------------------------------------------------
// Executable aggregation
// ---------------------------------------------------------------------

fn hit_clone(h: &SearchHit) -> (r: SearchHit)
    ensures
        r@ == h@,
{
    SearchHit { title: h.title.clone(), url: h.url.clone(), content: h.content.clone() }
}

#[verifier::loop_isolation(false)]
fn url_seen(seen: &Vec<String>, u: &String) -> (r: bool)
    ensures
        r == seq_contains_url(crate::events::strings_view(seen@), u@),
{
    let mut k: usize = 0;
    while k < seen.len()
        invariant
            k <= seen@.len(),
            forall|m: int| 0 <= m < k ==> crate::events::strings_view(seen@)[m] != u@,
        decreases seen@.len() - k,
    {
        if seen[k] == *u {
            assert(crate::events::strings_view(seen@)[k as int] == u@);
            return true;
        }
        k += 1;
    }
    false
}

#[verifier::loop_isolation(false)]
fn dedup_into(kept: &mut Vec<SearchHit>, seen: &mut Vec<String>, hits: &Vec<SearchHit>)
    ensures
        hits_view(final(kept)@) == hits_view(old(kept)@) + dedup_step(
            hits_view(hits@),
            crate::events::strings_view(old(seen)@),
        ).0,
        crate::events::strings_view(final(seen)@) == dedup_step(
            hits_view(hits@),
            crate::events::strings_view(old(seen)@),
        ).1,
{
    let ghost total = dedup_step(hits_view(hits@), crate::events::strings_view(old(seen)@));
    proof {
        assert(hits_view(hits@).skip(0) =~= hits_view(hits@));
    }
    let mut hi: usize = 0;
    while hi < hits.len()
        invariant
            hi <= hits@.len(),
            hits_view(kept@) + dedup_step(
                hits_view(hits@).skip(hi as int),
                crate::events::strings_view(seen@),
            ).0 == hits_view(old(kept)@) + total.0,
            dedup_step(hits_view(hits@).skip(hi as int), crate::events::strings_view(seen@)).1
                == total.1,
        decreases hits@.len() - hi,
    {
        let h = &hits[hi];
        let ghost pre = hits_view(hits@).skip(hi as int);
        proof {
            assert(pre[0] == hits@[hi as int]@);
            assert(pre.drop_first() =~= hits_view(hits@).skip(hi + 1));
        }
        if !url_seen(seen, &h.url) {
            let ghost old_seen = seen@;
            let ghost old_kept = kept@;
            let uc = h.url.clone();
            let hc = hit_clone(h);
            seen.push(uc);
            kept.push(hc);
            proof {
                assert(crate::events::strings_view(old_seen.push(uc))
                    =~= crate::events::strings_view(old_seen).push(h.url@));
                assert(hits_view(old_kept.push(hc)) =~= hits_view(old_kept).push(h@));
                assert(hits_view(old_kept) + (seq![pre[0]] + dedup_step(
                    pre.drop_first(),
                    crate::events::strings_view(old_seen).push(pre[0].url),
                ).0) =~= hits_view(old_kept).push(h@) + dedup_step(
                    pre.drop_first(),
                    crate::events::strings_view(old_seen).push(pre[0].url),
                ).0);
            }
        }
        hi += 1;
    }
    proof {
        assert(hits_view(hits@).skip(hits@.len() as int) =~= Seq::<SearchHitModel>::empty());
        assert(hits_view(kept@) + Seq::<SearchHitModel>::empty() =~= hits_view(kept@));
        assert(hits_view(old(kept)@) + total.0 == hits_view(kept@));
    }
}

#[verifier::loop_isolation(false)]
fn render_hits(kept: &Vec<SearchHit>) -> (r: String)
    ensures
        r@ == join_rendered(hits_view(kept@)),
{
    let mut s = String::new();
    let mut i: usize = 0;
    while i < kept.len()
        invariant
            i <= kept@.len(),
            s@ == join_rendered(hits_view(kept@).take(i as int)),
        decreases kept@.len() - i,
    {
        let ghost pre = hits_view(kept@).take(i as int);
        if i > 0 {
            s.append("\n---\n");
        }
        let h = &kept[i];
        s.append("Title: ");
        s.append(h.title.as_str());
        s.append("\nURL: ");
        s.append(h.url.as_str());
        s.append("\nContent: ");
        s.append(h.content.as_str());
        s.append("\n");
        proof {
            lemma_join_push(pre, h@);
            assert(hits_view(kept@).take(i + 1) =~= pre.push(h@));
            if i == 0 {
                assert(s@ =~= render_hit(h@));
            } else {
                assert(s@ =~= join_rendered(pre) + "\n---\n"@ + render_hit(h@));
            }
        }
        i += 1;
    }
    assert(hits_view(kept@).take(kept@.len() as int) =~= hits_view(kept@));
    s
}

/// Merges the per-query search outcomes: hits are kept in query order,
/// later hits with an already-seen url are dropped, and the survivors are
/// rendered and joined.  Fails with [`SearchError::AllSearchesFailed`]
/// exactly when the merged set is empty — every query failed or returned
/// zero hits.
#[verifier::loop_isolation(false)]
pub fn aggregate_search_results(outcomes: &Vec<Option<Vec<SearchHit>>>) -> (r: Result<
    String,
    SearchError,
>)
    ensures
        r is Err <==> spec_merged(outcomes_view(outcomes@)).len() == 0,
        match r {
            Ok(s) => s@ == join_rendered(spec_merged(outcomes_view(outcomes@))),
            Err(e) => e == SearchError::AllSearchesFailed,
        },
{
    let ghost ov = outcomes_view(outcomes@);
    let mut kept: Vec<SearchHit> = Vec::new();
    let mut seen: Vec<String> = Vec::new();
    let mut qi: usize = 0;
    while qi < outcomes.len()
        invariant
            qi <= outcomes@.len(),
            ov == outcomes_view(outcomes@),
            hits_view(kept@) == dedup_step(flatten_ok(ov.take(qi as int)), Seq::empty()).0,
            crate::events::strings_view(seen@) == dedup_step(
                flatten_ok(ov.take(qi as int)),
                Seq::empty(),
            ).1,
        decreases outcomes@.len() - qi,
    {
        let ghost pre = ov.take(qi as int);
        proof {
            assert(ov.take(qi + 1) =~= pre.push(ov[qi as int]));
            lemma_flatten_push(pre, ov[qi as int]);
        }
        match &outcomes[qi] {
            Some(hits) => {
                proof {
                    assert(ov[qi as int] == Some(hits_view(hits@)));
                    lemma_dedup_concat(flatten_ok(pre), hits_view(hits@), Seq::empty());
                }
                dedup_into(&mut kept, &mut seen, hits);
            },
            None => {
                proof {
                    assert(flatten_ok(pre.push(ov[qi as int])) =~= flatten_ok(pre));
                }
            },
        }
        qi += 1;
    }
    proof {
        assert(ov.take(outcomes@.len() as int) =~= ov);
    }
    if kept.len() == 0 {
        assert(spec_merged(ov).len() == 0);
        Err(SearchError::AllSearchesFailed)
    } else {
        Ok(render_hits(&kept))
    }
}

/// The three fixed query variants derived from a topic.
pub fn derive_queries(topic: &str) -> (r: Vec<String>)
    ensures
        r@.len() == 3,
        r@[0]@ == topic@ + " latest news today"@,
        r@[1]@ == topic@ + " breakthroughs announcements"@,
        r@[2]@ == topic@ + " funding partnerships"@,
{
    let mut q1 = String::from_str(topic);
    q1.append(" latest news today");
    let mut q2 = String::from_str(topic);
    q2.append(" breakthroughs announcements");
    let mut q3 = String::from_str(topic);
    q3.append(" funding partnerships");
    let mut r: Vec<String> = Vec::new();
    r.push(q1);
    r.push(q2);
    r.push(q3);
    r
}

} // verus!
