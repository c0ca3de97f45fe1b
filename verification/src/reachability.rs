use vstd::prelude::*;

use crate::catalog::{CatalogJson, EntryView};
use crate::finding::{Finding, FindingView, lemma_views_push, views};
use crate::rules::{has_https_scheme, is_https};

verus! {

/// A `download_url` to probe, with the id of the entry that names it.
pub struct ProbeTarget {
    pub id: String,
    pub url: String,
}

impl View for ProbeTarget {
    type V = (Seq<char>, Seq<char>);

    open spec fn view(&self) -> (Seq<char>, Seq<char>) {
        (self.id@, self.url@)
    }
}

/// What came of probing a URL: a response, successful (2xx) or not, with its
/// status text; or no response, with the error's text.
pub enum ProbeOutcome {
    Responded { success: bool, status: String },
    Failed { error: String },
}

/// The model of a `ProbeOutcome`.
pub enum ProbeOutcomeView {
    Responded { success: bool, status: Seq<char> },
    Failed { error: Seq<char> },
}

impl View for ProbeOutcome {
    type V = ProbeOutcomeView;

    open spec fn view(&self) -> ProbeOutcomeView {
        match self {
            ProbeOutcome::Responded { success, status } => ProbeOutcomeView::Responded {
                success: *success,
                status: status@,
            },
            ProbeOutcome::Failed { error } => ProbeOutcomeView::Failed { error: error@ },
        }
    }
}

/// The targets among the first `n` entries: each entry whose `download_url`
/// starts with `https://`, in order.
pub open spec fn probe_targets(es: Seq<EntryView>, n: nat) -> Seq<(Seq<char>, Seq<char>)>
    decreases n,
{
    if n == 0 {
        seq![]
    } else {
        let e = es[n - 1];
        probe_targets(es, (n - 1) as nat) + if is_https(e.download_url) {
            seq![(e.id, e.download_url)]
        } else {
            seq![]
        }
    }
}

pub open spec fn target_views(ts: Seq<ProbeTarget>) -> Seq<(Seq<char>, Seq<char>)> {
    ts.map_values(|t: ProbeTarget| t@)
}

pub open spec fn outcome_views(os: Seq<ProbeOutcome>) -> Seq<ProbeOutcomeView> {
    os.map_values(|o: ProbeOutcome| o@)
}

/// What is reported of one probe: nothing for a successful response, else an
/// `Unreachable` finding with the status text or the error's text.
pub open spec fn probe_result(t: (Seq<char>, Seq<char>), o: ProbeOutcomeView) -> Option<FindingView> {
    match o {
        ProbeOutcomeView::Responded { success, status } => if success {
            None
        } else {
            Some(FindingView::Unreachable { id: t.0, url: t.1, status })
        },
        ProbeOutcomeView::Failed { error } => Some(
            FindingView::Unreachable { id: t.0, url: t.1, status: error },
        ),
    }
}

/// What is reported of the first `n` probes, in order.
pub open spec fn probe_findings(
    ts: Seq<(Seq<char>, Seq<char>)>,
    os: Seq<ProbeOutcomeView>,
    n: nat,
) -> Seq<FindingView>
    decreases n,
{
    if n == 0 {
        seq![]
    } else {
        probe_findings(ts, os, (n - 1) as nat) + match probe_result(ts[n - 1], os[n - 1]) {
            Some(f) => seq![f],
            None => seq![],
        }
    }
}

/// The URLs to probe in a read catalog document; `None` when the document
/// could not be read, in which case nothing is probed at all.
pub fn reachability_targets(parsed: &Result<CatalogJson, String>) -> (res: Option<Vec<ProbeTarget>>)
    ensures
        match parsed {
            Err(_) => res is None,
            Ok(c) => res matches Some(ts) && target_views(ts@) == probe_targets(
                c@.plugins,
                c@.plugins.len(),
            ),
        },
{
    match parsed {
        Err(_) => None,
        Ok(catalog) => {
            let ghost es = catalog@.plugins;
            let mut ts: Vec<ProbeTarget> = Vec::new();
            assert(target_views(ts@) =~= probe_targets(es, 0));
            let n = catalog.plugins.len();
            for i in 0..n
                invariant
                    n == catalog.plugins@.len(),
                    es == catalog@.plugins,
                    target_views(ts@) == probe_targets(es, i as nat),
            {
                let p = &catalog.plugins[i];
                proof {
                    assert(es[i as int] == p@);
                }
                let ghost before = ts@;
                if has_https_scheme(p.download_url.as_str()) {
                    ts.push(ProbeTarget { id: p.id.clone(), url: p.download_url.clone() });
                }
                assert(target_views(ts@) =~= probe_targets(es, (i + 1) as nat));
            }
            Some(ts)
        },
    }
}

/// What is reported of probing one target.
pub fn probe_finding(target: &ProbeTarget, outcome: &ProbeOutcome) -> (res: Option<Finding>)
    ensures
        match res {
            Some(f) => probe_result(target@, outcome@) == Some(f@),
            None => probe_result(target@, outcome@) is None,
        },
{
    match outcome {
        ProbeOutcome::Responded { success, status } => {
            if *success {
                None
            } else {
                Some(
                    Finding::Unreachable {
                        id: target.id.clone(),
                        url: target.url.clone(),
                        status: status.clone(),
                    },
                )
            }
        },
        ProbeOutcome::Failed { error } => Some(
            Finding::Unreachable {
                id: target.id.clone(),
                url: target.url.clone(),
                status: error.clone(),
            },
        ),
    }
}

/// What is reported of the probes, given the outcome of probing each target
/// (`outcomes[i]` for `targets[i]`).
pub fn reachability_findings(targets: &Vec<ProbeTarget>, outcomes: &Vec<ProbeOutcome>) -> (res: Vec<
    Finding,
>)
    requires
        outcomes@.len() == targets@.len(),
    ensures
        views(res@) == probe_findings(
            target_views(targets@),
            outcome_views(outcomes@),
            targets@.len(),
        ),
{
    let ghost ts = target_views(targets@);
    let ghost os = outcome_views(outcomes@);
    let mut out: Vec<Finding> = Vec::new();
    assert(views(out@) =~= probe_findings(ts, os, 0));
    let n = targets.len();
    for i in 0..n
        invariant
            n == targets@.len(),
            outcomes@.len() == n,
            ts == target_views(targets@),
            os == outcome_views(outcomes@),
            views(out@) == probe_findings(ts, os, i as nat),
    {
        let r = probe_finding(&targets[i], &outcomes[i]);
        proof {
            assert(ts[i as int] == targets@[i as int]@);
            assert(os[i as int] == outcomes@[i as int]@);
        }
        match r {
            Some(f) => {
                proof {
                    lemma_views_push(out@, f);
                }
                out.push(f);
            },
            None => {},
        }
        assert(views(out@) =~= probe_findings(ts, os, (i + 1) as nat));
    }
    out
}

/// The finding reported when no HTTP client could be set up to probe with.
pub fn client_failure(error: &str) -> (f: Finding)
    ensures
        f@ == (FindingView::MalformedJson { detail: "http client: "@ + error@ }),
{
    let mut detail = String::from_str("http client: ");
    detail.append(error);
    Finding::MalformedJson { detail }
}

/// Only `https://` URLs are probed, and every entry with one is probed.
pub proof fn lemma_probe_targets_https(es: Seq<EntryView>, n: nat)
    requires
        n <= es.len(),
    ensures
        forall|k: int|
            0 <= k < probe_targets(es, n).len() ==> is_https(#[trigger] probe_targets(es, n)[k].1),
        forall|i: int|
            0 <= i < n && is_https(#[trigger] es[i].download_url) ==> probe_targets(es, n).contains(
                (es[i].id, es[i].download_url),
            ),
    decreases n,
{
    if n > 0 {
        let m = (n - 1) as nat;
        lemma_probe_targets_https(es, m);
        let prev = probe_targets(es, m);
        let cur = probe_targets(es, n);
        assert forall|k: int| 0 <= k < cur.len() implies is_https(#[trigger] cur[k].1) by {
            if k < prev.len() {
                assert(cur[k] == prev[k]);
            }
        }
        assert forall|i: int|
            0 <= i < n && is_https(#[trigger] es[i].download_url) implies cur.contains(
                (es[i].id, es[i].download_url),
            ) by {
            if i < m {
                let k = choose|k: int| 0 <= k < prev.len() && prev[k] == (es[i].id, es[i].download_url);
                assert(cur[k] == prev[k]);
            } else {
                assert(cur[prev.len() as int] == (es[i].id, es[i].download_url));
            }
        }
    }
}

/// A probe is reported exactly when it did not end in a successful response:
/// no response at all always gives an `Unreachable` finding carrying the
/// error's text, an unsuccessful response one carrying the status text, and a
/// successful response nothing.
pub proof fn lemma_probe_result_cases(t: (Seq<char>, Seq<char>), o: ProbeOutcomeView)
    ensures
        o matches ProbeOutcomeView::Failed { error } ==> probe_result(t, o) == Some(
            FindingView::Unreachable { id: t.0, url: t.1, status: error },
        ),
        o matches ProbeOutcomeView::Responded { success, status } ==> (if success {
            probe_result(t, o) == None::<FindingView>
        } else {
            probe_result(t, o) == Some(FindingView::Unreachable { id: t.0, url: t.1, status })
        }),
{
}

/// The status text an `Unreachable` finding carries for a probe outcome that
/// is not a successful response.
pub open spec fn failure_text(o: ProbeOutcomeView) -> Seq<char> {
    match o {
        ProbeOutcomeView::Responded { status, .. } => status,
        ProbeOutcomeView::Failed { error } => error,
    }
}

pub open spec fn probe_succeeded(o: ProbeOutcomeView) -> bool {
    o matches ProbeOutcomeView::Responded { success, .. } && success
}

/// Every probe among the first `n` that did not succeed is reported, with its
/// target's id and URL and its status or error text; and every reported
/// finding is such a report of one of those probes.
pub proof fn lemma_probe_findings_complete(
    ts: Seq<(Seq<char>, Seq<char>)>,
    os: Seq<ProbeOutcomeView>,
    n: nat,
)
    requires
        n <= ts.len(),
        n <= os.len(),
    ensures
        forall|i: int|
            0 <= i < n && !probe_succeeded(#[trigger] os[i]) ==> probe_findings(ts, os, n).contains(
                (FindingView::Unreachable { id: ts[i].0, url: ts[i].1, status: failure_text(os[i]) }),
            ),
        forall|k: int|
            0 <= k < probe_findings(ts, os, n).len() ==> exists|i: int|
                0 <= i < n && !probe_succeeded(os[i]) && #[trigger] probe_findings(ts, os, n)[k]
                    == (FindingView::Unreachable {
                    id: ts[i].0,
                    url: ts[i].1,
                    status: failure_text(os[i]),
                }),
    decreases n,
{
    if n > 0 {
        let m = (n - 1) as nat;
        lemma_probe_findings_complete(ts, os, m);
        let prev = probe_findings(ts, os, m);
        let cur = probe_findings(ts, os, n);
        let last = match probe_result(ts[m as int], os[m as int]) {
            Some(f) => seq![f],
            None => seq![],
        };
        assert(cur == prev + last);
        assert forall|i: int|
            0 <= i < n && !probe_succeeded(#[trigger] os[i]) implies cur.contains(
                FindingView::Unreachable { id: ts[i].0, url: ts[i].1, status: failure_text(os[i]) },
            ) by {
            let x = FindingView::Unreachable {
                id: ts[i].0,
                url: ts[i].1,
                status: failure_text(os[i]),
            };
            if i < m {
                let k = choose|k: int| 0 <= k < prev.len() && prev[k] == x;
                assert(cur[k] == x);
            } else {
                assert(cur[prev.len() as int] == x);
            }
        }
        assert forall|k: int| 0 <= k < cur.len() implies exists|i: int|
            0 <= i < n && !probe_succeeded(os[i]) && #[trigger] cur[k] == FindingView::Unreachable {
                id: ts[i].0,
                url: ts[i].1,
                status: failure_text(os[i]),
            } by {
            if k < prev.len() {
                assert(cur[k] == prev[k]);
                let i = choose|i: int|
                    0 <= i < m && !probe_succeeded(os[i]) && #[trigger] prev[k]
                        == FindingView::Unreachable {
                        id: ts[i].0,
                        url: ts[i].1,
                        status: failure_text(os[i]),
                    };
                assert(cur[k] == FindingView::Unreachable {
                    id: ts[i].0,
                    url: ts[i].1,
                    status: failure_text(os[i]),
                });
            } else {
                assert(cur[k] == last[0]);
                assert(!probe_succeeded(os[m as int]));
            }
        }
    }
}

/// The probe targets are exactly the entries whose `download_url` starts with
/// `https://`, in order, each as its id and that URL.
pub proof fn lemma_probe_targets_are_https_downloads(es: Seq<EntryView>, n: nat)
    requires
        n <= es.len(),
    ensures
        probe_targets(es, n) == es.take(n as int).filter(
            |e: EntryView| is_https(e.download_url),
        ).map_values(|e: EntryView| (e.id, e.download_url)),
    decreases n,
{
    let pred = |e: EntryView| is_https(e.download_url);
    let f = |e: EntryView| (e.id, e.download_url);
    if n == 0 {
        assert(es.take(0) =~= Seq::<EntryView>::empty());
        assert(es.take(0).filter(pred) =~= Seq::<EntryView>::empty());
        assert(es.take(0).filter(pred).map_values(f) =~= probe_targets(es, 0));
    } else {
        let m = (n - 1) as nat;
        lemma_probe_targets_are_https_downloads(es, m);
        let t = es.take(n as int);
        assert(t.drop_last() =~= es.take(m as int));
        assert(t.last() == es[m as int]);
        assert(t =~= es.take(m as int).push(es[m as int]));
        es.take(m as int).lemma_filter_push(es[m as int], pred);
        if pred(es[m as int]) {
            es.take(m as int).filter(pred).lemma_push_map_commute(f, es[m as int]);
            assert(probe_targets(es, n) =~= t.filter(pred).map_values(f));
        } else {
            assert(probe_targets(es, n) =~= t.filter(pred).map_values(f));
        }
    }
}

} // verus!
