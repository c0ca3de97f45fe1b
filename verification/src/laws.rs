use vstd::prelude::*;

use crate::catalog::{CatalogView, EntryView};
use crate::external::{is_hex_text, semver_accepts};
use crate::finding::FindingView;
use crate::rules::{
    bad_hex_reason, catalog_findings, is_id_char, entry_findings, field_findings, finding_if, icon_findings, id_findings,
    ids_seen, is_https, plugin_findings, report_id, seen_after, semver_verdicts, url_findings,
    valid_id, validation_outcome,
};

verus! {

/// The field rules of one entry: a well-formed id, a name, a version that the
/// SemVer parser accepts (`version_ok`), an `https://` download URL, a
/// hexadecimal signing key, and an `https://` icon URL when one is given.
pub open spec fn entry_follows_rules(e: EntryView, version_ok: bool) -> bool {
    &&& valid_id(e.id)
    &&& e.name.len() > 0
    &&& e.version.len() > 0 && version_ok
    &&& e.download_url.len() > 0 && is_https(e.download_url)
    &&& e.signing_pubkey.len() > 0 && is_hex_text(e.signing_pubkey)
    &&& match e.icon_url {
        Some(u) => u.len() == 0 || is_https(u),
        None => true,
    }
}

/// No two of the first `n` entries share an id.
pub open spec fn ids_distinct(es: Seq<EntryView>, n: nat) -> bool {
    forall|i: int, j: int| 0 <= i < j < n ==> es[i].id != es[j].id
}

/// The catalog's rules, given the SemVer verdict on each version.
pub open spec fn catalog_follows_rules_with(c: CatalogView, oks: Seq<bool>) -> bool {
    &&& c.schema_version == 1
    &&& forall|i: int| 0 <= i < c.plugins.len() ==> entry_follows_rules(c.plugins[i], oks[i])
    &&& ids_distinct(c.plugins, c.plugins.len())
}

/// The catalog's rules: schema version 1, every entry following the field
/// rules with its version accepted by `semver::Version::parse`, ids unique.
pub open spec fn catalog_follows_rules(c: CatalogView) -> bool {
    &&& c.schema_version == 1
    &&& forall|i: int|
        0 <= i < c.plugins.len() ==> entry_follows_rules(
            c.plugins[i],
            semver_accepts(c.plugins[i].version),
        )
    &&& ids_distinct(c.plugins, c.plugins.len())
}

proof fn lemma_field_findings_empty(e: EntryView, ok: bool)
    ensures
        field_findings(e, ok).len() == 0 <==> {
            &&& e.name.len() > 0
            &&& e.version.len() > 0 && ok
            &&& e.download_url.len() > 0 && is_https(e.download_url)
            &&& e.signing_pubkey.len() > 0 && is_hex_text(e.signing_pubkey)
            &&& match e.icon_url {
                Some(u) => u.len() == 0 || is_https(u),
                None => true,
            }
        },
{
    let rid = report_id(e.id);
    let q1 = crate::rules::empty_field_findings(rid, e.name, "name"@);
    let q2 = crate::rules::empty_field_findings(rid, e.version, "version"@);
    let q3 = crate::rules::empty_field_findings(rid, e.download_url, "download_url"@);
    let q4 = crate::rules::empty_field_findings(rid, e.signing_pubkey, "signing_pubkey"@);
    let q5 = finding_if(
        e.version.len() > 0 && !ok,
        FindingView::BadSemver { id: rid, version: e.version },
    );
    let q6 = finding_if(
        e.signing_pubkey.len() > 0 && !is_hex_text(e.signing_pubkey),
        FindingView::BadPubkey {
            id: rid,
            reason: crate::rules::bad_hex_reason(e.signing_pubkey),
        },
    );
    let q7 = url_findings(rid, "download_url"@, e.download_url);
    let q8 = icon_findings(rid, e.icon_url);
    assert(field_findings(e, ok) == q1 + q2 + q3 + q4 + q5 + q6 + q7 + q8);
    assert((q1 + q2 + q3 + q4 + q5 + q6 + q7 + q8).len() == q1.len() + q2.len() + q3.len()
        + q4.len() + q5.len() + q6.len() + q7.len() + q8.len());
    assert(q1.len() == 0 <==> e.name.len() > 0);
    assert(q2.len() == 0 <==> e.version.len() > 0);
    assert(q3.len() == 0 <==> e.download_url.len() > 0);
    assert(q4.len() == 0 <==> e.signing_pubkey.len() > 0);
    assert(q5.len() == 0 <==> (e.version.len() == 0 || ok));
    assert(q6.len() == 0 <==> (e.signing_pubkey.len() == 0 || is_hex_text(e.signing_pubkey)));
    assert(q7.len() == 0 <==> (e.download_url.len() == 0 || is_https(e.download_url)));
    assert(q8.len() == 0 <==> match e.icon_url {
        Some(u) => u.len() == 0 || is_https(u),
        None => true,
    });
}

/// An id is among the accepted ids after `n` entries exactly when one of the
/// first `n` entries has it and it is well-formed.
pub proof fn lemma_ids_seen(es: Seq<EntryView>, n: nat, x: Seq<char>)
    requires
        n <= es.len(),
    ensures
        ids_seen(es, n).contains(x) <==> exists|i: int|
            0 <= i < n && #[trigger] es[i].id == x && valid_id(x),
    decreases n,
{
    if n > 0 {
        lemma_ids_seen(es, (n - 1) as nat, x);
        if ids_seen(es, n).contains(x) && !ids_seen(es, (n - 1) as nat).contains(x) {
            assert(es[n - 1].id == x);
        }
    }
}

proof fn lemma_plugin_findings_empty(es: Seq<EntryView>, oks: Seq<bool>, n: nat)
    requires
        n <= es.len(),
        oks.len() == es.len(),
    ensures
        plugin_findings(es, oks, n).len() == 0 <==> {
            &&& forall|i: int| 0 <= i < n ==> entry_follows_rules(es[i], oks[i])
            &&& ids_distinct(es, n)
        },
    decreases n,
{
    if n > 0 {
        let m = (n - 1) as nat;
        lemma_plugin_findings_empty(es, oks, m);
        let e = es[m as int];
        let seen = ids_seen(es, m);
        lemma_field_findings_empty(e, oks[m as int]);
        lemma_ids_seen(es, m, e.id);
        let all = forall|i: int| 0 <= i < n ==> entry_follows_rules(es[i], oks[i]);
        if plugin_findings(es, oks, n).len() == 0 {
            assert(plugin_findings(es, oks, m).len() == 0);
            assert(entry_findings(e, seen, oks[m as int]).len() == 0);
            assert(id_findings(e.id, seen).len() == 0);
            assert(field_findings(e, oks[m as int]).len() == 0);
            assert forall|i: int, j: int| 0 <= i < j < n implies es[i].id != es[j].id by {
                if j == m {
                    if es[i].id == es[j].id {
                        assert(seen.contains(e.id));
                    }
                }
            }
        }
        if all && ids_distinct(es, n) {
            assert(entry_follows_rules(e, oks[m as int]));
            assert(!seen.contains(e.id)) by {
                if seen.contains(e.id) {
                    let i = choose|i: int| 0 <= i < m && #[trigger] es[i].id == e.id && valid_id(
                        e.id,
                    );
                    assert(es[i].id != es[m as int].id);
                }
            }
            assert(id_findings(e.id, seen).len() == 0);
            assert(plugin_findings(es, oks, m).len() == 0);
        }
    }
}

/// A read catalog passes validation (given the SemVer verdicts) exactly when it
/// follows the catalog's rules.
pub proof fn lemma_passes_iff_follows_rules_with(c: CatalogView, oks: Seq<bool>)
    requires
        oks.len() == c.plugins.len(),
    ensures
        (validation_outcome(Ok(c), oks) == Ok::<(), Seq<FindingView>>(()))
            <==> catalog_follows_rules_with(c, oks),
{
    lemma_plugin_findings_empty(c.plugins, oks, c.plugins.len());
}

/// A read catalog passes validation exactly when it follows the rules of the
/// catalog: schema version 1; each entry with an id matching
/// `^[A-Za-z0-9_-]+$`, a non-empty name, a valid SemVer version, an
/// `https://` download URL, a non-empty hexadecimal signing key and, when
/// given and non-empty, an `https://` icon URL; and no id used twice.
pub proof fn lemma_passes_iff_follows_rules(c: CatalogView)
    ensures
        (validation_outcome(Ok(c), semver_verdicts(Ok(c))) == Ok::<(), Seq<FindingView>>(()))
            <==> catalog_follows_rules(c),
{
    let oks = semver_verdicts(Ok(c));
    lemma_passes_iff_follows_rules_with(c, oks);
    assert forall|i: int| 0 <= i < c.plugins.len() implies #[trigger] entry_follows_rules(
        c.plugins[i],
        oks[i],
    ) == entry_follows_rules(c.plugins[i], semver_accepts(c.plugins[i].version)) by {}
    if catalog_follows_rules(c) {
        assert forall|i: int| 0 <= i < c.plugins.len() implies entry_follows_rules(
            c.plugins[i],
            oks[i],
        ) by {
            assert(entry_follows_rules(c.plugins[i], semver_accepts(c.plugins[i].version)));
        }
    }
    if catalog_follows_rules_with(c, oks) {
        assert forall|i: int| 0 <= i < c.plugins.len() implies entry_follows_rules(
            c.plugins[i],
            semver_accepts(c.plugins[i].version),
        ) by {
            assert(entry_follows_rules(c.plugins[i], oks[i]));
        }
    }
}

/// Validation never fails without a finding: a rejected document comes with at
/// least one finding.
pub proof fn lemma_rejection_has_findings(p: Result<CatalogView, Seq<char>>, oks: Seq<bool>)
    ensures
        validation_outcome(p, oks) matches Err(fs) ==> fs.len() > 0,
{
}

/// A document that cannot be read is answered with exactly one finding, the
/// reader's message as a `MalformedJson`, and nothing about its content.
pub proof fn lemma_unreadable_document(detail: Seq<char>, oks: Seq<bool>)
    ensures
        validation_outcome(Err(detail), oks) == Err::<(), Seq<FindingView>>(
            seq![FindingView::MalformedJson { detail }],
        ),
{
}

/// The first entry with a given well-formed id is never reported as a
/// duplicate; every later entry with it is, and nothing else about its id.
pub proof fn lemma_duplicate_iff_earlier(es: Seq<EntryView>, i: int)
    requires
        0 <= i < es.len(),
        valid_id(es[i].id),
    ensures
        id_findings(es[i].id, ids_seen(es, i as nat)) == (if exists|j: int|
            0 <= j < i && #[trigger] es[j].id == es[i].id {
            seq![FindingView::DuplicateId { id: es[i].id }]
        } else {
            seq![]
        }),
{
    lemma_ids_seen(es, i as nat, es[i].id);
}

/// The fields that the catalog marks as display-only (description, author,
/// tags, capabilities) never change the findings.
pub proof fn lemma_display_fields_ignored(c1: CatalogView, c2: CatalogView, oks: Seq<bool>)
    requires
        c1.schema_version == c2.schema_version,
        c1.plugins.len() == c2.plugins.len(),
        forall|i: int|
            0 <= i < c1.plugins.len() ==> {
                &&& #[trigger] c1.plugins[i].id == c2.plugins[i].id
                &&& c1.plugins[i].name == c2.plugins[i].name
                &&& c1.plugins[i].version == c2.plugins[i].version
                &&& c1.plugins[i].download_url == c2.plugins[i].download_url
                &&& c1.plugins[i].signing_pubkey == c2.plugins[i].signing_pubkey
                &&& c1.plugins[i].icon_url == c2.plugins[i].icon_url
            },
    ensures
        catalog_findings(c1, oks) == catalog_findings(c2, oks),
{
    lemma_plugin_findings_same(c1.plugins, c2.plugins, oks, c1.plugins.len());
}

proof fn lemma_plugin_findings_same(es1: Seq<EntryView>, es2: Seq<EntryView>, oks: Seq<bool>, n: nat)
    requires
        n <= es1.len(),
        es1.len() == es2.len(),
        forall|i: int|
            0 <= i < es1.len() ==> {
                &&& #[trigger] es1[i].id == es2[i].id
                &&& es1[i].name == es2[i].name
                &&& es1[i].version == es2[i].version
                &&& es1[i].download_url == es2[i].download_url
                &&& es1[i].signing_pubkey == es2[i].signing_pubkey
                &&& es1[i].icon_url == es2[i].icon_url
            },
    ensures
        plugin_findings(es1, oks, n) == plugin_findings(es2, oks, n),
        ids_seen(es1, n) == ids_seen(es2, n),
    decreases n,
{
    if n > 0 {
        let m = (n - 1) as nat;
        lemma_plugin_findings_same(es1, es2, oks, m);
        assert(es1[m as int].id == es2[m as int].id);
        assert(field_findings(es1[m as int], oks[m as int]) == field_findings(
            es2[m as int],
            oks[m as int],
        ));
    }
}

/// No finding of the sequence satisfies `p`.
pub open spec fn none_satisfy(s: Seq<FindingView>, p: spec_fn(FindingView) -> bool) -> bool {
    forall|k: int| 0 <= k < s.len() ==> !p(#[trigger] s[k])
}

proof fn lemma_none_satisfy_concat(a: Seq<FindingView>, b: Seq<FindingView>, p: spec_fn(FindingView) -> bool)
    requires
        none_satisfy(a, p),
        none_satisfy(b, p),
    ensures
        none_satisfy(a + b, p),
{
    assert forall|k: int| 0 <= k < (a + b).len() implies !p(#[trigger] (a + b)[k]) by {
        if k < a.len() {
            assert((a + b)[k] == a[k]);
        } else {
            assert((a + b)[k] == b[k - a.len()]);
        }
    }
}

proof fn lemma_none_satisfy_parts(parts: Seq<Seq<FindingView>>, p: spec_fn(FindingView) -> bool)
    requires
        parts.len() == 8,
        forall|i: int| 0 <= i < 8 ==> none_satisfy(#[trigger] parts[i], p),
    ensures
        none_satisfy(
            parts[0] + parts[1] + parts[2] + parts[3] + parts[4] + parts[5] + parts[6] + parts[7],
            p,
        ),
{
    assert(none_satisfy(parts[0], p));
    assert(none_satisfy(parts[1], p));
    lemma_none_satisfy_concat(parts[0], parts[1], p);
    assert(none_satisfy(parts[2], p));
    lemma_none_satisfy_concat(parts[0] + parts[1], parts[2], p);
    assert(none_satisfy(parts[3], p));
    lemma_none_satisfy_concat(parts[0] + parts[1] + parts[2], parts[3], p);
    assert(none_satisfy(parts[4], p));
    lemma_none_satisfy_concat(parts[0] + parts[1] + parts[2] + parts[3], parts[4], p);
    assert(none_satisfy(parts[5], p));
    lemma_none_satisfy_concat(parts[0] + parts[1] + parts[2] + parts[3] + parts[4], parts[5], p);
    assert(none_satisfy(parts[6], p));
    lemma_none_satisfy_concat(
        parts[0] + parts[1] + parts[2] + parts[3] + parts[4] + parts[5],
        parts[6],
        p,
    );
    assert(none_satisfy(parts[7], p));
    lemma_none_satisfy_concat(
        parts[0] + parts[1] + parts[2] + parts[3] + parts[4] + parts[5] + parts[6],
        parts[7],
        p,
    );
}

/// The eight groups of findings that `field_findings` joins, in order.
pub open spec fn field_parts(e: EntryView, ok: bool) -> Seq<Seq<FindingView>> {
    let rid = report_id(e.id);
    seq![
        crate::rules::empty_field_findings(rid, e.name, "name"@),
        crate::rules::empty_field_findings(rid, e.version, "version"@),
        crate::rules::empty_field_findings(rid, e.download_url, "download_url"@),
        crate::rules::empty_field_findings(rid, e.signing_pubkey, "signing_pubkey"@),
        finding_if(
            e.version.len() > 0 && !ok,
            FindingView::BadSemver { id: rid, version: e.version },
        ),
        finding_if(
            e.signing_pubkey.len() > 0 && !is_hex_text(e.signing_pubkey),
            FindingView::BadPubkey {
                id: rid,
                reason: crate::rules::bad_hex_reason(e.signing_pubkey),
            },
        ),
        url_findings(rid, "download_url"@, e.download_url),
        icon_findings(rid, e.icon_url),
    ]
}

proof fn lemma_field_parts(e: EntryView, ok: bool)
    ensures
        ({
            let q = field_parts(e, ok);
            field_findings(e, ok) == q[0] + q[1] + q[2] + q[3] + q[4] + q[5] + q[6] + q[7]
        }),
{
}

pub open spec fn is_bad_semver(f: FindingView) -> bool {
    f is BadSemver
}

pub open spec fn is_bad_pubkey(f: FindingView) -> bool {
    f is BadPubkey
}

pub open spec fn is_bad_download_url(f: FindingView) -> bool {
    f matches FindingView::BadUrl { field, .. } && field == "download_url"@
}

/// An empty field is reported once, as empty: an empty version is not also a
/// bad SemVer version, an empty signing key not also bad hexadecimal, and an
/// empty download URL not also a non-`https://` URL.
pub proof fn lemma_empty_fields_reported_once(e: EntryView, ok: bool)
    ensures
        e.version.len() == 0 ==> {
            &&& field_findings(e, ok).contains(
                FindingView::EmptyField { id: report_id(e.id), field: "version"@ },
            )
            &&& none_satisfy(field_findings(e, ok), |f: FindingView| is_bad_semver(f))
        },
        e.signing_pubkey.len() == 0 ==> {
            &&& field_findings(e, ok).contains(
                FindingView::EmptyField { id: report_id(e.id), field: "signing_pubkey"@ },
            )
            &&& none_satisfy(field_findings(e, ok), |f: FindingView| is_bad_pubkey(f))
        },
        e.download_url.len() == 0 ==> {
            &&& field_findings(e, ok).contains(
                FindingView::EmptyField { id: report_id(e.id), field: "download_url"@ },
            )
            &&& none_satisfy(field_findings(e, ok), |f: FindingView| is_bad_download_url(f))
        },
{
    reveal_strlit("icon_url");
    reveal_strlit("download_url");
    let q = field_parts(e, ok);
    lemma_field_parts(e, ok);
    let fs = field_findings(e, ok);
    if e.version.len() == 0 {
        let p = |f: FindingView| is_bad_semver(f);
        assert forall|i: int| 0 <= i < 8 implies none_satisfy(#[trigger] q[i], p) by {}
        lemma_none_satisfy_parts(q, p);
        assert(fs[q[0].len() as int] == q[1][0]);
    }
    if e.signing_pubkey.len() == 0 {
        let p = |f: FindingView| is_bad_pubkey(f);
        assert forall|i: int| 0 <= i < 8 implies none_satisfy(#[trigger] q[i], p) by {}
        lemma_none_satisfy_parts(q, p);
        assert(fs[(q[0].len() + q[1].len() + q[2].len()) as int] == q[3][0]);
    }
    if e.download_url.len() == 0 {
        let p = |f: FindingView| is_bad_download_url(f);
        assert("icon_url"@ != "download_url"@) by {
            assert("icon_url"@.len() != "download_url"@.len());
        }
        assert forall|i: int| 0 <= i < 8 implies none_satisfy(#[trigger] q[i], p) by {}
        lemma_none_satisfy_parts(q, p);
        assert(fs[(q[0].len() + q[1].len()) as int] == q[2][0]);
    }
}


/// An id is accepted exactly when it is non-empty and each of its characters
/// is an ASCII letter, an ASCII digit, `_` or `-`.
pub proof fn lemma_valid_id_charset(id: Seq<char>)
    ensures
        valid_id(id) <==> id.len() > 0 && forall|i: int|
            0 <= i < id.len() ==> {
                let c = #[trigger] id[i];
                ||| ('a' <= c && c <= 'z')
                ||| ('A' <= c && c <= 'Z')
                ||| ('0' <= c && c <= '9')
                ||| c == '_'
                ||| c == '-'
            },
{
    assert forall|i: int| 0 <= i < id.len() implies is_id_char(#[trigger] id[i]) == {
        let c = id[i];
        ||| ('a' <= c && c <= 'z')
        ||| ('A' <= c && c <= 'Z')
        ||| ('0' <= c && c <= '9')
        ||| c == '_'
        ||| c == '-'
    } by {}
}

proof fn lemma_contains_concat(a: Seq<FindingView>, b: Seq<FindingView>, x: FindingView)
    ensures
        a.contains(x) ==> (a + b).contains(x),
        b.contains(x) ==> (a + b).contains(x),
{
    if a.contains(x) {
        let k = choose|k: int| 0 <= k < a.len() && a[k] == x;
        assert((a + b)[k] == x);
    }
    if b.contains(x) {
        let k = choose|k: int| 0 <= k < b.len() && b[k] == x;
        assert((a + b)[a.len() + k] == x);
    }
}

proof fn lemma_part_in_entry(e: EntryView, seen: Set<Seq<char>>, version_ok: bool, k: int, x: FindingView)
    requires
        0 <= k < 8,
        field_parts(e, version_ok)[k].contains(x),
    ensures
        entry_findings(e, seen, version_ok).contains(x),
{
    let q = field_parts(e, version_ok);
    lemma_field_parts(e, version_ok);
    let f = field_findings(e, version_ok);
    let ids = id_findings(e.id, seen);
    let s1 = q[0] + q[1];
    let s2 = s1 + q[2];
    let s3 = s2 + q[3];
    let s4 = s3 + q[4];
    let s5 = s4 + q[5];
    let s6 = s5 + q[6];
    assert(f == s6 + q[7]);
    lemma_contains_concat(q[0], q[1], x);
    lemma_contains_concat(s1, q[2], x);
    lemma_contains_concat(s2, q[3], x);
    lemma_contains_concat(s3, q[4], x);
    lemma_contains_concat(s4, q[5], x);
    lemma_contains_concat(s5, q[6], x);
    lemma_contains_concat(s6, q[7], x);
    lemma_contains_concat(ids, f, x);
}

/// Every violation of an entry's field rules is reported, under the entry's
/// id (`<missing>` when it has none), whatever ids came before it: an empty
/// required field, a non-empty version that the SemVer parser rejects, a
/// non-empty signing key that is not hexadecimal, and a non-empty download or
/// icon URL that does not start with `https://`.
pub proof fn lemma_entry_reports_field_violations(
    e: EntryView,
    seen: Set<Seq<char>>,
    version_ok: bool,
)
    ensures
        ({
            let fs = entry_findings(e, seen, version_ok);
            let rid = if e.id.len() == 0 {
                "<missing>"@
            } else {
                e.id
            };
            &&& e.name.len() == 0 ==> fs.contains(
                FindingView::EmptyField { id: rid, field: "name"@ },
            )
            &&& e.version.len() == 0 ==> fs.contains(
                FindingView::EmptyField { id: rid, field: "version"@ },
            )
            &&& e.download_url.len() == 0 ==> fs.contains(
                FindingView::EmptyField { id: rid, field: "download_url"@ },
            )
            &&& e.signing_pubkey.len() == 0 ==> fs.contains(
                FindingView::EmptyField { id: rid, field: "signing_pubkey"@ },
            )
            &&& e.version.len() > 0 && !version_ok ==> fs.contains(
                FindingView::BadSemver { id: rid, version: e.version },
            )
            &&& e.signing_pubkey.len() > 0 && !is_hex_text(e.signing_pubkey) ==> fs.contains(
                FindingView::BadPubkey { id: rid, reason: "not valid hex: "@ + e.signing_pubkey },
            )
            &&& e.download_url.len() > 0 && !is_https(e.download_url) ==> fs.contains(
                FindingView::BadUrl { id: rid, field: "download_url"@, url: e.download_url },
            )
            &&& (e.icon_url matches Some(u) && u.len() > 0 && !is_https(u)) ==> fs.contains(
                FindingView::BadUrl { id: rid, field: "icon_url"@, url: e.icon_url->0 },
            )
        }),
{
    let q = field_parts(e, version_ok);
    let rid = report_id(e.id);
    assert(q[0] =~= crate::rules::empty_field_findings(rid, e.name, "name"@));
    if e.name.len() == 0 {
        assert(q[0][0] == FindingView::EmptyField { id: rid, field: "name"@ });
        assert(q[0].contains(q[0][0]));
        lemma_part_in_entry(e, seen, version_ok, 0, q[0][0]);
    }
    if e.version.len() == 0 {
        assert(q[1].contains(q[1][0]));
        lemma_part_in_entry(e, seen, version_ok, 1, q[1][0]);
    }
    if e.download_url.len() == 0 {
        assert(q[2].contains(q[2][0]));
        lemma_part_in_entry(e, seen, version_ok, 2, q[2][0]);
    }
    if e.signing_pubkey.len() == 0 {
        assert(q[3].contains(q[3][0]));
        lemma_part_in_entry(e, seen, version_ok, 3, q[3][0]);
    }
    if e.version.len() > 0 && !version_ok {
        assert(q[4].contains(q[4][0]));
        lemma_part_in_entry(e, seen, version_ok, 4, q[4][0]);
    }
    if e.signing_pubkey.len() > 0 && !is_hex_text(e.signing_pubkey) {
        assert(q[5][0] == FindingView::BadPubkey {
            id: rid,
            reason: bad_hex_reason(e.signing_pubkey),
        });
        assert(q[5].contains(q[5][0]));
        lemma_part_in_entry(e, seen, version_ok, 5, q[5][0]);
    }
    if e.download_url.len() > 0 && !is_https(e.download_url) {
        assert(q[6].contains(q[6][0]));
        lemma_part_in_entry(e, seen, version_ok, 6, q[6][0]);
    }
    if e.icon_url matches Some(u) && u.len() > 0 && !is_https(u) {
        assert(q[7].contains(q[7][0]));
        lemma_part_in_entry(e, seen, version_ok, 7, q[7][0]);
    }
}

/// What is found about an entry's fields does not depend on the ids accepted
/// before it: past the findings about its id, the findings of an entry are the
/// same for any two sets of earlier ids.
pub proof fn lemma_field_findings_ignore_seen(
    e: EntryView,
    seen1: Set<Seq<char>>,
    seen2: Set<Seq<char>>,
    version_ok: bool,
)
    ensures
        id_findings(e.id, seen1).len() <= 1,
        entry_findings(e, seen1, version_ok).skip(id_findings(e.id, seen1).len() as int)
            == entry_findings(e, seen2, version_ok).skip(id_findings(e.id, seen2).len() as int),
{
    let a = id_findings(e.id, seen1);
    let b = id_findings(e.id, seen2);
    let f = field_findings(e, version_ok);
    assert((a + f).skip(a.len() as int) =~= f);
    assert((b + f).skip(b.len() as int) =~= f);
}

proof fn lemma_plugin_findings_contains(
    es: Seq<EntryView>,
    oks: Seq<bool>,
    n: nat,
    i: int,
    x: FindingView,
)
    requires
        0 <= i < n <= es.len(),
        entry_findings(es[i], ids_seen(es, i as nat), oks[i]).contains(x),
    ensures
        plugin_findings(es, oks, n).contains(x),
    decreases n,
{
    let m = (n - 1) as nat;
    let last = entry_findings(es[m as int], ids_seen(es, m), oks[m as int]);
    if i == m {
        lemma_contains_concat(plugin_findings(es, oks, m), last, x);
    } else {
        lemma_plugin_findings_contains(es, oks, m, i, x);
        lemma_contains_concat(plugin_findings(es, oks, m), last, x);
    }
}

/// The id of an entry is always judged: a missing id is reported as an empty
/// `id` field, a malformed one as `BadId`, and a well-formed one already taken
/// by an earlier entry as `DuplicateId`; a well-formed new id is not reported.
pub proof fn lemma_entry_reports_id(e: EntryView, seen: Set<Seq<char>>, version_ok: bool)
    ensures
        ({
            let fs = entry_findings(e, seen, version_ok);
            &&& e.id.len() == 0 ==> fs.contains(
                FindingView::EmptyField { id: Seq::empty(), field: "id"@ },
            )
            &&& e.id.len() > 0 && !valid_id(e.id) ==> fs.contains(FindingView::BadId { id: e.id })
            &&& valid_id(e.id) && seen.contains(e.id) ==> fs.contains(
                FindingView::DuplicateId { id: e.id },
            )
            &&& valid_id(e.id) && !seen.contains(e.id) ==> id_findings(e.id, seen).len() == 0
        }),
{
    let ids = id_findings(e.id, seen);
    let f = field_findings(e, version_ok);
    if ids.len() > 0 {
        assert(ids.contains(ids[0]));
        lemma_contains_concat(ids, f, ids[0]);
    }
}

/// A catalog whose schema version is not 1 is rejected with a `SchemaVersion`
/// finding carrying that number.
pub proof fn lemma_schema_version_reported(c: CatalogView, oks: Seq<bool>)
    requires
        c.schema_version != 1,
    ensures
        validation_outcome(Ok(c), oks) matches Err(fs) && fs.contains(
            FindingView::SchemaVersion { got: c.schema_version },
        ),
{
    let head = finding_if(c.schema_version != 1, FindingView::SchemaVersion { got: c.schema_version });
    assert(head.contains(head[0]));
    lemma_contains_concat(head, plugin_findings(c.plugins, oks, c.plugins.len()), head[0]);
}

/// A non-empty version that the SemVer parser rejects is always reported: the
/// catalog is rejected with a `BadSemver` finding for that entry, whatever its
/// other fields (its id among them) hold.
pub proof fn lemma_rejected_version_reported(c: CatalogView, i: int)
    requires
        0 <= i < c.plugins.len(),
        c.plugins[i].version.len() > 0,
        !semver_accepts(c.plugins[i].version),
    ensures
        validation_outcome(Ok(c), semver_verdicts(Ok(c))) matches Err(fs) && fs.contains(
            FindingView::BadSemver {
                id: if c.plugins[i].id.len() == 0 {
                    "<missing>"@
                } else {
                    c.plugins[i].id
                },
                version: c.plugins[i].version,
            },
        ),
{
    let es = c.plugins;
    let oks = semver_verdicts(Ok(c));
    assert(oks[i] == (es[i].version.len() == 0 || semver_accepts(es[i].version)));
    let x = FindingView::BadSemver {
        id: if es[i].id.len() == 0 {
            "<missing>"@
        } else {
            es[i].id
        },
        version: es[i].version,
    };
    lemma_entry_reports_field_violations(es[i], ids_seen(es, i as nat), oks[i]);
    lemma_plugin_findings_contains(es, oks, es.len(), i, x);
    let head = finding_if(c.schema_version != 1, FindingView::SchemaVersion { got: c.schema_version });
    lemma_contains_concat(head, plugin_findings(es, oks, es.len()), x);
    assert(catalog_findings(c, oks).len() > 0);
}

} // verus!
