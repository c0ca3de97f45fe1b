use vstd::prelude::*;

use crate::catalog::{CatalogEntry, CatalogJson, CatalogView, EntryView, opt_text, parsed_view};
use crate::external::{hex_decodes, is_hex_text, semver_accepts, semver_parses};
use crate::finding::{Finding, FindingView, lemma_views_push, views};
use vstd::seq_lib::lemma_concat_associative;

verus! {

// ---------------------------------------------------------------------------
// The rules, stated over the models
// ---------------------------------------------------------------------------

/// A character allowed in an id: `[A-Za-z0-9_-]`.
pub open spec fn is_id_char(c: char) -> bool {
    ||| ('a' <= c && c <= 'z')
    ||| ('A' <= c && c <= 'Z')
    ||| ('0' <= c && c <= '9')
    ||| c == '_'
    ||| c == '-'
}

/// An id matches `^[A-Za-z0-9_-]+$`.
pub open spec fn valid_id(id: Seq<char>) -> bool {
    &&& id.len() > 0
    &&& forall|i: int| 0 <= i < id.len() ==> #[trigger] is_id_char(id[i])
}

/// The text `https://`.
pub open spec fn https_scheme() -> Seq<char> {
    seq!['h', 't', 't', 'p', 's', ':', '/', '/']
}

/// The text starts with `https://`.
pub open spec fn is_https(s: Seq<char>) -> bool {
    s.len() >= 8 && s.subrange(0, 8) == https_scheme()
}

/// The id under which the findings of an entry are reported.
pub open spec fn report_id(id: Seq<char>) -> Seq<char> {
    if id.len() == 0 {
        "<missing>"@
    } else {
        id
    }
}

/// The one-element sequence `[f]` when `c` holds, else the empty one.
pub open spec fn finding_if(c: bool, f: FindingView) -> Seq<FindingView> {
    if c {
        seq![f]
    } else {
        seq![]
    }
}

/// What `require_non_empty` reports.
pub open spec fn empty_field_findings(id: Seq<char>, value: Seq<char>, field: Seq<char>) -> Seq<
    FindingView,
> {
    finding_if(value.len() == 0, FindingView::EmptyField { id, field })
}

/// The finding about an entry's id, given the ids accepted before it.
pub open spec fn id_findings(id: Seq<char>, seen: Set<Seq<char>>) -> Seq<FindingView> {
    if id.len() == 0 {
        seq![FindingView::EmptyField { id: Seq::empty(), field: "id"@ }]
    } else if !valid_id(id) {
        seq![FindingView::BadId { id }]
    } else if seen.contains(id) {
        seq![FindingView::DuplicateId { id }]
    } else {
        seq![]
    }
}

/// The set of accepted ids after an entry: a well-formed id joins it.
pub open spec fn seen_after(id: Seq<char>, seen: Set<Seq<char>>) -> Set<Seq<char>> {
    if valid_id(id) {
        seen.insert(id)
    } else {
        seen
    }
}

/// What is reported of a URL field that is present and not empty.
pub open spec fn url_findings(id: Seq<char>, field: Seq<char>, url: Seq<char>) -> Seq<FindingView> {
    finding_if(url.len() > 0 && !is_https(url), FindingView::BadUrl { id, field, url })
}

/// What is reported of the optional icon URL.
pub open spec fn icon_findings(id: Seq<char>, icon: Option<Seq<char>>) -> Seq<FindingView> {
    match icon {
        Some(u) => url_findings(id, "icon_url"@, u),
        None => seq![],
    }
}

/// The reason given for a signing key that is not hexadecimal.
pub open spec fn bad_hex_reason(key: Seq<char>) -> Seq<char> {
    "not valid hex: "@ + key
}

/// The findings about an entry's fields other than its id, in the order they
/// are checked. `version_ok` is the verdict of the SemVer parser on the version.
pub open spec fn field_findings(e: EntryView, version_ok: bool) -> Seq<FindingView> {
    let rid = report_id(e.id);
    empty_field_findings(rid, e.name, "name"@) + empty_field_findings(rid, e.version, "version"@)
        + empty_field_findings(rid, e.download_url, "download_url"@) + empty_field_findings(
        rid,
        e.signing_pubkey,
        "signing_pubkey"@,
    ) + finding_if(
        e.version.len() > 0 && !version_ok,
        FindingView::BadSemver { id: rid, version: e.version },
    ) + finding_if(
        e.signing_pubkey.len() > 0 && !is_hex_text(e.signing_pubkey),
        FindingView::BadPubkey { id: rid, reason: bad_hex_reason(e.signing_pubkey) },
    ) + url_findings(rid, "download_url"@, e.download_url) + icon_findings(rid, e.icon_url)
}

/// All findings about one entry.
pub open spec fn entry_findings(e: EntryView, seen: Set<Seq<char>>, version_ok: bool) -> Seq<
    FindingView,
> {
    id_findings(e.id, seen) + field_findings(e, version_ok)
}

/// The well-formed ids among the first `n` entries.
pub open spec fn ids_seen(es: Seq<EntryView>, n: nat) -> Set<Seq<char>>
    decreases n,
{
    if n == 0 {
        Set::empty()
    } else {
        seen_after(es[n - 1].id, ids_seen(es, (n - 1) as nat))
    }
}

/// The findings about the first `n` entries, entry by entry.
pub open spec fn plugin_findings(es: Seq<EntryView>, oks: Seq<bool>, n: nat) -> Seq<FindingView>
    decreases n,
{
    if n == 0 {
        seq![]
    } else {
        plugin_findings(es, oks, (n - 1) as nat) + entry_findings(
            es[n - 1],
            ids_seen(es, (n - 1) as nat),
            oks[n - 1],
        )
    }
}

/// All findings about a catalog, given the SemVer verdict on each entry's version.
pub open spec fn catalog_findings(c: CatalogView, oks: Seq<bool>) -> Seq<FindingView> {
    finding_if(c.schema_version != 1, FindingView::SchemaVersion { got: c.schema_version })
        + plugin_findings(c.plugins, oks, c.plugins.len())
}

/// The result of validation: a document that is not a catalog gives exactly
/// one `MalformedJson`; a catalog passes when nothing is found.
pub open spec fn validation_outcome(p: Result<CatalogView, Seq<char>>, oks: Seq<bool>) -> Result<
    (),
    Seq<FindingView>,
> {
    match p {
        Err(detail) => Err(seq![FindingView::MalformedJson { detail }]),
        Ok(c) => {
            let fs = catalog_findings(c, oks);
            if fs.len() == 0 {
                Ok(())
            } else {
                Err(fs)
            }
        },
    }
}

/// The SemVer verdict on each entry's version (an empty version is not parsed).
pub open spec fn semver_verdicts(p: Result<CatalogView, Seq<char>>) -> Seq<bool> {
    match p {
        Ok(c) => Seq::new(
            c.plugins.len(),
            |i: int| c.plugins[i].version.len() == 0 || semver_accepts(c.plugins[i].version),
        ),
        Err(_) => seq![],
    }
}

/// The model of a validation result.
pub open spec fn outcome_view(r: Result<(), Vec<Finding>>) -> Result<(), Seq<FindingView>> {
    match r {
        Ok(()) => Ok(()),
        Err(fs) => Err(views(fs@)),
    }
}

/// The texts held in a list, as a set.
pub open spec fn id_set(v: Seq<String>) -> Set<Seq<char>> {
    Set::new(|x: Seq<char>| exists|i: int| 0 <= i < v.len() && v[i]@ == x)
}

// ---------------------------------------------------------------------------
// The checks
// ---------------------------------------------------------------------------

fn is_id_char_exec(c: char) -> (ok: bool)
    ensures
        ok == is_id_char(c),
{
    ('a' <= c && c <= 'z') || ('A' <= c && c <= 'Z') || ('0' <= c && c <= '9') || c == '_' || c
        == '-'
}

/// Whether the id is non-empty and made only of `[A-Za-z0-9_-]`.
pub fn is_valid_id(id: &str) -> (ok: bool)
    ensures
        ok == valid_id(id@),
{
    let n = id.unicode_len();
    if n == 0 {
        return false;
    }
    let mut i: usize = 0;
    while i < n
        invariant
            n == id@.len(),
            i <= n,
            forall|j: int| 0 <= j < i ==> #[trigger] is_id_char(id@[j]),
        decreases n - i,
    {
        let c = id.get_char(i);
        if !is_id_char_exec(c) {
            return false;
        }
        i += 1;
    }
    true
}

/// Whether the text starts with `https://`.
pub fn has_https_scheme(s: &str) -> (ok: bool)
    ensures
        ok == is_https(s@),
{
    let n = s.unicode_len();
    if n < 8 {
        return false;
    }
    let scheme = "https://";
    proof {
        reveal_strlit("https://");
        assert(scheme@ =~= https_scheme());
    }
    let mut i: usize = 0;
    while i < 8
        invariant
            n == s@.len(),
            n >= 8,
            i <= 8,
            scheme@ == https_scheme(),
            forall|j: int| 0 <= j < i ==> s@[j] == https_scheme()[j],
        decreases 8 - i,
    {
        if s.get_char(i) != scheme.get_char(i) {
            assert(s@.subrange(0, 8)[i as int] != https_scheme()[i as int]);
            return false;
        }
        i += 1;
    }
    assert(s@.subrange(0, 8) =~= https_scheme());
    true
}

/// Reports `field` of the entry reported as `id` when its value is empty.
pub fn require_non_empty(id: &str, value: &str, field: &'static str, out: &mut Vec<Finding>)
    ensures
        views(final(out)@) == views(old(out)@) + empty_field_findings(id@, value@, field@),
{
    if value.is_empty() {
        let f = Finding::EmptyField { id: String::from_str(id), field };
        proof {
            lemma_views_push(out@, f);
        }
        out.push(f);
    }
    assert(views(out@) =~= views(old(out)@) + empty_field_findings(id@, value@, field@));
}

fn contains_id(seen: &Vec<String>, id: &String) -> (found: bool)
    ensures
        found == id_set(seen@).contains(id@),
{
    let mut i: usize = 0;
    while i < seen.len()
        invariant
            i <= seen@.len(),
            forall|j: int| 0 <= j < i ==> seen@[j]@ != id@,
        decreases seen@.len() - i,
    {
        if seen[i] == *id {
            return true;
        }
        i += 1;
    }
    false
}

fn push_finding(out: &mut Vec<Finding>, f: Finding)
    ensures
        views(final(out)@) == views(old(out)@).push(f@),
{
    proof {
        lemma_views_push(out@, f);
    }
    out.push(f);
}

fn check_id(p: &CatalogEntry, seen: &mut Vec<String>, out: &mut Vec<Finding>)
    ensures
        views(final(out)@) == views(old(out)@) + id_findings(p.id@, id_set(old(seen)@)),
        id_set(final(seen)@) == seen_after(p.id@, id_set(old(seen)@)),
{
    let ghost seen0 = id_set(seen@);
    let id = p.id.as_str();
    if id.is_empty() {
        push_finding(out, Finding::EmptyField { id: String::new(), field: "id" });
    } else if !is_valid_id(id) {
        push_finding(out, Finding::BadId { id: p.id.clone() });
    } else if contains_id(seen, &p.id) {
        push_finding(out, Finding::DuplicateId { id: p.id.clone() });
    } else {
        let ghost before = seen@;
        seen.push(p.id.clone());
        assert(id_set(seen@) =~= seen0.insert(p.id@)) by {
            assert forall|x: Seq<char>| id_set(seen@).contains(x) implies seen0.insert(
                p.id@,
            ).contains(x) by {
                let i = choose|i: int| 0 <= i < seen@.len() && seen@[i]@ == x;
                if i < before.len() {
                    assert(before[i]@ == x);
                }
            }
            assert forall|x: Seq<char>| seen0.insert(p.id@).contains(x) implies id_set(
                seen@,
            ).contains(x) by {
                if x == p.id@ {
                    assert(seen@[before.len() as int]@ == x);
                } else {
                    let i = choose|i: int| 0 <= i < before.len() && before[i]@ == x;
                    assert(seen@[i]@ == x);
                }
            }
        }
    }
    assert(views(out@) =~= views(old(out)@) + id_findings(p.id@, seen0));
}

fn check_semver(rid: &str, version: &String, version_ok: bool, out: &mut Vec<Finding>)
    ensures
        views(final(out)@) == views(old(out)@) + finding_if(
            version@.len() > 0 && !version_ok,
            FindingView::BadSemver { id: rid@, version: version@ },
        ),
{
    if !version.as_str().is_empty() && !version_ok {
        push_finding(out, Finding::BadSemver { id: String::from_str(rid), version: version.clone() });
    }
    assert(views(out@) =~= views(old(out)@) + finding_if(
        version@.len() > 0 && !version_ok,
        FindingView::BadSemver { id: rid@, version: version@ },
    ));
}

fn check_key(rid: &str, key: &String, out: &mut Vec<Finding>)
    ensures
        views(final(out)@) == views(old(out)@) + finding_if(
            key@.len() > 0 && !is_hex_text(key@),
            FindingView::BadPubkey { id: rid@, reason: bad_hex_reason(key@) },
        ),
{
    let k = key.as_str();
    if !k.is_empty() && !hex_decodes(k) {
        let mut reason = String::from_str("not valid hex: ");
        reason.append(k);
        push_finding(out, Finding::BadPubkey { id: String::from_str(rid), reason });
    }
    assert(views(out@) =~= views(old(out)@) + finding_if(
        key@.len() > 0 && !is_hex_text(key@),
        FindingView::BadPubkey { id: rid@, reason: bad_hex_reason(key@) },
    ));
}

fn check_url(rid: &str, field: &'static str, url: &String, out: &mut Vec<Finding>)
    ensures
        views(final(out)@) == views(old(out)@) + url_findings(rid@, field@, url@),
{
    let u = url.as_str();
    if !u.is_empty() && !has_https_scheme(u) {
        push_finding(out, Finding::BadUrl { id: String::from_str(rid), field, url: url.clone() });
    }
    assert(views(out@) =~= views(old(out)@) + url_findings(rid@, field@, url@));
}

fn check_icon(rid: &str, icon: &Option<String>, out: &mut Vec<Finding>)
    ensures
        views(final(out)@) == views(old(out)@) + icon_findings(rid@, opt_text(*icon)),
{
    match icon {
        Some(u) => {
            check_url(rid, "icon_url", u, out);
        },
        None => {
            assert(views(out@) =~= views(old(out)@) + icon_findings(rid@, opt_text(*icon)));
        },
    }
}

/// Checks the fields of one entry other than its id, given the SemVer verdict
/// on its version; `rid` is the id under which they are reported.
pub fn check_fields(rid: &str, p: &CatalogEntry, version_ok: bool, out: &mut Vec<Finding>)
    requires
        rid@ == report_id(p.id@),
    ensures
        views(final(out)@) == views(old(out)@) + field_findings(p@, version_ok),
{
    let ghost e = p@;
    let ghost r = rid@;
    let ghost a = views(out@);
    require_non_empty(rid, p.name.as_str(), "name", out);
    let ghost q1 = empty_field_findings(r, e.name, "name"@);
    require_non_empty(rid, p.version.as_str(), "version", out);
    let ghost q2 = empty_field_findings(r, e.version, "version"@);
    proof {
        lemma_concat_associative(a, q1, q2);
    }
    require_non_empty(rid, p.download_url.as_str(), "download_url", out);
    let ghost q3 = empty_field_findings(r, e.download_url, "download_url"@);
    proof {
        lemma_concat_associative(a, q1 + q2, q3);
    }
    require_non_empty(rid, p.signing_pubkey.as_str(), "signing_pubkey", out);
    let ghost q4 = empty_field_findings(r, e.signing_pubkey, "signing_pubkey"@);
    proof {
        lemma_concat_associative(a, q1 + q2 + q3, q4);
    }
    check_semver(rid, &p.version, version_ok, out);
    let ghost q5 = finding_if(
        e.version.len() > 0 && !version_ok,
        FindingView::BadSemver { id: r, version: e.version },
    );
    proof {
        lemma_concat_associative(a, q1 + q2 + q3 + q4, q5);
    }
    check_key(rid, &p.signing_pubkey, out);
    let ghost q6 = finding_if(
        e.signing_pubkey.len() > 0 && !is_hex_text(e.signing_pubkey),
        FindingView::BadPubkey { id: r, reason: bad_hex_reason(e.signing_pubkey) },
    );
    proof {
        lemma_concat_associative(a, q1 + q2 + q3 + q4 + q5, q6);
    }
    check_url(rid, "download_url", &p.download_url, out);
    let ghost q7 = url_findings(r, "download_url"@, e.download_url);
    proof {
        lemma_concat_associative(a, q1 + q2 + q3 + q4 + q5 + q6, q7);
    }
    check_icon(rid, &p.icon_url, out);
    let ghost q8 = icon_findings(r, e.icon_url);
    proof {
        lemma_concat_associative(a, q1 + q2 + q3 + q4 + q5 + q6 + q7, q8);
    }
}

/// Checks one entry, given the SemVer verdict on its version and the ids
/// accepted before it: appends what is found to `out`, and adds the entry's
/// id to `seen` when it is well-formed and new.
pub fn check_entry(p: &CatalogEntry, version_ok: bool, seen: &mut Vec<String>, out: &mut Vec<Finding>)
    ensures
        views(final(out)@) == views(old(out)@) + entry_findings(p@, id_set(old(seen)@), version_ok),
        id_set(final(seen)@) == seen_after(p.id@, id_set(old(seen)@)),
{
    let ghost a = views(out@);
    let ghost seen0 = id_set(seen@);
    check_id(p, seen, out);
    let id = p.id.as_str();
    let rid: &str = if id.is_empty() {
        "<missing>"
    } else {
        id
    };
    check_fields(rid, p, version_ok, out);
    proof {
        lemma_concat_associative(a, id_findings(p.id@, seen0), field_findings(p@, version_ok));
    }
}

} // verus!
