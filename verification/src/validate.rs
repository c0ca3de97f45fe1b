use vstd::prelude::*;

use crate::catalog::{CatalogJson, parsed_view};
use crate::external::{semver_accepts, semver_parses};
use crate::finding::{Finding, FindingView, lemma_views_push, views};
use crate::rules::{
    check_entry, entry_findings, id_set, ids_seen, outcome_view, plugin_findings, semver_verdicts,
    validation_outcome, finding_if,
};
use vstd::seq_lib::lemma_concat_associative;

verus! {

/// Validates a read catalog document, given the SemVer verdict on the version
/// of each entry (`semver_ok[i]` for `plugins[i]`; it is not consulted for an
/// empty version). A document that could not be read (`Err` with the reader's
/// message) gives exactly one `MalformedJson` finding.
pub fn validate_catalog_with(parsed: Result<CatalogJson, String>, semver_ok: &Vec<bool>) -> (res:
    Result<(), Vec<Finding>>)
    requires
        parsed matches Ok(c) ==> semver_ok@.len() == c.plugins@.len(),
    ensures
        outcome_view(res) == validation_outcome(parsed_view(parsed), semver_ok@),
{
    match parsed {
        Err(detail) => {
            let mut fs: Vec<Finding> = Vec::new();
            proof {
                assert(views(fs@) =~= Seq::<FindingView>::empty());
            }
            fs.push(Finding::MalformedJson { detail });
            proof {
                assert(views(fs@) =~= seq![fs@[0]@]);
            }
            Err(fs)
        },
        Ok(catalog) => {
            let ghost c = catalog@;
            let ghost es = c.plugins;
            let mut findings: Vec<Finding> = Vec::new();
            proof {
                assert(views(findings@) =~= Seq::<FindingView>::empty());
            }
            if catalog.schema_version != 1 {
                let f = Finding::SchemaVersion { got: catalog.schema_version };
                proof {
                    lemma_views_push(findings@, f);
                }
                findings.push(f);
            }
            let ghost head = finding_if(
                c.schema_version != 1,
                FindingView::SchemaVersion { got: c.schema_version },
            );
            assert(views(findings@) =~= head + plugin_findings(es, semver_ok@, 0));
            let mut seen: Vec<String> = Vec::new();
            assert(id_set(seen@) =~= ids_seen(es, 0));
            let n = catalog.plugins.len();
            for i in 0..n
                invariant
                    n == catalog.plugins@.len(),
                    c == catalog@,
                    es == c.plugins,
                    semver_ok@.len() == n,
                    views(findings@) == head + plugin_findings(es, semver_ok@, i as nat),
                    id_set(seen@) == ids_seen(es, i as nat),
            {
                check_entry(&catalog.plugins[i], semver_ok[i], &mut seen, &mut findings);
                proof {
                    assert(es[i as int] == catalog.plugins@[i as int]@);
                    lemma_concat_associative(
                        head,
                        plugin_findings(es, semver_ok@, i as nat),
                        entry_findings(es[i as int], ids_seen(es, i as nat), semver_ok@[i as int]),
                    );
                }
            }
            if findings.len() == 0 {
                Ok(())
            } else {
                Err(findings)
            }
        },
    }
}

/// Validates a read catalog document: the field rules of each entry, the
/// uniqueness of ids, and the schema version. The version of each entry is
/// checked with `semver::Version::parse`.
pub fn validate_catalog(parsed: Result<CatalogJson, String>) -> (res: Result<(), Vec<Finding>>)
    ensures
        outcome_view(res) == validation_outcome(
            parsed_view(parsed),
            semver_verdicts(parsed_view(parsed)),
        ),
{
    let mut verdicts: Vec<bool> = Vec::new();
    match &parsed {
        Ok(catalog) => {
            let ghost es = catalog@.plugins;
            let n = catalog.plugins.len();
            for i in 0..n
                invariant
                    n == catalog.plugins@.len(),
                    es == catalog@.plugins,
                    verdicts@.len() == i,
                    forall|j: int|
                        0 <= j < i ==> verdicts@[j] == (es[j].version.len() == 0 || semver_accepts(
                            es[j].version,
                        )),
            {
                let version = catalog.plugins[i].version.as_str();
                let ok = version.is_empty() || semver_parses(version);
                proof {
                    assert(es[i as int] == catalog.plugins@[i as int]@);
                }
                verdicts.push(ok);
            }
            assert(verdicts@ =~= semver_verdicts(parsed_view(parsed)));
        },
        Err(_) => {},
    }
    validate_catalog_with(parsed, &verdicts)
}

} // verus!
