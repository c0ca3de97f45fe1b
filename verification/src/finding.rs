use vstd::prelude::*;

verus! {

/// One validation finding. `to_line` renders it as a single human-readable line.
#[derive(Debug, Clone)]
pub enum Finding {
    MalformedJson { detail: String },
    SchemaVersion { got: u32 },
    DuplicateId { id: String },
    EmptyField { id: String, field: &'static str },
    BadSemver { id: String, version: String },
    BadPubkey { id: String, reason: String },
    BadId { id: String },
    BadUrl { id: String, field: &'static str, url: String },
    Unreachable { id: String, url: String, status: String },
}

/// The mathematical model of a `Finding`: every text held as a sequence of characters.
pub enum FindingView {
    MalformedJson { detail: Seq<char> },
    SchemaVersion { got: u32 },
    DuplicateId { id: Seq<char> },
    EmptyField { id: Seq<char>, field: Seq<char> },
    BadSemver { id: Seq<char>, version: Seq<char> },
    BadPubkey { id: Seq<char>, reason: Seq<char> },
    BadId { id: Seq<char> },
    BadUrl { id: Seq<char>, field: Seq<char>, url: Seq<char> },
    Unreachable { id: Seq<char>, url: Seq<char>, status: Seq<char> },
}

impl View for Finding {
    type V = FindingView;

    open spec fn view(&self) -> FindingView {
        match self {
            Finding::MalformedJson { detail } => FindingView::MalformedJson { detail: detail@ },
            Finding::SchemaVersion { got } => FindingView::SchemaVersion { got: *got },
            Finding::DuplicateId { id } => FindingView::DuplicateId { id: id@ },
            Finding::EmptyField { id, field } => FindingView::EmptyField { id: id@, field: field@ },
            Finding::BadSemver { id, version } => FindingView::BadSemver {
                id: id@,
                version: version@,
            },
            Finding::BadPubkey { id, reason } => FindingView::BadPubkey { id: id@, reason: reason@ },
            Finding::BadId { id } => FindingView::BadId { id: id@ },
            Finding::BadUrl { id, field, url } => FindingView::BadUrl {
                id: id@,
                field: field@,
                url: url@,
            },
            Finding::Unreachable { id, url, status } => FindingView::Unreachable {
                id: id@,
                url: url@,
                status: status@,
            },
        }
    }
}

/// The models of a sequence of findings, in order.
pub open spec fn views(fs: Seq<Finding>) -> Seq<FindingView> {
    fs.map_values(|f: Finding| f@)
}

pub proof fn lemma_views_push(fs: Seq<Finding>, f: Finding)
    ensures
        views(fs.push(f)) == views(fs).push(f@),
{
    assert(views(fs.push(f)) =~= views(fs).push(f@));
}

/// The decimal digit for `d < 10`.
pub open spec fn digit_char(d: nat) -> char {
    if d == 0 { '0' }
    else if d == 1 { '1' }
    else if d == 2 { '2' }
    else if d == 3 { '3' }
    else if d == 4 { '4' }
    else if d == 5 { '5' }
    else if d == 6 { '6' }
    else if d == 7 { '7' }
    else if d == 8 { '8' }
    else { '9' }
}

/// The decimal representation of `n`, without leading zeros.
pub open spec fn decimal(n: nat) -> Seq<char>
    decreases n,
{
    if n < 10 {
        seq![digit_char(n)]
    } else {
        decimal(n / 10).push(digit_char(n % 10))
    }
}

/// The line that a finding renders to.
pub open spec fn line_of(f: FindingView) -> Seq<char> {
    match f {
        FindingView::MalformedJson { detail } => "malformed json: "@ + detail,
        FindingView::SchemaVersion { got } => "schema_version must be 1, got "@ + decimal(
            got as nat,
        ),
        FindingView::DuplicateId { id } => "["@ + id + "] duplicate id"@,
        FindingView::EmptyField { id, field } => "["@ + id + "] empty required field: "@ + field,
        FindingView::BadSemver { id, version } => "["@ + id + "] bad semver: "@ + version,
        FindingView::BadPubkey { id, reason } => "["@ + id + "] bad signing_pubkey: "@ + reason,
        FindingView::BadId { id } => "["@ + id + "] id must match [A-Za-z0-9_-]+"@,
        FindingView::BadUrl { id, field, url } => "["@ + id + "] "@ + field
            + " must be https://: "@ + url,
        FindingView::Unreachable { id, url, status } => "["@ + id + "] unreachable: "@ + url
            + " ("@ + status + ")"@,
    }
}

/// The text holds no line break.
pub open spec fn single_line(s: Seq<char>) -> bool {
    forall|i: int| 0 <= i < s.len() ==> s[i] != '\n'
}

/// Every text that the finding carries holds no line break.
pub open spec fn texts_single_line(f: FindingView) -> bool {
    match f {
        FindingView::MalformedJson { detail } => single_line(detail),
        FindingView::SchemaVersion { .. } => true,
        FindingView::DuplicateId { id } => single_line(id),
        FindingView::EmptyField { id, field } => single_line(id) && single_line(field),
        FindingView::BadSemver { id, version } => single_line(id) && single_line(version),
        FindingView::BadPubkey { id, reason } => single_line(id) && single_line(reason),
        FindingView::BadId { id } => single_line(id),
        FindingView::BadUrl { id, field, url } => single_line(id) && single_line(field)
            && single_line(url),
        FindingView::Unreachable { id, url, status } => single_line(id) && single_line(url)
            && single_line(status),
    }
}

proof fn lemma_single_line_concat(a: Seq<char>, b: Seq<char>)
    requires
        single_line(a),
        single_line(b),
    ensures
        single_line(a + b),
{
    assert forall|i: int| 0 <= i < (a + b).len() implies (a + b)[i] != '\n' by {
        if i < a.len() {
            assert((a + b)[i] == a[i]);
        } else {
            assert((a + b)[i] == b[i - a.len()]);
        }
    }
}

proof fn lemma_decimal_single_line(n: nat)
    ensures
        single_line(decimal(n)),
    decreases n,
{
    if n >= 10 {
        lemma_decimal_single_line(n / 10);
    }
}

/// A finding renders to a single line: the line holds no line break when the
/// texts that the finding carries hold none.
pub proof fn lemma_line_is_single(f: FindingView)
    requires
        texts_single_line(f),
    ensures
        single_line(line_of(f)),
{
    reveal_strlit("malformed json: ");
    reveal_strlit("schema_version must be 1, got ");
    reveal_strlit("[");
    reveal_strlit("] duplicate id");
    reveal_strlit("] empty required field: ");
    reveal_strlit("] bad semver: ");
    reveal_strlit("] bad signing_pubkey: ");
    reveal_strlit("] id must match [A-Za-z0-9_-]+");
    reveal_strlit("] ");
    reveal_strlit(" must be https://: ");
    reveal_strlit("] unreachable: ");
    reveal_strlit(" (");
    reveal_strlit(")");
    match f {
        FindingView::MalformedJson { detail } => {
            lemma_single_line_concat("malformed json: "@, detail);
        },
        FindingView::SchemaVersion { got } => {
            lemma_decimal_single_line(got as nat);
            lemma_single_line_concat("schema_version must be 1, got "@, decimal(got as nat));
        },
        FindingView::DuplicateId { id } => {
            lemma_single_line_concat("["@, id);
            lemma_single_line_concat("["@ + id, "] duplicate id"@);
        },
        FindingView::EmptyField { id, field } => {
            lemma_single_line_concat("["@, id);
            lemma_single_line_concat("["@ + id, "] empty required field: "@);
            lemma_single_line_concat("["@ + id + "] empty required field: "@, field);
        },
        FindingView::BadSemver { id, version } => {
            lemma_single_line_concat("["@, id);
            lemma_single_line_concat("["@ + id, "] bad semver: "@);
            lemma_single_line_concat("["@ + id + "] bad semver: "@, version);
        },
        FindingView::BadPubkey { id, reason } => {
            lemma_single_line_concat("["@, id);
            lemma_single_line_concat("["@ + id, "] bad signing_pubkey: "@);
            lemma_single_line_concat("["@ + id + "] bad signing_pubkey: "@, reason);
        },
        FindingView::BadId { id } => {
            lemma_single_line_concat("["@, id);
            lemma_single_line_concat("["@ + id, "] id must match [A-Za-z0-9_-]+"@);
        },
        FindingView::BadUrl { id, field, url } => {
            lemma_single_line_concat("["@, id);
            lemma_single_line_concat("["@ + id, "] "@);
            lemma_single_line_concat("["@ + id + "] "@, field);
            lemma_single_line_concat("["@ + id + "] "@ + field, " must be https://: "@);
            lemma_single_line_concat("["@ + id + "] "@ + field + " must be https://: "@, url);
        },
        FindingView::Unreachable { id, url, status } => {
            lemma_single_line_concat("["@, id);
            lemma_single_line_concat("["@ + id, "] unreachable: "@);
            lemma_single_line_concat("["@ + id + "] unreachable: "@, url);
            lemma_single_line_concat("["@ + id + "] unreachable: "@ + url, " ("@);
            lemma_single_line_concat("["@ + id + "] unreachable: "@ + url + " ("@, status);
            lemma_single_line_concat("["@ + id + "] unreachable: "@ + url + " ("@ + status, ")"@);
        },
    }
}

fn digit_str(d: u32) -> (s: &'static str)
    requires
        d < 10,
    ensures
        s@ == seq![digit_char(d as nat)],
{
    if d == 0 {
        proof { reveal_strlit("0"); }
        "0"
    } else if d == 1 {
        proof { reveal_strlit("1"); }
        "1"
    } else if d == 2 {
        proof { reveal_strlit("2"); }
        "2"
    } else if d == 3 {
        proof { reveal_strlit("3"); }
        "3"
    } else if d == 4 {
        proof { reveal_strlit("4"); }
        "4"
    } else if d == 5 {
        proof { reveal_strlit("5"); }
        "5"
    } else if d == 6 {
        proof { reveal_strlit("6"); }
        "6"
    } else if d == 7 {
        proof { reveal_strlit("7"); }
        "7"
    } else if d == 8 {
        proof { reveal_strlit("8"); }
        "8"
    } else {
        proof { reveal_strlit("9"); }
        "9"
    }
}

/// Appends the decimal representation of `n` to `out`.
pub fn append_decimal(out: &mut String, n: u32)
    ensures
        final(out)@ == old(out)@ + decimal(n as nat),
    decreases n,
{
    if n >= 10 {
        append_decimal(out, n / 10);
    }
    out.append(digit_str(n % 10));
    assert(out@ =~= old(out)@ + decimal(n as nat));
}

impl Finding {
    /// Renders the finding as one human-readable line.
    pub fn to_line(&self) -> (line: String)
        ensures
            line@ == line_of(self@),
    {
        match self {
            Finding::MalformedJson { detail } => {
                let mut s = String::from_str("malformed json: ");
                s.append(detail.as_str());
                s
            },
            Finding::SchemaVersion { got } => {
                let mut s = String::from_str("schema_version must be 1, got ");
                append_decimal(&mut s, *got);
                s
            },
            Finding::DuplicateId { id } => {
                let mut s = String::from_str("[");
                s.append(id.as_str());
                s.append("] duplicate id");
                s
            },
            Finding::EmptyField { id, field } => {
                let mut s = String::from_str("[");
                s.append(id.as_str());
                s.append("] empty required field: ");
                s.append(field);
                s
            },
            Finding::BadSemver { id, version } => {
                let mut s = String::from_str("[");
                s.append(id.as_str());
                s.append("] bad semver: ");
                s.append(version.as_str());
                s
            },
            Finding::BadPubkey { id, reason } => {
                let mut s = String::from_str("[");
                s.append(id.as_str());
                s.append("] bad signing_pubkey: ");
                s.append(reason.as_str());
                s
            },
            Finding::BadId { id } => {
                let mut s = String::from_str("[");
                s.append(id.as_str());
                s.append("] id must match [A-Za-z0-9_-]+");
                s
            },
            Finding::BadUrl { id, field, url } => {
                let mut s = String::from_str("[");
                s.append(id.as_str());
                s.append("] ");
                s.append(field);
                s.append(" must be https://: ");
                s.append(url.as_str());
                s
            },
            Finding::Unreachable { id, url, status } => {
                let mut s = String::from_str("[");
                s.append(id.as_str());
                s.append("] unreachable: ");
                s.append(url.as_str());
                s.append(" (");
                s.append(status.as_str());
                s.append(")");
                s
            },
        }
    }
}

} // verus!
