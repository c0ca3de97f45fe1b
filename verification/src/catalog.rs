use vstd::prelude::*;

verus! {

/// One plugin entry of the catalog. A field absent from the document is
/// held as its empty value (empty text, empty list, `None`).
pub struct CatalogEntry {
    pub id: String,
    pub name: String,
    pub description: String,
    pub author: String,
    pub version: String,
    pub tags: Vec<String>,
    pub capabilities: Vec<String>,
    pub download_url: String,
    pub signing_pubkey: String,
    pub icon_url: Option<String>,
}

/// The whole catalog document.
pub struct CatalogJson {
    pub schema_version: u32,
    pub plugins: Vec<CatalogEntry>,
}

/// The model of a `CatalogEntry`.
pub struct EntryView {
    pub id: Seq<char>,
    pub name: Seq<char>,
    pub description: Seq<char>,
    pub author: Seq<char>,
    pub version: Seq<char>,
    pub tags: Seq<Seq<char>>,
    pub capabilities: Seq<Seq<char>>,
    pub download_url: Seq<char>,
    pub signing_pubkey: Seq<char>,
    pub icon_url: Option<Seq<char>>,
}

/// The model of a `CatalogJson`.
pub struct CatalogView {
    pub schema_version: u32,
    pub plugins: Seq<EntryView>,
}

pub open spec fn texts(v: Seq<String>) -> Seq<Seq<char>> {
    v.map_values(|s: String| s@)
}

pub open spec fn opt_text(o: Option<String>) -> Option<Seq<char>> {
    match o {
        Some(s) => Some(s@),
        None => None,
    }
}

impl View for CatalogEntry {
    type V = EntryView;

    open spec fn view(&self) -> EntryView {
        EntryView {
            id: self.id@,
            name: self.name@,
            description: self.description@,
            author: self.author@,
            version: self.version@,
            tags: texts(self.tags@),
            capabilities: texts(self.capabilities@),
            download_url: self.download_url@,
            signing_pubkey: self.signing_pubkey@,
            icon_url: opt_text(self.icon_url),
        }
    }
}

impl View for CatalogJson {
    type V = CatalogView;

    open spec fn view(&self) -> CatalogView {
        CatalogView {
            schema_version: self.schema_version,
            plugins: self.plugins@.map_values(|e: CatalogEntry| e@),
        }
    }
}

/// The model of the outcome of reading the document: the catalog, or the
/// parser's message when the text is not a catalog document.
pub open spec fn parsed_view(p: Result<CatalogJson, String>) -> Result<CatalogView, Seq<char>> {
    match p {
        Ok(c) => Ok(c@),
        Err(e) => Err(e@),
    }
}

} // verus!
