//! The store client's own decisions: which requests a catalog listing or a
//! details lookup makes, the query it sends, the details a bare manifest
//! stands for, and the security pass on downloaded manifests. The requests
//! themselves are made by the host.
use vstd::prelude::*;
use vstd::string::*;
use std::collections::HashMap;
use crate::error::StoreError;
use crate::manifest::{ExtensionManifest, ExtensionType, check_manifest_security, manifest_secure, type_name_spec};
use crate::store::{StoreManager, StoreSource, find_source, has_source, reserved_id};
use crate::text::str_equals;

verus! {

/// Order of a catalog listing.
#[derive(Debug, Clone, Copy, PartialEq, Eq, Structural)]
pub enum SortOption {
    Name,
    Downloads,
    Rating,
    Newest,
}

pub open spec fn sort_key(s: SortOption) -> Seq<char> {
    match s {
        SortOption::Name => "name"@,
        SortOption::Downloads => "downloads"@,
        SortOption::Rating => "rating"@,
        SortOption::Newest => "newest"@,
    }
}

impl SortOption {
    /// The name the catalog knows the order by.
    pub fn key(&self) -> (r: &'static str)
        ensures
            r@ == sort_key(*self),
    {
        match self {
            SortOption::Name => "name",
            SortOption::Downloads => "downloads",
            SortOption::Rating => "rating",
            SortOption::Newest => "newest",
        }
    }
}

/// Filters a catalog understands.
#[derive(Debug)]
pub struct StoreFilters {
    pub extension_type: Option<ExtensionType>,
    pub tags: Option<Vec<String>>,
    pub search: Option<String>,
}

/// Filters of a listing over several sources.
#[derive(Debug)]
pub struct FrontendStoreFilters {
    pub extension_type: Option<ExtensionType>,
    pub tags: Option<Vec<String>>,
    pub search: Option<String>,
    pub source_ids: Option<Vec<String>>,
}

/// What a catalog says of an installable package.
#[derive(Debug)]
pub struct StoreExtensionDetails {
    pub id: String,
    pub name: String,
    pub version: String,
    pub author: String,
    pub description: String,
    pub extension_type: ExtensionType,
    pub download_count: u32,
    /// The rating in hundredths (4.25 is 425).
    pub rating_hundredths: u32,
    pub tags: Vec<String>,
    pub manifest_url: String,
    pub package_url: String,
    pub checksum: String,
    pub readme: String,
    pub screenshots: Vec<String>,
    pub dependencies: HashMap<String, String>,
}

pub open spec fn digit_text(d: nat) -> Seq<char> {
    "0123456789"@.subrange(d as int, d as int + 1)
}

/// Decimal text of a number.
pub open spec fn decimal(n: nat) -> Seq<char>
    decreases n,
{
    if n < 10 {
        digit_text(n)
    } else {
        decimal(n / 10) + digit_text(n % 10)
    }
}

/// Decimal text of a number.
pub fn decimal_text(n: u32) -> (r: String)
    ensures
        r@ == decimal(n as nat),
    decreases n,
{
    let digits = "0123456789";
    proof {
        reveal_strlit("0123456789");
    }
    if n < 10 {
        String::from_str(digits.substring_char(n as usize, n as usize + 1))
    } else {
        let d = (n % 10) as usize;
        decimal_text(n / 10).concat(digits.substring_char(d, d + 1))
    }
}

/// Views of key/value pairs.
pub open spec fn pair_views(v: Seq<(String, String)>) -> Seq<(Seq<char>, Seq<char>)> {
    v.map_values(|p: (String, String)| (p.0@, p.1@))
}

/// The tag pairs, one per tag.
pub open spec fn tag_pairs(tags: Seq<String>) -> Seq<(Seq<char>, Seq<char>)> {
    tags.map_values(|t: String| ("tags"@, t@))
}

pub open spec fn kind_pairs(f: StoreFilters) -> Seq<(Seq<char>, Seq<char>)> {
    match f.extension_type {
        Some(t) => seq![("type"@, type_name_spec(t))],
        None => Seq::empty(),
    }
}

pub open spec fn tags_part(f: StoreFilters) -> Seq<(Seq<char>, Seq<char>)> {
    match f.tags {
        Some(t) => tag_pairs(t@),
        None => Seq::empty(),
    }
}

pub open spec fn search_pairs(f: StoreFilters) -> Seq<(Seq<char>, Seq<char>)> {
    match f.search {
        Some(s) => seq![("search"@, s@)],
        None => Seq::empty(),
    }
}

/// The query of a catalog listing: page, page size and order, then the
/// kind, each tag and the search text when given.
pub open spec fn catalog_query_spec(f: StoreFilters, sort: SortOption, page: u32, limit: u32) -> Seq<
    (Seq<char>, Seq<char>),
> {
    seq![("page"@, decimal(page as nat)), ("limit"@, decimal(limit as nat)), ("sort"@, sort_key(sort))]
        + kind_pairs(f) + tags_part(f) + search_pairs(f)
}

fn pair(k: &str, v: String) -> (r: (String, String))
    ensures
        r.0@ == k@,
        r.1@ == v@,
{
    (String::from_str(k), v)
}

/// The query pairs of a catalog listing.
pub fn catalog_query(filters: &StoreFilters, sort: SortOption, page: u32, limit: u32) -> (r: Vec<
    (String, String),
>)
    ensures
        pair_views(r@) == catalog_query_spec(*filters, sort, page, limit),
{
    let mut out: Vec<(String, String)> = Vec::new();
    out.push(pair("page", decimal_text(page)));
    out.push(pair("limit", decimal_text(limit)));
    out.push(pair("sort", String::from_str(sort.key())));
    let ghost head = pair_views(out@);
    assert(head =~= seq![("page"@, decimal(page as nat)), ("limit"@, decimal(limit as nat)), ("sort"@, sort_key(sort))]);
    let ghost kind_part = kind_pairs(*filters);
    match filters.extension_type {
        Some(t) => {
            out.push(pair("type", String::from_str(t.name())));
        },
        None => {},
    }
    assert(pair_views(out@) =~= head + kind_part);
    let ghost tag_part = tags_part(*filters);
    match &filters.tags {
        Some(tags) => {
            let ghost before = pair_views(out@);
            let mut i: usize = 0;
            while i < tags.len()
                invariant
                    i <= tags@.len(),
                    pair_views(out@) == before + tag_pairs(tags@.subrange(0, i as int)),
                decreases tags@.len() - i,
            {
                let ghost prev = out@;
                let p = pair("tags", tags[i].clone());
                out.push(p);
                proof {
                    assert(pair_views(out@) =~= pair_views(prev).push((p.0@, p.1@)));
                    assert(tag_pairs(tags@.subrange(0, i + 1)) =~= tag_pairs(
                        tags@.subrange(0, i as int),
                    ).push(("tags"@, tags@[i as int]@)));
                }
                i += 1;
                assert(pair_views(out@) =~= before + tag_pairs(tags@.subrange(0, i as int)));
            }
            assert(tags@.subrange(0, tags@.len() as int) =~= tags@);
        },
        None => {},
    }
    assert(pair_views(out@) =~= head + kind_part + tag_part);
    match &filters.search {
        Some(s) => {
            out.push(pair("search", s.clone()));
        },
        None => {},
    }
    assert(pair_views(out@) =~= catalog_query_spec(*filters, sort, page, limit));
    out
}

/// A request a catalog listing makes of one source.
#[derive(Debug)]
pub enum CatalogRequest {
    /// The reserved source is a static list of extensions at `url`.
    DefaultList { source_id: String, url: String },
    /// Any other source answers catalog queries under `base_url`.
    Api { source_id: String, base_url: String },
}

pub open spec fn request_view(r: CatalogRequest) -> (bool, Seq<char>, Seq<char>) {
    match r {
        CatalogRequest::DefaultList { source_id, url } => (true, source_id@, url@),
        CatalogRequest::Api { source_id, base_url } => (false, source_id@, base_url@),
    }
}

/// The requests for the listed source ids, in order: a disabled source is
/// skipped, the reserved one is read as a static list.
pub open spec fn planned_requests(s: Seq<StoreSource>, ids: Seq<String>) -> Seq<
    (bool, Seq<char>, Seq<char>),
>
    decreases ids.len(),
{
    if ids.len() == 0 {
        Seq::empty()
    } else {
        let rest = planned_requests(s, ids.drop_last());
        let id = ids.last()@;
        if has_source(s, id) && find_source(s, id).unwrap().enabled {
            rest.push((id == reserved_id(), id, find_source(s, id).unwrap().base_url@))
        } else {
            rest
        }
    }
}

pub open spec fn all_known(s: Seq<StoreSource>, ids: Seq<String>) -> bool {
    forall|i: int| 0 <= i < ids.len() ==> has_source(s, #[trigger] ids[i]@)
}

/// Plans a listing over the sources the filters name: `NotFound` when one of
/// them is unknown; no request when the filters name none.
pub fn plan_catalog_fetch(store: &StoreManager, filters: &FrontendStoreFilters) -> (r: Result<
    Vec<CatalogRequest>,
    StoreError,
>)
    requires
        store.wf(),
    ensures
        filters.source_ids is None ==> (r matches Ok(v) && v@.len() == 0),
        filters.source_ids matches Some(ids) ==> {
            &&& r is Ok <==> all_known(store.sources(), ids@)
            &&& r is Err ==> (r matches Err(StoreError::NotFound(_)))
            &&& r is Ok ==> r->Ok_0@.map_values(|q: CatalogRequest| request_view(q))
                == planned_requests(store.sources(), ids@)
        },
{
    let mut out: Vec<CatalogRequest> = Vec::new();
    match &filters.source_ids {
        None => Ok(out),
        Some(ids) => {
            let mut i: usize = 0;
            while i < ids.len()
                invariant
                    store.wf(),
                    filters.source_ids == Some(*ids),
                    i <= ids@.len(),
                    all_known(store.sources(), ids@.subrange(0, i as int)),
                    out@.map_values(|q: CatalogRequest| request_view(q)) == planned_requests(
                        store.sources(),
                        ids@.subrange(0, i as int),
                    ),
                decreases ids@.len() - i,
            {
                let id = &ids[i];
                proof {
                    let sub = ids@.subrange(0, i + 1);
                    assert(sub.drop_last() =~= ids@.subrange(0, i as int));
                    assert(sub.last() == *id);
                }
                let source = match store.get_source(id.as_str()) {
                    Some(s) => s,
                    None => {
                        assert(!all_known(store.sources(), ids@)) by {
                            assert(!has_source(store.sources(), ids@[i as int]@));
                        }
                        let msg = String::from_str("Source ").concat(id.as_str()).concat(" not found");
                        return Err(StoreError::NotFound(msg));
                    },
                };
                let ghost before = out@;
                if source.enabled {
                    if str_equals(id.as_str(), "default") {
                        out.push(CatalogRequest::DefaultList { source_id: id.clone(), url: source.base_url });
                    } else {
                        out.push(CatalogRequest::Api { source_id: id.clone(), base_url: source.base_url });
                    }
                    assert(out@.map_values(|q: CatalogRequest| request_view(q)) =~= before.map_values(
                        |q: CatalogRequest| request_view(q),
                    ).push(request_view(out@.last())));
                }
                i += 1;
                assert(all_known(store.sources(), ids@.subrange(0, i as int))) by {
                    assert forall|j: int| 0 <= j < i implies has_source(
                        store.sources(),
                        #[trigger] ids@.subrange(0, i as int)[j]@,
                    ) by {
                        if j < i - 1 {
                            assert(ids@.subrange(0, i as int)[j] == ids@.subrange(0, i - 1)[j]);
                        }
                    }
                }
            }
            assert(ids@.subrange(0, ids@.len() as int) =~= ids@);
            Ok(out)
        },
    }
}

/// Where the details of a catalog entry come from.
#[derive(Debug)]
pub enum DetailsRequest {
    /// Entries of the reserved source are described by their manifest,
    /// whose URL is the entry's id.
    FromManifest { url: String },
    /// Other sources describe entries themselves.
    Api { base_url: String, extension_id: String },
}

/// Plans a details lookup: the reserved source reads the manifest; another
/// source must exist (`NotFound`) and be enabled (`Validation`).
pub fn plan_details_fetch(store: &StoreManager, source_id: &str, extension_id: &str) -> (r: Result<
    DetailsRequest,
    StoreError,
>)
    requires
        store.wf(),
    ensures
        source_id@ == reserved_id() ==> (r matches Ok(DetailsRequest::FromManifest { url })
            && url@ == extension_id@),
        source_id@ != reserved_id() && !has_source(store.sources(), source_id@) ==> (r matches Err(
            StoreError::NotFound(_),
        )),
        source_id@ != reserved_id() && has_source(store.sources(), source_id@) && !find_source(
            store.sources(),
            source_id@,
        ).unwrap().enabled ==> (r matches Err(StoreError::Validation(_))),
        source_id@ != reserved_id() && has_source(store.sources(), source_id@) && find_source(
            store.sources(),
            source_id@,
        ).unwrap().enabled ==> (r matches Ok(DetailsRequest::Api { base_url, extension_id: e })
            && base_url@ == find_source(store.sources(), source_id@).unwrap().base_url@ && e@
            == extension_id@),
{
    if str_equals(source_id, "default") {
        return Ok(DetailsRequest::FromManifest { url: String::from_str(extension_id) });
    }
    match store.get_source(source_id) {
        None => Err(
            StoreError::NotFound(
                String::from_str("Source ").concat(source_id).concat(" not found"),
            ),
        ),
        Some(source) => {
            if !source.enabled {
                Err(
                    StoreError::Validation(
                        String::from_str("Source ").concat(source_id).concat(" is disabled"),
                    ),
                )
            } else {
                Ok(
                    DetailsRequest::Api {
                        base_url: source.base_url,
                        extension_id: String::from_str(extension_id),
                    },
                )
            }
        },
    }
}

/// The details that stand for an entry described by its manifest alone: no
/// counts, no package, no checksum.
pub fn details_from_manifest(extension_id: &str, manifest: ExtensionManifest) -> (r: StoreExtensionDetails)
    ensures
        r.id@ == extension_id@,
        r.name == manifest.name,
        r.version == manifest.version,
        r.author@ == crate::manager::opt_text(manifest.author),
        r.description@ == crate::manager::opt_text(manifest.description),
        r.extension_type == manifest.extension_type,
        r.download_count == 0,
        r.rating_hundredths == 0,
        r.tags@.len() == 0,
        r.manifest_url@ == extension_id@,
        r.package_url@.len() == 0,
        r.checksum@.len() == 0,
        r.readme@.len() == 0,
        r.screenshots@.len() == 0,
        manifest.dependencies matches Some(d) ==> r.dependencies == d,
        manifest.dependencies is None ==> r.dependencies@ == Map::<String, String>::empty(),
{
    let author = match manifest.author {
        Some(a) => a,
        None => String::new(),
    };
    let description = match manifest.description {
        Some(d) => d,
        None => String::new(),
    };
    let dependencies = match manifest.dependencies {
        Some(d) => d,
        None => HashMap::new(),
    };
    StoreExtensionDetails {
        id: String::from_str(extension_id),
        name: manifest.name,
        version: manifest.version,
        author,
        description,
        extension_type: manifest.extension_type,
        download_count: 0,
        rating_hundredths: 0,
        tags: Vec::new(),
        manifest_url: String::from_str(extension_id),
        package_url: String::new(),
        checksum: String::new(),
        readme: String::new(),
        screenshots: Vec::new(),
        dependencies,
    }
}

/// The security pass on a manifest downloaded from a store: refused with
/// `Security` when its name or entry point climbs directories or holds a
/// separator, or when it asks for `filesystem` or `native`.
pub fn vet_downloaded_manifest(manifest: ExtensionManifest) -> (r: Result<ExtensionManifest, StoreError>)
    ensures
        r is Ok <==> manifest_secure(manifest),
        r matches Ok(m) ==> m == manifest,
        r is Err ==> (r matches Err(StoreError::Security(_))),
{
    match check_manifest_security(&manifest) {
        Ok(()) => Ok(manifest),
        Err(e) => Err(StoreError::Security(e.message())),
    }
}

/// An entry of the reserved source's static list of extensions.
#[derive(Debug)]
pub struct DefaultListing {
    pub name: String,
    pub description: String,
    pub version: String,
    pub author: String,
    pub tags: Vec<String>,
    pub icon: Option<String>,
    pub manifest_url: String,
}

/// A listing entry as a source's catalog API returns it.
#[derive(Debug)]
pub struct StoreExtensionSummary {
    pub id: String,
    pub name: String,
    pub version: String,
    pub author: String,
    pub description: String,
    pub extension_type: ExtensionType,
    pub download_count: u32,
    /// The rating in hundredths.
    pub rating_hundredths: u32,
    pub tags: Vec<String>,
}

/// A catalog entry as it is listed, with the source it came from.
#[derive(Debug)]
pub struct CatalogEntry {
    pub id: String,
    pub name: String,
    pub version: String,
    pub author: String,
    pub description: String,
    pub extension_type: ExtensionType,
    pub source_id: String,
    pub icon: Option<String>,
    pub download_count: u32,
    /// The rating in hundredths.
    pub rating_hundredths: u32,
    pub tags: Vec<String>,
}

/// An entry of the static list: known by its manifest URL, always a game
/// library, with no counts.
pub fn entry_from_listing(source_id: &str, l: DefaultListing) -> (r: CatalogEntry)
    ensures
        r.id == l.manifest_url,
        r.name == l.name,
        r.version == l.version,
        r.author == l.author,
        r.description == l.description,
        r.extension_type == ExtensionType::GameLibrary,
        r.source_id@ == source_id@,
        r.icon == l.icon,
        r.download_count == 0,
        r.rating_hundredths == 0,
        r.tags == l.tags,
{
    CatalogEntry {
        id: l.manifest_url,
        name: l.name,
        version: l.version,
        author: l.author,
        description: l.description,
        extension_type: ExtensionType::GameLibrary,
        source_id: String::from_str(source_id),
        icon: l.icon,
        download_count: 0,
        rating_hundredths: 0,
        tags: l.tags,
    }
}

/// An entry of a catalog API: its own fields, without an icon.
pub fn entry_from_summary(source_id: &str, s: StoreExtensionSummary) -> (r: CatalogEntry)
    ensures
        r.id == s.id,
        r.name == s.name,
        r.version == s.version,
        r.author == s.author,
        r.description == s.description,
        r.extension_type == s.extension_type,
        r.source_id@ == source_id@,
        r.icon is None,
        r.download_count == s.download_count,
        r.rating_hundredths == s.rating_hundredths,
        r.tags == s.tags,
{
    CatalogEntry {
        id: s.id,
        name: s.name,
        version: s.version,
        author: s.author,
        description: s.description,
        extension_type: s.extension_type,
        source_id: String::from_str(source_id),
        icon: None,
        download_count: s.download_count,
        rating_hundredths: s.rating_hundredths,
        tags: s.tags,
    }
}

} // verus!
