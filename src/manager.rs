//! Lifecycle of loaded extensions: load, unload, enable, disable, hook and
//! API dispatch, and the menu they contribute. Persistence is described, not
//! performed: each change hands back the database writes that mirror it.
use vstd::prelude::*;
use vstd::string::*;
use serde_json::Value;
use crate::error::ExtensionError;
use crate::manifest::{ExtensionManifest, MenuItem, manifest_valid, validate_manifest, type_name_spec};
use crate::paths::{parent_dir, parent_dir_spec};
use crate::registry::{ExtensionInfo, ExtensionRegistry, lists, with_enabled};
use crate::runtime::{ExtensionContext, ExtensionImpl, StubExtension, collect_hook_results, successes};
use crate::text::str_equals;

verus! {

/// A write to the persisted extension tables.
#[derive(Debug)]
pub enum DbWrite {
    InsertExtension {
        id: String,
        name: String,
        version: String,
        author: String,
        description: String,
        extension_type: String,
        entry_point: String,
        manifest_path: String,
    },
    /// A declared permission, recorded as not yet granted.
    InsertPermission { extension_id: String, permission: String },
    DeletePermissions { extension_id: String },
    DeleteSettings { extension_id: String },
    DeleteExtension { id: String },
    SetEnabled { id: String, enabled: bool },
}

/// Relies on uuid::Uuid::new_v4 for a fresh random identifier, written in its
/// hyphenated form, which is 36 characters long.
#[verifier::external_body]
fn fresh_extension_id() -> (r: String)
    ensures
        r@.len() == 36,
{
    uuid::Uuid::new_v4().to_string()
}

pub open spec fn has_ext(exts: Seq<StubExtension>, id: Seq<char>) -> bool {
    exists|i: int| 0 <= i < exts.len() && #[trigger] exts[i].id@ == id
}

pub open spec fn ext_index(exts: Seq<StubExtension>, id: Seq<char>) -> int {
    choose|i: int| 0 <= i < exts.len() && #[trigger] exts[i].id@ == id
}

/// The loaded extension with id `id`.
pub open spec fn find_ext(exts: Seq<StubExtension>, id: Seq<char>) -> Option<StubExtension> {
    if has_ext(exts, id) {
        Some(exts[ext_index(exts, id)])
    } else {
        None
    }
}

/// `exts` without the extension with id `id`.
pub open spec fn without_ext(exts: Seq<StubExtension>, id: Seq<char>) -> Seq<StubExtension> {
    if has_ext(exts, id) {
        exts.remove(ext_index(exts, id))
    } else {
        exts
    }
}

pub open spec fn unique_ids(exts: Seq<StubExtension>) -> bool {
    forall|i: int, j: int|
        0 <= i < exts.len() && 0 <= j < exts.len() && i != j ==> #[trigger] exts[i].id@
            != #[trigger] exts[j].id@
}

pub open spec fn opt_text(o: Option<String>) -> Seq<char> {
    match o {
        Some(s) => s@,
        None => Seq::empty(),
    }
}

/// The registry entry of a freshly loaded extension.
pub open spec fn info_describes(info: ExtensionInfo, id: Seq<char>, m: ExtensionManifest) -> bool {
    &&& info.id@ == id
    &&& info.name == m.name
    &&& info.version == m.version
    &&& info.author == m.author
    &&& info.description == m.description
    &&& info.extension_type@ == type_name_spec(m.extension_type)
    &&& info.enabled
}

/// The record row of an extension.
pub open spec fn is_record_row(w: DbWrite, id: Seq<char>, m: ExtensionManifest, path: Seq<char>) -> bool {
    match w {
        DbWrite::InsertExtension {
            id: i,
            name,
            version,
            author,
            description,
            extension_type,
            entry_point,
            manifest_path,
        } => {
            &&& i@ == id
            &&& name@ == m.name@
            &&& version@ == m.version@
            &&& author@ == opt_text(m.author)
            &&& description@ == opt_text(m.description)
            &&& extension_type@ == type_name_spec(m.extension_type)
            &&& entry_point@ == m.entry_point@
            &&& manifest_path@ == path
        },
        _ => false,
    }
}

/// An ungranted permission row.
pub open spec fn is_permission_row(w: DbWrite, id: Seq<char>, permission: Seq<char>) -> bool {
    match w {
        DbWrite::InsertPermission { extension_id, permission: p } => extension_id@ == id && p@
            == permission,
        _ => false,
    }
}

/// The rows written when an extension is loaded: its record, then one
/// ungranted permission row per declared permission, in order.
pub open spec fn load_writes(
    w: Seq<DbWrite>,
    id: Seq<char>,
    m: ExtensionManifest,
    path: Seq<char>,
) -> bool {
    &&& w.len() == m.permissions@.len() + 1
    &&& is_record_row(w[0], id, m, path)
    &&& forall|j: int|
        0 <= j < m.permissions@.len() ==> is_permission_row(
            #[trigger] w[j + 1],
            id,
            m.permissions@[j]@,
        )
}

/// The rows deleted when an extension is unloaded, children first.
pub open spec fn unload_writes(w: Seq<DbWrite>, id: Seq<char>) -> bool {
    &&& w.len() == 3
    &&& w[0] matches DbWrite::DeletePermissions { extension_id } && extension_id@ == id
    &&& w[1] matches DbWrite::DeleteSettings { extension_id } && extension_id@ == id
    &&& w[2] matches DbWrite::DeleteExtension { id: i } && i@ == id
}

/// Whether the registry has `id` enabled.
pub open spec fn is_enabled(reg: Map<Seq<char>, ExtensionInfo>, id: Seq<char>) -> bool {
    reg.contains_key(id) && reg[id].enabled
}

/// The menu entries a manifest declares.
pub open spec fn contributions(e: StubExtension) -> Seq<MenuItem> {
    match e.manifest.menu_items {
        Some(v) => v@,
        None => Seq::empty(),
    }
}

/// The contributions of the enabled extensions, extension by extension, each
/// in its declared order.
pub open spec fn enabled_menu(exts: Seq<StubExtension>, reg: Map<Seq<char>, ExtensionInfo>) -> Seq<
    MenuItem,
>
    decreases exts.len(),
{
    if exts.len() == 0 {
        Seq::empty()
    } else {
        enabled_menu(exts.drop_last(), reg) + if is_enabled(reg, exts.last().id@) {
            contributions(exts.last())
        } else {
            Seq::empty()
        }
    }
}

/// Removing an extension keeps the others, each once, and leaves none with
/// the removed id.
pub proof fn lemma_without_ext(exts: Seq<StubExtension>, id: Seq<char>)
    requires
        unique_ids(exts),
    ensures
        unique_ids(without_ext(exts, id)),
        !has_ext(without_ext(exts, id), id),
        forall|k: Seq<char>|
            k != id ==> (has_ext(without_ext(exts, id), k) == has_ext(exts, k)),
{
    if has_ext(exts, id) {
        let p = ext_index(exts, id);
        let w = exts.remove(p);
        assert(w == without_ext(exts, id));
        assert forall|j: int| 0 <= j < w.len() implies w[j].id@ != id by {
            if j < p {
                assert(w[j] == exts[j]);
            } else {
                assert(w[j] == exts[j + 1]);
            }
        }
        assert forall|i: int, j: int|
            0 <= i < w.len() && 0 <= j < w.len() && i != j implies #[trigger] w[i].id@
            != #[trigger] w[j].id@ by {
            let a = if i < p {
                i
            } else {
                i + 1
            };
            let b = if j < p {
                j
            } else {
                j + 1
            };
            assert(w[i] == exts[a]);
            assert(w[j] == exts[b]);
        }
        assert forall|k: Seq<char>| k != id implies (has_ext(w, k) == has_ext(exts, k)) by {
            if has_ext(w, k) {
                let j = choose|j: int| 0 <= j < w.len() && #[trigger] w[j].id@ == k;
                if j < p {
                    assert(exts[j].id@ == k);
                } else {
                    assert(exts[j + 1].id@ == k);
                }
            }
            if has_ext(exts, k) {
                let j = choose|j: int| 0 <= j < exts.len() && #[trigger] exts[j].id@ == k;
                assert(j != p);
                if j < p {
                    assert(w[j].id@ == k);
                } else {
                    assert(w[j - 1].id@ == k);
                }
            }
        }
    }
}

/// Unloading an extension leaves it unloaded, so a second unload of the same
/// id finds nothing: it succeeds, changes nothing and writes nothing.
pub proof fn lemma_unload_twice(exts: Seq<StubExtension>, id: Seq<char>)
    requires
        unique_ids(exts),
    ensures
        !has_ext(without_ext(exts, id), id),
        without_ext(without_ext(exts, id), id) == without_ext(exts, id),
{
    lemma_without_ext(exts, id);
}

/// After a load, looking the new id up yields the extension that was loaded,
/// with the manifest it was given.
pub proof fn lemma_load_round_trip(exts: Seq<StubExtension>, e: StubExtension)
    requires
        unique_ids(exts),
    ensures
        find_ext(without_ext(exts, e.id@).push(e), e.id@) == Some(e),
{
    lemma_without_ext(exts, e.id@);
    let w = without_ext(exts, e.id@);
    let s = w.push(e);
    assert(s[w.len() as int].id@ == e.id@);
    let j = ext_index(s, e.id@);
    if j != w.len() {
        assert(s[j] == w[j]);
        assert(has_ext(w, e.id@));
    }
}

/// Disabling an extension removes exactly its contributions from the menu.
pub proof fn lemma_disable_hides_menu(
    exts: Seq<StubExtension>,
    reg: Map<Seq<char>, ExtensionInfo>,
    id: Seq<char>,
)
    requires
        reg.contains_key(id),
    ensures
        enabled_menu(exts, reg.insert(id, with_enabled(reg[id], false))) == enabled_menu(
            exts.filter(|e: StubExtension| e.id@ != id),
            reg,
        ),
    decreases exts.len(),
{
    reveal(Seq::filter);
    let pred = |e: StubExtension| e.id@ != id;
    let reg2 = reg.insert(id, with_enabled(reg[id], false));
    if exts.len() > 0 {
        let l = exts.last();
        lemma_disable_hides_menu(exts.drop_last(), reg, id);
        let f = exts.drop_last().filter(pred);
        assert(exts.filter(pred) == if pred(l) {
            f.push(l)
        } else {
            f
        });
        if pred(l) {
            assert(f.push(l).drop_last() =~= f);
            assert(is_enabled(reg2, l.id@) == is_enabled(reg, l.id@));
        } else {
            assert(!is_enabled(reg2, l.id@));
            assert(enabled_menu(exts, reg2) =~= enabled_menu(exts.drop_last(), reg2));
        }
    } else {
        assert(exts.filter(pred) =~= exts);
    }
}

/// Enabling again an extension that was enabled and then disabled brings the
/// menu back as it was.
pub proof fn lemma_enable_restores_menu(
    exts: Seq<StubExtension>,
    reg: Map<Seq<char>, ExtensionInfo>,
    id: Seq<char>,
)
    requires
        reg.contains_key(id),
        reg[id].enabled,
    ensures
        ({
            let off = reg.insert(id, with_enabled(reg[id], false));
            enabled_menu(exts, off.insert(id, with_enabled(off[id], true))) == enabled_menu(exts, reg)
        }),
{
    let off = reg.insert(id, with_enabled(reg[id], false));
    assert(with_enabled(off[id], true) == reg[id]);
    assert(off.insert(id, with_enabled(off[id], true)) =~= reg);
}

proof fn lemma_successes_all_ok(s: Seq<Result<Value, ExtensionError>>, v: Value)
    requires
        forall|i: int| 0 <= i < s.len() ==> s[i] == Ok::<Value, ExtensionError>(v),
    ensures
        successes(s).len() == s.len(),
        forall|i: int| 0 <= i < s.len() ==> successes(s)[i] == v,
    decreases s.len(),
{
    if s.len() > 0 {
        lemma_successes_all_ok(s.drop_last(), v);
    }
}

fn position_in(exts: &Vec<StubExtension>, id: &str) -> (r: Option<usize>)
    requires
        unique_ids(exts@),
    ensures
        r is None <==> !has_ext(exts@, id@),
        r matches Some(i) ==> i < exts@.len() && i == ext_index(exts@, id@) && exts@[i as int].id@
            == id@,
{
    let mut i: usize = 0;
    while i < exts.len()
        invariant
            unique_ids(exts@),
            i <= exts@.len(),
            forall|j: int| 0 <= j < i ==> #[trigger] exts@[j].id@ != id@,
        decreases exts@.len() - i,
    {
        if str_equals(exts[i].id.as_str(), id) {
            proof {
                assert(has_ext(exts@, id@));
                let c = ext_index(exts@, id@);
                assert(exts@[c].id@ == id@);
                assert(c == i);
            }
            return Some(i);
        }
        i += 1;
    }
    None
}

/// Origins that do not name extension `id`.
pub open spec fn origin_not_of(id: Seq<char>) -> spec_fn((String, String)) -> bool {
    |o: (String, String)| o.1@ != id
}

/// Origins that do not come from catalog entry `catalog_id`.
pub open spec fn origin_not_from(catalog_id: Seq<char>) -> spec_fn((String, String)) -> bool {
    |o: (String, String)| o.0@ != catalog_id
}

/// Each catalog entry appears at most once.
pub open spec fn unique_catalogs(o: Seq<(String, String)>) -> bool {
    forall|i: int, j: int|
        0 <= i < o.len() && 0 <= j < o.len() && i != j ==> #[trigger] o[i].0@ != #[trigger] o[j].0@
}

proof fn lemma_filter_unique(s: Seq<(String, String)>, p: spec_fn((String, String)) -> bool)
    requires
        unique_catalogs(s),
    ensures
        unique_catalogs(s.filter(p)),
    decreases s.len(),
{
    reveal(Seq::filter);
    if s.len() > 0 {
        let d = s.drop_last();
        assert(unique_catalogs(d)) by {
            assert forall|i: int, j: int|
                0 <= i < d.len() && 0 <= j < d.len() && i != j implies #[trigger] d[i].0@
                != #[trigger] d[j].0@ by {
                assert(d[i] == s[i] && d[j] == s[j]);
            }
        }
        lemma_filter_unique(d, p);
        let f = d.filter(p);
        let l = s.last();
        if p(l) {
            let g = f.push(l);
            assert forall|i: int, j: int|
                0 <= i < g.len() && 0 <= j < g.len() && i != j implies #[trigger] g[i].0@
                != #[trigger] g[j].0@ by {
                if i == f.len() || j == f.len() {
                    let x = if i == f.len() { j } else { i };
                    assert(f.contains(f[x]));
                    d.lemma_filter_contains_rev(p, f[x]);
                    let k = choose|k: int| 0 <= k < d.len() && d[k] == f[x];
                    assert(d[k] == s[k]);
                    assert(s[k].0@ != s[s.len() - 1].0@);
                }
            }
        }
    }
}

proof fn lemma_kept(s: Seq<(String, String)>, p: spec_fn((String, String)) -> bool, j: int)
    requires
        0 <= j < s.filter(p).len(),
    ensures
        s.contains(s.filter(p)[j]),
        p(s.filter(p)[j]),
{
    s.lemma_filter_pred(p, j);
    assert(s.filter(p).contains(s.filter(p)[j]));
    s.lemma_filter_contains_rev(p, s.filter(p)[j]);
}

/// The pairs of `v` whose catalog id (`by_catalog`) or extension id is not `key`.
fn without_origins(v: &Vec<(String, String)>, key: &str, by_catalog: bool) -> (r: Vec<(String, String)>)
    ensures
        by_catalog ==> r@ == v@.filter(origin_not_from(key@)),
        !by_catalog ==> r@ == v@.filter(origin_not_of(key@)),
{
    let ghost pred = if by_catalog {
        origin_not_from(key@)
    } else {
        origin_not_of(key@)
    };
    let mut out: Vec<(String, String)> = Vec::new();
    let mut i: usize = 0;
    while i < v.len()
        invariant
            i <= v@.len(),
            pred == (if by_catalog {
                origin_not_from(key@)
            } else {
                origin_not_of(key@)
            }),
            out@ == v@.subrange(0, i as int).filter(pred),
        decreases v@.len() - i,
    {
        let o = &v[i];
        let field = if by_catalog {
            o.0.as_str()
        } else {
            o.1.as_str()
        };
        proof {
            reveal(Seq::filter);
            let sub = v@.subrange(0, i + 1);
            assert(sub.drop_last() =~= v@.subrange(0, i as int));
            assert(sub.last() == *o);
        }
        if !str_equals(field, key) {
            out.push((o.0.clone(), o.1.clone()));
        }
        i += 1;
    }
    assert(v@.subrange(0, v@.len() as int) =~= v@);
    out
}

/// Owns the loaded extensions and the registry that mirrors them.
pub struct ExtensionManager {
    extensions: Vec<StubExtension>,
    registry: ExtensionRegistry,
    context: ExtensionContext,
    origins: Vec<(String, String)>,
}

impl ExtensionManager {
    /// The loaded extensions.
    pub closed spec fn loaded(&self) -> Seq<StubExtension> {
        self.extensions@
    }

    /// The registry: id to summary and enabled flag.
    pub closed spec fn infos(&self) -> Map<Seq<char>, ExtensionInfo> {
        self.registry@
    }

    /// Which catalog entry each store-installed extension came from:
    /// (catalog id, extension id).
    pub closed spec fn origins(&self) -> Seq<(String, String)> {
        self.origins@
    }

    pub closed spec fn extension_dir(&self) -> Seq<char> {
        self.context.extension_dir@
    }

    pub closed spec fn wf(&self) -> bool {
        &&& self.registry.wf()
        &&& unique_ids(self.extensions@)
        &&& forall|k: Seq<char>|
            #![trigger self.registry@.contains_key(k)]
            #![trigger has_ext(self.extensions@, k)]
            self.registry@.contains_key(k) <==> has_ext(self.extensions@, k)
        &&& forall|j: int|
            0 <= j < self.origins@.len() ==> has_ext(self.extensions@, (#[trigger] self.origins@[j]).1@)
        &&& unique_catalogs(self.origins@)
    }

    /// What holds of every manager, stated over its views: loaded ids are
    /// distinct, the registry has an entry for exactly the loaded ids, every
    /// recorded origin names a loaded extension, and each catalog entry is
    /// recorded at most once.
    pub open spec fn consistent(&self) -> bool {
        &&& unique_ids(self.loaded())
        &&& forall|k: Seq<char>|
            #![trigger self.infos().contains_key(k)]
            #![trigger has_ext(self.loaded(), k)]
            self.infos().contains_key(k) <==> has_ext(self.loaded(), k)
        &&& forall|j: int|
            0 <= j < self.origins().len() ==> has_ext(self.loaded(), (#[trigger] self.origins()[j]).1@)
        &&& unique_catalogs(self.origins())
    }

    /// A well-formed manager is consistent.
    pub proof fn lemma_consistent(&self)
        requires
            self.wf(),
        ensures
            self.consistent(),
    {
    }

    pub fn new(extension_dir: String) -> (r: ExtensionManager)
        ensures
            r.wf(),
            r.consistent(),
            r.loaded() == Seq::<StubExtension>::empty(),
            r.infos() == Map::<Seq<char>, ExtensionInfo>::empty(),
            r.origins() == Seq::<(String, String)>::empty(),
            r.extension_dir() == extension_dir@,
    {
        ExtensionManager {
            extensions: Vec::new(),
            registry: ExtensionRegistry::new(),
            context: ExtensionContext { extension_dir },
            origins: Vec::new(),
        }
    }

    fn position(&self, id: &str) -> (r: Option<usize>)
        requires
            self.wf(),
        ensures
            r is None <==> !has_ext(self.extensions@, id@),
            r matches Some(i) ==> i < self.extensions@.len() && i == ext_index(
                self.extensions@,
                id@,
            ) && self.extensions@[i as int].id@ == id@,
    {
        position_in(&self.extensions, id)
    }

    /// A random identifier, lengthened in the unlikely case that it is
    /// already in use so that it is longer than every loaded id.
    fn fresh_id(&self) -> (r: String)
        requires
            self.wf(),
        ensures
            r@.len() >= 36,
            !has_ext(self.extensions@, r@),
    {
        let id = fresh_extension_id();
        if self.position(id.as_str()).is_none() {
            return id;
        }
        let mut longest: usize = 0;
        let mut i: usize = 0;
        while i < self.extensions.len()
            invariant
                i <= self.extensions@.len(),
                forall|j: int| 0 <= j < i ==> (#[trigger] self.extensions@[j]).id@.len() <= longest,
            decreases self.extensions@.len() - i,
        {
            let n = self.extensions[i].id.as_str().unicode_len();
            if n > longest {
                longest = n;
            }
            i += 1;
        }
        let mut out = id;
        proof {
            reveal_strlit("-");
        }
        while out.as_str().unicode_len() <= longest
            invariant
                out@.len() >= 36,
                "-"@.len() == 1,
            decreases longest + 1 - out@.len(),
        {
            out.append("-");
        }
        proof {
            if has_ext(self.extensions@, out@) {
                let j = choose|j: int| 0 <= j < self.extensions@.len() && #[trigger] self.extensions@[j].id@ == out@;
                assert(self.extensions@[j].id@.len() <= longest);
            }
        }
        out
    }

    fn create_extension(&self, id: &str, manifest: ExtensionManifest, path: String) -> (r: Result<
        StubExtension,
        ExtensionError,
    >)
        ensures
            r matches Ok(e) && e.id@ == id@ && e.manifest == manifest && e.path == path,
    {
        Ok(StubExtension { id: String::from_str(id), manifest, path })
    }

    /// Keeps `e` as the loaded extension under its id, in place of any other.
    fn retain(&mut self, e: StubExtension)
        requires
            old(self).registry.wf(),
            unique_ids(old(self).extensions@),
        ensures
            final(self).extensions@ == without_ext(old(self).extensions@, e.id@).push(e),
            unique_ids(final(self).extensions@),
            final(self).registry == old(self).registry,
            final(self).origins == old(self).origins,
            final(self).context == old(self).context,
    {
        let ghost old_exts = self.extensions@;
        proof {
            lemma_without_ext(old_exts, e.id@);
        }
        match position_in(&self.extensions, e.id.as_str()) {
            Some(i) => {
                self.extensions.remove(i);
            },
            None => {},
        }
        let ghost w = self.extensions@;
        assert(w == without_ext(old_exts, e.id@));
        self.extensions.push(e);
        assert forall|a: int, b: int|
            0 <= a < self.extensions@.len() && 0 <= b < self.extensions@.len() && a != b implies #[trigger] self.extensions@[a].id@
            != #[trigger] self.extensions@[b].id@ by {
            if a == w.len() {
                assert(!has_ext(w, e.id@));
                assert(self.extensions@[b] == w[b]);
            } else if b == w.len() {
                assert(!has_ext(w, e.id@));
                assert(self.extensions@[a] == w[a]);
            } else {
                assert(self.extensions@[a] == w[a]);
                assert(self.extensions@[b] == w[b]);
            }
        }
    }

    /// Validates the manifest, gives the extension a fresh id, builds and
    /// initializes its runtime object, registers it as enabled and keeps it.
    /// Returns the id and the rows to persist.
    pub fn load_extension(&mut self, manifest: ExtensionManifest, manifest_path: &str) -> (r: Result<
        (String, Vec<DbWrite>),
        ExtensionError,
    >)
        requires
            old(self).wf(),
        ensures
            final(self).wf(),
            final(self).consistent(),
            r is Ok <==> manifest_valid(manifest),
            r is Err ==> r matches Err(ExtensionError::Validation(_)),
            r is Err ==> final(self).loaded() == old(self).loaded() && final(self).infos() == old(self).infos(),
            final(self).origins() == old(self).origins(),
            final(self).extension_dir() == old(self).extension_dir(),
            r matches Ok(p) ==> {
                let id = p.0@;
                let e = final(self).loaded().last();
                &&& id.len() >= 36
                &&& !has_ext(old(self).loaded(), id)
                &&& final(self).loaded() == old(self).loaded().push(e)
                &&& final(self).loaded() == without_ext(old(self).loaded(), id).push(e)
                &&& e.id@ == id
                &&& e.manifest == manifest
                &&& e.path@ == parent_dir_spec(manifest_path@)
                &&& find_ext(final(self).loaded(), id) == Some(e)
                &&& final(self).infos() == old(self).infos().insert(id, final(self).infos()[id])
                &&& info_describes(final(self).infos()[id], id, manifest)
                &&& load_writes(p.1@, id, manifest, manifest_path@)
            },
    {
        match validate_manifest(&manifest) {
            Err(e) => {
                return Err(ExtensionError::Validation(e.message()));
            },
            Ok(()) => {},
        }
        let id = self.fresh_id();
        let mut extension = match self.create_extension(id.as_str(), manifest, parent_dir(manifest_path)) {
            Ok(e) => e,
            Err(e) => {
                return Err(e);
            },
        };
        match extension.initialize(&self.context) {
            Ok(()) => {},
            Err(e) => {
                return Err(e);
            },
        }
        let writes = self.persist_rows(&id, &extension.manifest, manifest_path);
        let info = ExtensionInfo {
            id: id.clone(),
            name: extension.manifest.name.clone(),
            version: extension.manifest.version.clone(),
            author: crate::text::copy_opt_string(&extension.manifest.author),
            description: crate::text::copy_opt_string(&extension.manifest.description),
            extension_type: String::from_str(extension.get_type().name()),
            enabled: true,
        };
        let ghost old_exts = self.extensions@;
        let ghost old_reg = self.registry@;
        self.registry.register(info);
        self.retain(extension);
        proof {
            lemma_without_ext(old_exts, id@);
            let exts = self.extensions@;
            assert(exts.last().id@ == id@);
            lemma_load_round_trip(old_exts, exts.last());
            assert forall|k: Seq<char>| self.registry@.contains_key(k) <==> has_ext(exts, k) by {
                if k == id@ {
                    assert(exts[exts.len() - 1].id@ == k);
                } else {
                    if has_ext(without_ext(old_exts, id@), k) {
                        let j = choose|j: int| 0 <= j < without_ext(old_exts, id@).len() && #[trigger] without_ext(old_exts, id@)[j].id@ == k;
                        assert(exts[j].id@ == k);
                    }
                    if has_ext(exts, k) {
                        let j = choose|j: int| 0 <= j < exts.len() && #[trigger] exts[j].id@ == k;
                        assert(j != exts.len() - 1);
                        assert(without_ext(old_exts, id@)[j].id@ == k);
                    }
                }
            }
            assert forall|j: int| 0 <= j < self.origins@.len() implies has_ext(exts, (#[trigger] self.origins@[j]).1@) by {
                let k = self.origins@[j].1@;
                assert(has_ext(old_exts, k));
                if k == id@ {
                    assert(exts[exts.len() - 1].id@ == k);
                } else {
                    let i = choose|i: int| 0 <= i < without_ext(old_exts, id@).len() && #[trigger] without_ext(old_exts, id@)[i].id@ == k;
                    assert(exts[i].id@ == k);
                }
            }
            assert(self.registry@ == old_reg.insert(id@, self.registry@[id@]));
        }
        Ok((id, writes))
    }

    /// Shuts the extension down, unregisters it and returns the rows to
    /// delete; an id that is not loaded is left alone.
    pub fn unload_extension(&mut self, id: &str) -> (r: Result<Vec<DbWrite>, ExtensionError>)
        requires
            old(self).wf(),
        ensures
            final(self).wf(),
            final(self).consistent(),
            r is Ok,
            final(self).extension_dir() == old(self).extension_dir(),
            !has_ext(old(self).loaded(), id@) ==> (r matches Ok(w) && w@.len() == 0 && final(self).loaded() == old(self).loaded() && final(self).infos() == old(self).infos() && final(self).origins() == old(self).origins()),
            !has_ext(final(self).loaded(), id@),
            has_ext(old(self).loaded(), id@) ==> (r matches Ok(w) && unload_writes(w@, id@) && final(self).loaded() == without_ext(old(self).loaded(), id@) && final(self).infos() == old(self).infos().remove(id@) && final(self).origins() == old(self).origins().filter(
                origin_not_of(id@),
            )),
    {
        match self.position(id) {
            None => Ok(Vec::new()),
            Some(i) => {
                let ghost old_exts = self.extensions@;
                let ghost old_origins = self.origins@;
                let mut extension = self.extensions.remove(i);
                match extension.shutdown() {
                    Ok(()) => {},
                    Err(e) => {
                        return Err(e);
                    },
                }
                self.registry.unregister(id);
                self.origins = without_origins(&self.origins, id, false);
                proof {
                    lemma_filter_unique(old_origins, origin_not_of(id@));
                    lemma_without_ext(old_exts, id@);
                    let exts = self.extensions@;
                    assert(exts == without_ext(old_exts, id@));
                    assert forall|k: Seq<char>| self.registry@.contains_key(k) <==> has_ext(exts, k) by {
                        if k != id@ {
                            assert(has_ext(exts, k) == has_ext(old_exts, k));
                        }
                    }
                    assert forall|j: int| 0 <= j < self.origins@.len() implies has_ext(
                        exts,
                        (#[trigger] self.origins@[j]).1@,
                    ) by {
                        lemma_kept(old_origins, origin_not_of(id@), j);
                        let o = self.origins@[j];
                        let k = choose|k: int| 0 <= k < old_origins.len() && old_origins[k] == o;
                        assert(has_ext(old_exts, old_origins[k].1@));
                        assert(o.1@ != id@);
                    }
                }
                let mut writes: Vec<DbWrite> = Vec::new();
                writes.push(DbWrite::DeletePermissions { extension_id: String::from_str(id) });
                writes.push(DbWrite::DeleteSettings { extension_id: String::from_str(id) });
                writes.push(DbWrite::DeleteExtension { id: String::from_str(id) });
                Ok(writes)
            },
        }
    }

    fn set_enabled(&mut self, id: &str, enabled: bool) -> (r: Result<DbWrite, ExtensionError>)
        requires
            old(self).wf(),
        ensures
            final(self).wf(),
            final(self).consistent(),
            r is Ok <==> old(self).infos().contains_key(id@),
            final(self).loaded() == old(self).loaded(),
            final(self).origins() == old(self).origins(),
            final(self).extension_dir() == old(self).extension_dir(),
            r is Ok ==> final(self).infos() == old(self).infos().insert(
                id@,
                with_enabled(old(self).infos()[id@], enabled),
            ),
            r matches Ok(w) ==> w matches DbWrite::SetEnabled { id: i, enabled: e } && i@ == id@
                && e == enabled,
            r is Err ==> final(self).infos() == old(self).infos() && r matches Err(
                ExtensionError::NotFound(_),
            ),
    {
        let ghost old_reg = self.registry@;
        if self.registry.set_enabled(id, enabled) {
            assert forall|k: Seq<char>| #[trigger] self.registry@.contains_key(k) <==> old_reg.contains_key(k) by {}
            Ok(DbWrite::SetEnabled { id: String::from_str(id), enabled })
        } else {
            let msg = String::from_str("Extension ").concat(id).concat(" not found");
            Err(ExtensionError::NotFound(msg))
        }
    }

    /// Marks the extension enabled; `NotFound` if it is not registered.
    pub fn enable_extension(&mut self, id: &str) -> (r: Result<DbWrite, ExtensionError>)
        requires
            old(self).wf(),
        ensures
            final(self).wf(),
            final(self).consistent(),
            r is Ok <==> old(self).infos().contains_key(id@),
            final(self).loaded() == old(self).loaded(),
            final(self).origins() == old(self).origins(),
            final(self).extension_dir() == old(self).extension_dir(),
            r is Ok ==> final(self).infos() == old(self).infos().insert(
                id@,
                with_enabled(old(self).infos()[id@], true),
            ),
            r matches Ok(w) ==> w matches DbWrite::SetEnabled { id: i, enabled: e } && i@ == id@
                && e,
            r is Err ==> final(self).infos() == old(self).infos() && r matches Err(
                ExtensionError::NotFound(_),
            ),
    {
        self.set_enabled(id, true)
    }

    /// Marks the extension disabled; `NotFound` if it is not registered.
    pub fn disable_extension(&mut self, id: &str) -> (r: Result<DbWrite, ExtensionError>)
        requires
            old(self).wf(),
        ensures
            final(self).wf(),
            final(self).consistent(),
            r is Ok <==> old(self).infos().contains_key(id@),
            final(self).loaded() == old(self).loaded(),
            final(self).origins() == old(self).origins(),
            final(self).extension_dir() == old(self).extension_dir(),
            r is Ok ==> final(self).infos() == old(self).infos().insert(
                id@,
                with_enabled(old(self).infos()[id@], false),
            ),
            r matches Ok(w) ==> w matches DbWrite::SetEnabled { id: i, enabled: e } && i@ == id@
                && !e,
            r is Err ==> final(self).infos() == old(self).infos() && r matches Err(
                ExtensionError::NotFound(_),
            ),
    {
        self.set_enabled(id, false)
    }

    /// Sends a hook to every loaded extension, enabled or not, and keeps the
    /// answers of those that succeeded.
    pub fn call_hook(&self, hook: &str, params: Value) -> (r: Vec<Value>)
        requires
            self.wf(),
        ensures
            r@.len() == self.loaded().len(),
            forall|i: int| 0 <= i < r@.len() ==> r@[i] == params,
    {
        let mut outcomes: Vec<Result<Value, ExtensionError>> = Vec::new();
        let mut i: usize = 0;
        while i < self.extensions.len()
            invariant
                i <= self.extensions@.len(),
                outcomes@.len() == i,
                forall|j: int| 0 <= j < i ==> outcomes@[j] == Ok::<Value, ExtensionError>(params),
            decreases self.extensions@.len() - i,
        {
            let answer = self.extensions[i].handle_hook(hook, params.clone());
            outcomes.push(answer);
            i += 1;
        }
        proof {
            lemma_successes_all_ok(outcomes@, params);
        }
        collect_hook_results(outcomes)
    }

    /// Sends an API call to one extension; `NotFound` if it is not loaded.
    pub fn call_api(&self, id: &str, api: &str, params: Value) -> (r: Result<Value, ExtensionError>)
        requires
            self.wf(),
        ensures
            has_ext(self.loaded(), id@) ==> r == Ok::<Value, ExtensionError>(params),
            !has_ext(self.loaded(), id@) ==> r matches Err(ExtensionError::NotFound(_)),
    {
        match self.position(id) {
            Some(i) => self.extensions[i].handle_hook(api, params),
            None => Err(ExtensionError::NotFound(String::from_str("Extension not found"))),
        }
    }

    /// The loaded extension with id `id`.
    pub fn get_extension(&self, id: &str) -> (r: Option<&StubExtension>)
        requires
            self.wf(),
        ensures
            match r {
                Some(e) => find_ext(self.loaded(), id@) == Some(*e),
                None => find_ext(self.loaded(), id@) is None,
            },
    {
        match self.position(id) {
            Some(i) => Some(&self.extensions[i]),
            None => None,
        }
    }

    /// The registry entries of every installed extension.
    pub fn list_extensions(&self) -> (r: Vec<ExtensionInfo>)
        requires
            self.wf(),
        ensures
            lists(r@, self.infos()),
    {
        self.registry.get_all()
    }

    /// The menu entries contributed by the enabled extensions.
    pub fn get_extension_menu_items(&self) -> (r: Vec<MenuItem>)
        requires
            self.wf(),
        ensures
            r@ == enabled_menu(self.loaded(), self.infos()),
    {
        let mut out: Vec<MenuItem> = Vec::new();
        let mut i: usize = 0;
        while i < self.extensions.len()
            invariant
                self.wf(),
                i <= self.extensions@.len(),
                out@ == enabled_menu(self.extensions@.subrange(0, i as int), self.registry@),
            decreases self.extensions@.len() - i,
        {
            let e = &self.extensions[i];
            let ghost before = out@;
            let enabled = match self.registry.get(e.id.as_str()) {
                Some(info) => info.enabled,
                None => false,
            };
            if enabled {
                match &e.manifest.menu_items {
                    Some(items) => {
                        let mut j: usize = 0;
                        while j < items.len()
                            invariant
                                j <= items@.len(),
                                out@ == before + items@.subrange(0, j as int),
                            decreases items@.len() - j,
                        {
                            out.push(items[j].duplicate());
                            j += 1;
                            assert(out@ =~= before + items@.subrange(0, j as int));
                        }
                        assert(items@.subrange(0, items@.len() as int) =~= items@);
                    },
                    None => {
                        assert(out@ =~= before + Seq::<MenuItem>::empty());
                    },
                }
            } else {
                assert(out@ =~= before + Seq::<MenuItem>::empty());
            }
            proof {
                let sub = self.extensions@.subrange(0, i + 1);
                assert(sub.drop_last() =~= self.extensions@.subrange(0, i as int));
                assert(sub.last() == *e);
            }
            i += 1;
        }
        assert(self.extensions@.subrange(0, self.extensions@.len() as int) =~= self.extensions@);
        out
    }

    /// The extension installed from catalog entry `catalog_id`, if any.
    pub fn installed_for_catalog(&self, catalog_id: &str) -> (r: Option<String>)
        requires
            self.wf(),
        ensures
            r is None <==> forall|j: int|
                0 <= j < self.origins().len() ==> (#[trigger] self.origins()[j]).0@ != catalog_id@,
            r matches Some(id) ==> has_ext(self.loaded(), id@) && exists|j: int|
                0 <= j < self.origins().len() && (#[trigger] self.origins()[j]).0@ == catalog_id@
                    && self.origins()[j].1@ == id@,
    {
        let mut i: usize = 0;
        while i < self.origins.len()
            invariant
                self.wf(),
                i <= self.origins@.len(),
                forall|j: int| 0 <= j < i ==> (#[trigger] self.origins@[j]).0@ != catalog_id@,
            decreases self.origins@.len() - i,
        {
            if str_equals(self.origins[i].0.as_str(), catalog_id) {
                let id = self.origins[i].1.clone();
                assert(has_ext(self.extensions@, self.origins@[i as int].1@));
                assert(self.origins()[i as int].0@ == catalog_id@);
                assert(self.origins()[i as int].1@ == id@);
                return Some(id);
            }
            i += 1;
        }
        None
    }

    /// Records that the loaded extension `id` was installed from catalog
    /// entry `catalog_id`, replacing an earlier record for that entry.
    pub fn record_catalog_install(&mut self, catalog_id: &str, id: &str)
        requires
            old(self).wf(),
            has_ext(old(self).loaded(), id@),
        ensures
            final(self).wf(),
            final(self).consistent(),
            final(self).loaded() == old(self).loaded(),
            final(self).infos() == old(self).infos(),
            final(self).extension_dir() == old(self).extension_dir(),
            final(self).origins().len() == old(self).origins().filter(
                origin_not_from(catalog_id@),
            ).len() + 1,
            forall|j: int|
                0 <= j < final(self).origins().len() - 1 ==> final(self).origins()[j] == old(self).origins().filter(origin_not_from(catalog_id@))[j],
            final(self).origins().last().0@ == catalog_id@,
            final(self).origins().last().1@ == id@,
    {
        let ghost old_origins = self.origins@;
        proof {
            lemma_filter_unique(old_origins, origin_not_from(catalog_id@));
        }
        let kept = without_origins(&self.origins, catalog_id, true);
        self.origins = kept;
        self.origins.push((String::from_str(catalog_id), String::from_str(id)));
        proof {
            assert forall|j: int| 0 <= j < self.origins@.len() implies has_ext(
                self.extensions@,
                (#[trigger] self.origins@[j]).1@,
            ) by {
                if j < self.origins@.len() - 1 {
                    let o = self.origins@[j];
                    lemma_kept(old_origins, origin_not_from(catalog_id@), j);
                    assert(old_origins.filter(origin_not_from(catalog_id@))[j] == o);
                    let k = choose|k: int| 0 <= k < old_origins.len() && old_origins[k] == o;
                    assert(has_ext(self.extensions@, old_origins[k].1@));
                }
            }
            let f = old_origins.filter(origin_not_from(catalog_id@));
            assert forall|i: int, j: int|
                0 <= i < self.origins@.len() && 0 <= j < self.origins@.len() && i != j implies #[trigger] self.origins@[i].0@
                != #[trigger] self.origins@[j].0@ by {
                if i == f.len() {
                    old_origins.lemma_filter_pred(origin_not_from(catalog_id@), j);
                } else if j == f.len() {
                    old_origins.lemma_filter_pred(origin_not_from(catalog_id@), i);
                } else {
                    assert(self.origins@[i] == f[i] && self.origins@[j] == f[j]);
                }
            }
        }
    }

    fn persist_rows(&self, id: &String, m: &ExtensionManifest, manifest_path: &str) -> (r: Vec<DbWrite>)
        ensures
            load_writes(r@, id@, *m, manifest_path@),
    {
        let author = match &m.author {
            Some(a) => a.clone(),
            None => String::new(),
        };
        let description = match &m.description {
            Some(d) => d.clone(),
            None => String::new(),
        };
        let mut out: Vec<DbWrite> = Vec::new();
        out.push(
            DbWrite::InsertExtension {
                id: id.clone(),
                name: m.name.clone(),
                version: m.version.clone(),
                author,
                description,
                extension_type: String::from_str(m.extension_type.name()),
                entry_point: m.entry_point.clone(),
                manifest_path: String::from_str(manifest_path),
            },
        );
        let mut i: usize = 0;
        while i < m.permissions.len()
            invariant
                i <= m.permissions@.len(),
                out@.len() == i + 1,
                is_record_row(out@[0], id@, *m, manifest_path@),
                forall|j: int|
                    0 <= j < i ==> is_permission_row(#[trigger] out@[j + 1], id@, m.permissions@[j]@),
            decreases m.permissions@.len() - i,
        {
            out.push(
                DbWrite::InsertPermission {
                    extension_id: id.clone(),
                    permission: m.permissions[i].clone(),
                },
            );
            i += 1;
        }
        out
    }
}

} // verus!
