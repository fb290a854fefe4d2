//! In-memory directory of installed extensions and their enabled state.
use vstd::prelude::*;
use crate::text::{copy_opt_string, str_equals};

verus! {

/// The registry's summary of one installed extension.
#[derive(Debug)]
pub struct ExtensionInfo {
    pub id: String,
    pub name: String,
    pub version: String,
    pub author: Option<String>,
    pub description: Option<String>,
    pub extension_type: String,
    pub enabled: bool,
}

impl ExtensionInfo {
    /// A field-by-field copy.
    pub fn duplicate(&self) -> (r: ExtensionInfo)
        ensures
            r == *self,
    {
        ExtensionInfo {
            id: self.id.clone(),
            name: self.name.clone(),
            version: self.version.clone(),
            author: copy_opt_string(&self.author),
            description: copy_opt_string(&self.description),
            extension_type: self.extension_type.clone(),
            enabled: self.enabled,
        }
    }
}

/// `info` with its enabled flag set to `enabled`.
pub open spec fn with_enabled(info: ExtensionInfo, enabled: bool) -> ExtensionInfo {
    ExtensionInfo { enabled, ..info }
}

/// `items` lists the entries of `m`, each once, under their own ids.
pub open spec fn lists(items: Seq<ExtensionInfo>, m: Map<Seq<char>, ExtensionInfo>) -> bool {
    &&& forall|i: int|
        0 <= i < items.len() ==> m.contains_key(#[trigger] items[i].id@) && m[items[i].id@]
            == items[i]
    &&& forall|k: Seq<char>|
        m.contains_key(k) ==> exists|i: int| 0 <= i < items.len() && #[trigger] items[i].id@ == k
    &&& forall|i: int, j: int|
        0 <= i < items.len() && 0 <= j < items.len() && i != j ==> items[i].id@ != items[j].id@
}

/// The entries of `m` whose extension is enabled.
pub open spec fn enabled_part(m: Map<Seq<char>, ExtensionInfo>) -> Map<Seq<char>, ExtensionInfo> {
    m.restrict(Set::new(|k: Seq<char>| m.contains_key(k) && m[k].enabled))
}

/// Installed extensions keyed by id.
pub struct ExtensionRegistry {
    entries: Vec<ExtensionInfo>,
    index: Ghost<Map<Seq<char>, ExtensionInfo>>,
}

impl View for ExtensionRegistry {
    type V = Map<Seq<char>, ExtensionInfo>;

    closed spec fn view(&self) -> Map<Seq<char>, ExtensionInfo> {
        self.index@
    }
}

impl ExtensionRegistry {
    pub closed spec fn wf(&self) -> bool {
        lists(self.entries@, self.index@)
    }

    pub fn new() -> (r: ExtensionRegistry)
        ensures
            r.wf(),
            r@ == Map::<Seq<char>, ExtensionInfo>::empty(),
    {
        ExtensionRegistry { entries: Vec::new(), index: Ghost(Map::empty()) }
    }

    fn position(&self, id: &str) -> (r: Option<usize>)
        requires
            self.wf(),
        ensures
            r is None <==> !self@.contains_key(id@),
            r matches Some(i) ==> i < self.entries@.len() && self.entries@[i as int].id@ == id@,
    {
        let mut i: usize = 0;
        while i < self.entries.len()
            invariant
                self.wf(),
                i <= self.entries@.len(),
                forall|j: int| 0 <= j < i ==> #[trigger] self.entries@[j].id@ != id@,
            decreases self.entries@.len() - i,
        {
            if str_equals(self.entries[i].id.as_str(), id) {
                return Some(i);
            }
            i += 1;
        }
        proof {
            if self@.contains_key(id@) {
                let j = choose|j: int| 0 <= j < self.entries@.len() && #[trigger] self.entries@[j].id@ == id@;
                assert(self.entries@[j].id@ != id@);
            }
        }
        None
    }

    /// Inserts `info`, replacing an entry with the same id.
    pub fn register(&mut self, info: ExtensionInfo)
        requires
            old(self).wf(),
        ensures
            final(self).wf(),
            final(self)@ == old(self)@.insert(info.id@, info),
    {
        let ghost key = info.id@;
        let ghost before = self.entries@;
        let pos = self.position(info.id.as_str());
        match pos {
            Some(i) => {
                self.entries.set(i, info);
            },
            None => {
                self.entries.push(info);
            },
        }
        self.index = Ghost(self.index@.insert(key, info));
        proof {
            let e = self.entries@;
            let m = self.index@;
            let p: int = match pos {
                Some(i) => i as int,
                None => before.len() as int,
            };
            assert(e[p] == info);
            assert forall|i: int| 0 <= i < e.len() implies m.contains_key(#[trigger] e[i].id@)
                && m[e[i].id@] == e[i] by {
                if i != p {
                    assert(e[i] == before[i]);
                    assert(before[i].id@ != key);
                }
            }
            assert forall|k: Seq<char>| m.contains_key(k) implies exists|j: int|
                0 <= j < e.len() && #[trigger] e[j].id@ == k by {
                if k == key {
                    assert(e[p].id@ == k);
                } else {
                    let j = choose|j: int| 0 <= j < before.len() && #[trigger] before[j].id@ == k;
                    assert(e[j].id@ == k);
                }
            }
            assert forall|i: int, j: int|
                0 <= i < e.len() && 0 <= j < e.len() && i != j implies e[i].id@ != e[j].id@ by {
                if i == p {
                    assert(before[j].id@ != key);
                } else if j == p {
                    assert(before[i].id@ != key);
                }
            }
        }
    }

    /// Removes the entry with id `id`, if there is one.
    pub fn unregister(&mut self, id: &str)
        requires
            old(self).wf(),
        ensures
            final(self).wf(),
            final(self)@ == old(self)@.remove(id@),
    {
        match self.position(id) {
            Some(i) => {
                let ghost before = self.entries@;
                self.entries.remove(i);
                self.index = Ghost(self.index@.remove(id@));
                assert forall|k: Seq<char>| self.index@.contains_key(k) implies exists|j: int|
                    0 <= j < self.entries@.len() && #[trigger] self.entries@[j].id@ == k by {
                    let j = choose|j: int| 0 <= j < before.len() && #[trigger] before[j].id@ == k;
                    if j < i {
                        assert(self.entries@[j].id@ == k);
                    } else {
                        assert(self.entries@[j - 1].id@ == k);
                    }
                }
            },
            None => {
                assert(self.index@.remove(id@) =~= self.index@);
            },
        }
    }

    /// The entry with id `id`.
    pub fn get(&self, id: &str) -> (r: Option<ExtensionInfo>)
        requires
            self.wf(),
        ensures
            r is Some <==> self@.contains_key(id@),
            r matches Some(info) ==> info == self@[id@],
    {
        match self.position(id) {
            Some(i) => Some(self.entries[i].duplicate()),
            None => None,
        }
    }

    /// Sets the enabled flag of the entry with id `id`; false when there is none.
    pub fn set_enabled(&mut self, id: &str, enabled: bool) -> (found: bool)
        requires
            old(self).wf(),
        ensures
            final(self).wf(),
            found == old(self)@.contains_key(id@),
            found ==> final(self)@ == old(self)@.insert(id@, with_enabled(old(self)@[id@], enabled)),
            !found ==> final(self)@ == old(self)@,
    {
        match self.position(id) {
            Some(i) => {
                let mut info = self.entries[i].duplicate();
                info.enabled = enabled;
                self.register(info);
                true
            },
            None => false,
        }
    }

    /// A snapshot of every entry.
    pub fn get_all(&self) -> (r: Vec<ExtensionInfo>)
        requires
            self.wf(),
        ensures
            lists(r@, self@),
    {
        let mut out: Vec<ExtensionInfo> = Vec::new();
        let mut i: usize = 0;
        while i < self.entries.len()
            invariant
                self.wf(),
                i <= self.entries@.len(),
                out@ == self.entries@.subrange(0, i as int),
            decreases self.entries@.len() - i,
        {
            out.push(self.entries[i].duplicate());
            i += 1;
        }
        assert(out@ =~= self.entries@);
        out
    }

    /// A snapshot of the enabled entries.
    pub fn get_enabled(&self) -> (r: Vec<ExtensionInfo>)
        requires
            self.wf(),
        ensures
            lists(r@, enabled_part(self@)),
    {
        let mut out: Vec<ExtensionInfo> = Vec::new();
        let ghost mut src: Seq<int> = Seq::empty();
        let mut i: usize = 0;
        while i < self.entries.len()
            invariant
                self.wf(),
                i <= self.entries@.len(),
                src.len() == out@.len(),
                forall|a: int|
                    0 <= a < out@.len() ==> 0 <= #[trigger] src[a] < i && out@[a]
                        == self.entries@[src[a]] && self.entries@[src[a]].enabled,
                forall|a1: int, a2: int|
                    0 <= a1 < a2 < out@.len() ==> #[trigger] src[a1] < #[trigger] src[a2],
                forall|b: int|
                    0 <= b < i && (#[trigger] self.entries@[b]).enabled ==> exists|a: int|
                        0 <= a < src.len() && src[a] == b,
            decreases self.entries@.len() - i,
        {
            let e = &self.entries[i];
            if e.enabled {
                out.push(e.duplicate());
                proof {
                    let old_src = src;
                    src = src.push(i as int);
                    assert forall|b: int|
                        0 <= b < i + 1 && (#[trigger] self.entries@[b]).enabled implies exists|a: int|
                        0 <= a < src.len() && src[a] == b by {
                        if b == i as int {
                            assert(src[old_src.len() as int] == b);
                        } else {
                            let a = choose|a: int| 0 <= a < old_src.len() && old_src[a] == b;
                            assert(src[a] == b);
                        }
                    }
                }
            }
            i += 1;
        }
        proof {
            let m = enabled_part(self@);
            let e = self.entries@;
            assert forall|a: int| 0 <= a < out@.len() implies m.contains_key(#[trigger] out@[a].id@)
                && m[out@[a].id@] == out@[a] by {
                assert(self@.contains_key(e[src[a]].id@));
            }
            assert forall|k: Seq<char>| m.contains_key(k) implies exists|a: int|
                0 <= a < out@.len() && #[trigger] out@[a].id@ == k by {
                let b = choose|b: int| 0 <= b < e.len() && #[trigger] e[b].id@ == k;
                assert(e[b].enabled);
                let a = choose|a: int| 0 <= a < src.len() && src[a] == b;
                assert(out@[a].id@ == k);
            }
            assert forall|a1: int, a2: int|
                0 <= a1 < out@.len() && 0 <= a2 < out@.len() && a1 != a2 implies out@[a1].id@
                != out@[a2].id@ by {
                if a1 < a2 {
                    assert(src[a1] < src[a2]);
                } else {
                    assert(src[a2] < src[a1]);
                }
            }
        }
        out
    }
}

} // verus!
