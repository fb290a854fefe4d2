//! The set of remote catalog sources, ordered by priority, with the policy
//! that guards what may be added: a parsable URL, and for custom sources an
//! encrypted scheme and no loopback or private-network host.
use vstd::prelude::*;
use vstd::string::*;
use crate::error::StoreError;
use crate::text::{str_equals, contains_str, has_substring, has_prefix, starts_with};

verus! {

/// Who runs a source.
#[derive(Debug, Clone, Copy, PartialEq, Eq, Structural)]
pub enum SourceType {
    Official,
    Community,
    Custom,
}

/// A remote catalog endpoint.
#[derive(Debug)]
pub struct StoreSource {
    pub id: String,
    pub name: String,
    pub source_type: SourceType,
    pub base_url: String,
    pub enabled: bool,
    pub priority: i32,
}

impl StoreSource {
    /// A field-by-field copy.
    pub fn duplicate(&self) -> (r: StoreSource)
        ensures
            r == *self,
    {
        StoreSource {
            id: self.id.clone(),
            name: self.name.clone(),
            source_type: self.source_type,
            base_url: self.base_url.clone(),
            enabled: self.enabled,
            priority: self.priority,
        }
    }
}

/// Scheme and host of a URL, when the text parses as an absolute URL.
pub uninterp spec fn url_parts(s: Seq<char>) -> Option<(Seq<char>, Option<Seq<char>>)>;

/// Relies on url::Url::parse (re-exported by reqwest) to read an absolute
/// URL, and on its `scheme` and `host_str` accessors for the parts.
#[verifier::external_body]
fn parse_url(s: &str) -> (r: Option<(String, Option<String>)>)
    ensures
        match url_parts(s@) {
            None => r is None,
            Some(p) => r matches Some(q) && q.0@ == p.0 && match q.1 {
                Some(h) => p.1 == Some(h@),
                None => p.1 is None,
            },
        },
{
    match reqwest::Url::parse(s) {
        Ok(u) => Some((u.scheme().to_string(), u.host_str().map(String::from))),
        Err(_) => None,
    }
}

/// The id of the reserved source.
pub open spec fn reserved_id() -> Seq<char> {
    "default"@
}

pub open spec fn is_space(c: char) -> bool {
    c == ' ' || c == '\t' || c == '\n' || c == '\r'
}

/// Empty or made of white space only.
pub open spec fn is_blank(s: Seq<char>) -> bool {
    forall|i: int| 0 <= i < s.len() ==> is_space(#[trigger] s[i])
}

/// The host is a literal address in 172.16.0.0/12: it begins with
/// `172.16.` through `172.31.`.
pub open spec fn in_172_private_range(h: Seq<char>) -> bool {
    &&& has_prefix(h, "172."@)
    &&& h.len() >= 7
    &&& h[6] == '.'
    &&& {
        ||| h[4] == '1' && '6' <= h[5] && h[5] <= '9'
        ||| h[4] == '2' && '0' <= h[5] && h[5] <= '9'
        ||| h[4] == '3' && (h[5] == '0' || h[5] == '1')
    }
}

/// A host that names the local machine or a private network: the name
/// `localhost`, the unspecified address, the IPv6 loopback, or a literal
/// address in 127.0.0.0/8, 10.0.0.0/8, 172.16.0.0/12 or 192.168.0.0/16.
pub open spec fn blocked_host(h: Seq<char>) -> bool {
    ||| has_substring(h, "localhost"@)
    ||| has_substring(h, "0.0.0.0"@)
    ||| has_substring(h, "::1"@)
    ||| has_prefix(h, "127."@)
    ||| has_prefix(h, "10."@)
    ||| has_prefix(h, "192.168."@)
    ||| in_172_private_range(h)
}

/// What the policy asks of a source of kind `kind` whose URL has scheme
/// `scheme` and host `host`: a custom source uses https and a host that is
/// not local or private.
pub open spec fn policy_ok(kind: SourceType, scheme: Seq<char>, host: Option<Seq<char>>) -> bool {
    kind != SourceType::Custom || (scheme == "https"@ && match host {
        Some(h) => !blocked_host(h),
        None => true,
    })
}

pub open spec fn opt_str_view(o: Option<&str>) -> Option<Seq<char>> {
    match o {
        Some(s) => Some(s@),
        None => None,
    }
}

/// Name and URL are filled in and the URL parses.
pub open spec fn source_fields_ok(s: StoreSource) -> bool {
    !is_blank(s.name@) && !is_blank(s.base_url@) && url_parts(s.base_url@) is Some
}

/// The source's URL meets the policy for its kind.
pub open spec fn source_secure(s: StoreSource) -> bool {
    policy_ok(s.source_type, url_parts(s.base_url@).unwrap().0, url_parts(s.base_url@).unwrap().1)
}

pub open spec fn has_source(s: Seq<StoreSource>, id: Seq<char>) -> bool {
    exists|i: int| 0 <= i < s.len() && #[trigger] s[i].id@ == id
}

pub open spec fn source_index(s: Seq<StoreSource>, id: Seq<char>) -> int {
    choose|i: int| 0 <= i < s.len() && #[trigger] s[i].id@ == id
}

pub open spec fn find_source(s: Seq<StoreSource>, id: Seq<char>) -> Option<StoreSource> {
    if has_source(s, id) {
        Some(s[source_index(s, id)])
    } else {
        None
    }
}

pub open spec fn without_source(s: Seq<StoreSource>, id: Seq<char>) -> Seq<StoreSource> {
    if has_source(s, id) {
        s.remove(source_index(s, id))
    } else {
        s
    }
}

pub open spec fn unique_source_ids(s: Seq<StoreSource>) -> bool {
    forall|i: int, j: int|
        0 <= i < s.len() && 0 <= j < s.len() && i != j ==> #[trigger] s[i].id@ != #[trigger] s[j].id@
}

/// Ascending by priority.
pub open spec fn by_priority(s: Seq<StoreSource>) -> bool {
    forall|i: int, j: int| 0 <= i < j < s.len() ==> #[trigger] s[i].priority <= #[trigger] s[j].priority
}

/// Where a source of priority `p` goes: after every source whose priority is
/// not greater, so that equal priorities keep the order of insertion.
pub open spec fn insertion_point(s: Seq<StoreSource>, p: i32) -> int
    decreases s.len(),
{
    if s.len() == 0 {
        0
    } else if s.last().priority <= p {
        s.len() as int
    } else {
        insertion_point(s.drop_last(), p)
    }
}

pub open spec fn enabled_source(s: StoreSource) -> bool {
    s.enabled
}

proof fn lemma_insertion_point(s: Seq<StoreSource>, p: i32)
    requires
        by_priority(s),
    ensures
        0 <= insertion_point(s, p) <= s.len(),
        forall|i: int| 0 <= i < insertion_point(s, p) ==> s[i].priority <= p,
        forall|i: int| insertion_point(s, p) <= i < s.len() ==> s[i].priority > p,
    decreases s.len(),
{
    if s.len() > 0 {
        let d = s.drop_last();
        assert(by_priority(d)) by {
            assert forall|i: int, j: int| 0 <= i < j < d.len() implies #[trigger] d[i].priority
                <= #[trigger] d[j].priority by {
                assert(d[i] == s[i] && d[j] == s[j]);
            }
        }
        lemma_insertion_point(d, p);
        if s.last().priority <= p {
            assert forall|i: int| 0 <= i < s.len() implies s[i].priority <= p by {
                if i < s.len() - 1 {
                    assert(s[i].priority <= s[s.len() - 1].priority);
                }
            }
        } else {
            assert forall|i: int| 0 <= i < insertion_point(s, p) implies s[i].priority <= p by {
                assert(s[i] == d[i]);
            }
            assert forall|i: int| insertion_point(s, p) <= i < s.len() implies s[i].priority > p by {
                if i < s.len() - 1 {
                    assert(s[i] == d[i]);
                }
            }
        }
    }
}

proof fn lemma_without_source(s: Seq<StoreSource>, id: Seq<char>)
    requires
        unique_source_ids(s),
        by_priority(s),
    ensures
        unique_source_ids(without_source(s, id)),
        by_priority(without_source(s, id)),
        !has_source(without_source(s, id), id),
        forall|k: Seq<char>|
            k != id ==> (has_source(without_source(s, id), k) == has_source(s, k)),
        forall|k: Seq<char>|
            k != id && has_source(s, k) ==> find_source(without_source(s, id), k) == find_source(s, k),
{
    if has_source(s, id) {
        let p = source_index(s, id);
        let w = s.remove(p);
        assert forall|j: int| 0 <= j < w.len() implies w[j].id@ != id by {
            if j < p {
                assert(w[j] == s[j]);
            } else {
                assert(w[j] == s[j + 1]);
            }
        }
        assert forall|i: int, j: int|
            0 <= i < w.len() && 0 <= j < w.len() && i != j implies #[trigger] w[i].id@
            != #[trigger] w[j].id@ by {
            let a = if i < p { i } else { i + 1 };
            let b = if j < p { j } else { j + 1 };
            assert(w[i] == s[a]);
            assert(w[j] == s[b]);
        }
        assert forall|i: int, j: int| 0 <= i < j < w.len() implies #[trigger] w[i].priority
            <= #[trigger] w[j].priority by {
            let a = if i < p { i } else { i + 1 };
            let b = if j < p { j } else { j + 1 };
            assert(w[i] == s[a]);
            assert(w[j] == s[b]);
        }
        assert forall|k: Seq<char>| k != id implies (has_source(w, k) == has_source(s, k)) by {
            if has_source(w, k) {
                let j = choose|j: int| 0 <= j < w.len() && #[trigger] w[j].id@ == k;
                if j < p {
                    assert(s[j].id@ == k);
                } else {
                    assert(s[j + 1].id@ == k);
                }
            }
            if has_source(s, k) {
                let j = choose|j: int| 0 <= j < s.len() && #[trigger] s[j].id@ == k;
                assert(j != p);
                if j < p {
                    assert(w[j].id@ == k);
                } else {
                    assert(w[j - 1].id@ == k);
                }
            }
        }
        assert forall|k: Seq<char>| k != id && has_source(s, k) implies find_source(w, k)
            == find_source(s, k) by {
            let a = source_index(s, k);
            let b = source_index(w, k);
            assert(has_source(w, k));
            let c = if b < p { b } else { b + 1 };
            assert(w[b] == s[c]);
            assert(s[c].id@ == k && s[a].id@ == k);
        }
    }
}

proof fn lemma_insert_sorted(s: Seq<StoreSource>, x: StoreSource)
    requires
        by_priority(s),
        unique_source_ids(s),
        !has_source(s, x.id@),
    ensures
        by_priority(s.insert(insertion_point(s, x.priority), x)),
        unique_source_ids(s.insert(insertion_point(s, x.priority), x)),
        forall|k: Seq<char>|
            has_source(s.insert(insertion_point(s, x.priority), x), k) == (k == x.id@ || has_source(
                s,
                k,
            )),
{
    lemma_insertion_point(s, x.priority);
    let k = insertion_point(s, x.priority);
    let t = s.insert(k, x);
    assert forall|i: int, j: int| 0 <= i < j < t.len() implies #[trigger] t[i].priority
        <= #[trigger] t[j].priority by {
        if i < k && j < k {
            assert(t[i] == s[i] && t[j] == s[j]);
        } else if i < k && j == k {
            assert(t[i] == s[i]);
        } else if i < k {
            assert(t[i] == s[i] && t[j] == s[j - 1]);
        } else if i == k {
            assert(t[j] == s[j - 1]);
        } else {
            assert(t[i] == s[i - 1] && t[j] == s[j - 1]);
        }
    }
    assert forall|i: int, j: int|
        0 <= i < t.len() && 0 <= j < t.len() && i != j implies #[trigger] t[i].id@
        != #[trigger] t[j].id@ by {
        if i == k {
            let b = if j < k { j } else { j - 1 };
            assert(t[j] == s[b]);
        } else if j == k {
            let a = if i < k { i } else { i - 1 };
            assert(t[i] == s[a]);
        } else {
            let a = if i < k { i } else { i - 1 };
            let b = if j < k { j } else { j - 1 };
            assert(t[i] == s[a] && t[j] == s[b]);
        }
    }
    assert forall|q: Seq<char>| has_source(t, q) == (q == x.id@ || has_source(s, q)) by {
        if has_source(t, q) && q != x.id@ {
            let j = choose|j: int| 0 <= j < t.len() && #[trigger] t[j].id@ == q;
            if j < k {
                assert(s[j].id@ == q);
            } else {
                assert(j != k);
                assert(s[j - 1].id@ == q);
            }
        }
        if q == x.id@ {
            assert(t[k].id@ == q);
        } else if has_source(s, q) {
            let j = choose|j: int| 0 <= j < s.len() && #[trigger] s[j].id@ == q;
            if j < k {
                assert(t[j].id@ == q);
            } else {
                assert(t[j + 1].id@ == q);
            }
        }
    }
}

fn blank(s: &str) -> (r: bool)
    ensures
        r == is_blank(s@),
{
    let n = s.unicode_len();
    let mut i: usize = 0;
    while i < n
        invariant
            n == s@.len(),
            i <= n,
            forall|j: int| 0 <= j < i ==> is_space(#[trigger] s@[j]),
        decreases n - i,
    {
        let c = s.get_char(i);
        if !(c == ' ' || c == '\t' || c == '\n' || c == '\r') {
            return false;
        }
        i += 1;
    }
    true
}

fn in_172_range(h: &str) -> (r: bool)
    ensures
        r == in_172_private_range(h@),
{
    if !starts_with(h, "172.") || h.unicode_len() < 7 {
        return false;
    }
    proof {
        reveal_strlit("172.");
    }
    let a = h.get_char(4);
    let b = h.get_char(5);
    h.get_char(6) == '.' && ((a == '1' && '6' <= b && b <= '9') || (a == '2' && '0' <= b && b <= '9')
        || (a == '3' && (b == '0' || b == '1')))
}

/// Whether a host names the local machine or a private network.
pub fn is_blocked_host(h: &str) -> (r: bool)
    ensures
        r == blocked_host(h@),
{
    contains_str(h, "localhost") || contains_str(h, "0.0.0.0") || contains_str(h, "::1")
        || starts_with(h, "127.") || starts_with(h, "10.") || starts_with(h, "192.168.")
        || in_172_range(h)
}

fn validation(msg: &str) -> (r: Result<(), StoreError>)
    ensures
        r matches Err(StoreError::Validation(m)) && m@ == msg@,
{
    Err(StoreError::Validation(String::from_str(msg)))
}

fn security(msg: &str) -> (r: Result<(), StoreError>)
    ensures
        r matches Err(StoreError::Security(m)) && m@ == msg@,
{
    Err(StoreError::Security(String::from_str(msg)))
}

/// The policy on a parsed URL: a custom source must use https and a host
/// that is not local or private (`Security`); other kinds pass.
pub fn source_policy(kind: SourceType, scheme: &str, host: Option<&str>) -> (r: Result<(), StoreError>)
    ensures
        r is Ok <==> policy_ok(kind, scheme@, opt_str_view(host)),
        r is Err ==> (r matches Err(StoreError::Security(_))),
{
    match kind {
        SourceType::Custom => {
            if !str_equals(scheme, "https") {
                return security("custom sources must use https");
            }
            match host {
                Some(h) => {
                    if is_blocked_host(h) {
                        return security("custom sources may not point to local or private hosts");
                    }
                },
                None => {},
            }
            Ok(())
        },
        _ => Ok(()),
    }
}

/// The checks shared by adding and updating a source.
pub fn check_source(s: &StoreSource) -> (r: Result<(), StoreError>)
    ensures
        r is Ok <==> source_fields_ok(*s) && source_secure(*s),
        !source_fields_ok(*s) ==> r matches Err(StoreError::Validation(_)),
        source_fields_ok(*s) && !source_secure(*s) ==> r matches Err(StoreError::Security(_)),
{
    if blank(s.name.as_str()) {
        return validation("source name is required");
    }
    if blank(s.base_url.as_str()) {
        return validation("source URL is required");
    }
    let parts = match parse_url(s.base_url.as_str()) {
        Some(p) => p,
        None => {
            return validation("source URL does not parse");
        },
    };
    let host = match &parts.1 {
        Some(h) => Some(h.as_str()),
        None => None,
    };
    source_policy(s.source_type, parts.0.as_str(), host)
}

/// The set of store sources, kept in ascending order of priority.
pub struct StoreManager {
    sources: Vec<StoreSource>,
}

impl StoreManager {
    /// The sources, in ascending order of priority.
    pub closed spec fn sources(&self) -> Seq<StoreSource> {
        self.sources@
    }

    /// Ids are distinct, the order is by priority, and the reserved source
    /// is present and official.
    pub open spec fn wf(&self) -> bool {
        &&& unique_source_ids(self.sources())
        &&& by_priority(self.sources())
        &&& has_source(self.sources(), reserved_id())
        &&& find_source(self.sources(), reserved_id()).unwrap().source_type == SourceType::Official
    }

    /// A set that holds the reserved official source only.
    pub fn new() -> (r: StoreManager)
        ensures
            r.wf(),
            r.sources().len() == 1,
            r.sources()[0].id@ == reserved_id(),
            r.sources()[0].source_type == SourceType::Official,
            r.sources()[0].enabled,
    {
        let official = StoreSource {
            id: String::from_str("default"),
            name: String::from_str("Arcadia Store"),
            source_type: SourceType::Official,
            base_url: String::from_str(
                "https://raw.githubusercontent.com/tiagozaccaro/arcadia-app/main/arcadia-store/store-manifest",
            ).concat(".json"),
            enabled: true,
            priority: 0,
        };
        let mut sources: Vec<StoreSource> = Vec::new();
        sources.push(official);
        let r = StoreManager { sources };
        assert(r.sources@[0].id@ == reserved_id());
        r
    }

    fn index_of(&self, id: &str) -> (r: Option<usize>)
        requires
            unique_source_ids(self.sources@),
        ensures
            r is None <==> !has_source(self.sources@, id@),
            r matches Some(i) ==> i < self.sources@.len() && i == source_index(self.sources@, id@)
                && self.sources@[i as int].id@ == id@,
    {
        let mut i: usize = 0;
        while i < self.sources.len()
            invariant
                unique_source_ids(self.sources@),
                i <= self.sources@.len(),
                forall|j: int| 0 <= j < i ==> #[trigger] self.sources@[j].id@ != id@,
            decreases self.sources@.len() - i,
        {
            if str_equals(self.sources[i].id.as_str(), id) {
                proof {
                    assert(has_source(self.sources@, id@));
                    let c = source_index(self.sources@, id@);
                    assert(self.sources@[c].id@ == id@);
                }
                return Some(i);
            }
            i += 1;
        }
        None
    }

    fn insert_sorted(&mut self, x: StoreSource)
        requires
            by_priority(old(self).sources@),
        ensures
            final(self).sources@ == old(self).sources@.insert(
                insertion_point(old(self).sources@, x.priority),
                x,
            ),
    {
        let ghost s = self.sources@;
        let mut i: usize = self.sources.len();
        assert(s.subrange(0, i as int) =~= s);
        while i > 0 && self.sources[i - 1].priority > x.priority
            invariant
                self.sources@ == s,
                i <= s.len(),
                insertion_point(s, x.priority) == insertion_point(s.subrange(0, i as int), x.priority),
            decreases i,
        {
            proof {
                let sub = s.subrange(0, i as int);
                assert(sub.drop_last() =~= s.subrange(0, i - 1));
            }
            i -= 1;
        }
        proof {
            if i > 0 {
                let sub = s.subrange(0, i as int);
                assert(sub.last() == s[i - 1]);
            }
        }
        self.sources.insert(i, x);
    }

    fn remove_existing(&mut self, id: &str)
        requires
            unique_source_ids(old(self).sources@),
        ensures
            final(self).sources@ == without_source(old(self).sources@, id@),
    {
        match self.index_of(id) {
            Some(i) => {
                self.sources.remove(i);
            },
            None => {},
        }
    }

    /// Adds a source: `Validation` for a known id, a blank name or URL, or a
    /// URL that does not parse; `Security` for a custom source that is not
    /// on https or points to a local or private host.
    pub fn add_source(&mut self, source: StoreSource) -> (r: Result<(), StoreError>)
        requires
            old(self).wf(),
        ensures
            final(self).wf(),
            r is Ok <==> !has_source(old(self).sources(), source.id@) && source_fields_ok(source)
                && source_secure(source),
            has_source(old(self).sources(), source.id@) || !source_fields_ok(source) ==> r matches Err(
                StoreError::Validation(_),
            ),
            !has_source(old(self).sources(), source.id@) && source_fields_ok(source)
                && !source_secure(source) ==> r matches Err(StoreError::Security(_)),
            r is Ok ==> final(self).sources() == old(self).sources().insert(
                insertion_point(old(self).sources(), source.priority),
                source,
            ),
            r is Err ==> final(self).sources() == old(self).sources(),
    {
        if self.index_of(source.id.as_str()).is_some() {
            return validation("a source with this id already exists");
        }
        match check_source(&source) {
            Err(e) => {
                return Err(e);
            },
            Ok(()) => {},
        }
        let ghost s = self.sources@;
        proof {
            lemma_insert_sorted(s, source);
            lemma_insertion_point(s, source.priority);
        }
        self.insert_sorted(source);
        proof {
            let t = self.sources@;
            let k = insertion_point(s, source.priority);
            let a = source_index(s, reserved_id());
            let b = source_index(t, reserved_id());
            let c = if a < k { a } else { a + 1 };
            assert(t[c] == s[a]);
            assert(t[c].id@ == reserved_id());
        }
        Ok(())
    }

    /// Removes a source; the reserved source cannot be removed, and removing
    /// an unknown id does nothing.
    pub fn remove_source(&mut self, id: &str) -> (r: Result<(), StoreError>)
        requires
            old(self).wf(),
        ensures
            final(self).wf(),
            r is Ok <==> id@ != reserved_id(),
            r is Err ==> (r matches Err(StoreError::Validation(_)) && final(self).sources() == old(self).sources()),
            r is Ok ==> final(self).sources() == without_source(old(self).sources(), id@),
            r is Ok ==> !has_source(final(self).sources(), id@),
    {
        if str_equals(id, "default") {
            return validation("the default source cannot be removed");
        }
        proof {
            lemma_without_source(self.sources@, id@);
        }
        self.remove_existing(id);
        Ok(())
    }

    /// Replaces a known source: `Validation` for an unknown id or for a
    /// change of the reserved source's kind, then the checks of `add_source`.
    pub fn update_source(&mut self, source: StoreSource) -> (r: Result<(), StoreError>)
        requires
            old(self).wf(),
        ensures
            final(self).wf(),
            r is Ok <==> has_source(old(self).sources(), source.id@) && !(source.id@ == reserved_id()
                && source.source_type != SourceType::Official) && source_fields_ok(source)
                && source_secure(source),
            !has_source(old(self).sources(), source.id@) || (source.id@ == reserved_id()
                && source.source_type != SourceType::Official) || !source_fields_ok(source) ==> r matches Err(
                StoreError::Validation(_),
            ),
            has_source(old(self).sources(), source.id@) && !(source.id@ == reserved_id()
                && source.source_type != SourceType::Official) && source_fields_ok(source)
                && !source_secure(source) ==> r matches Err(StoreError::Security(_)),
            r is Ok ==> final(self).sources() == without_source(old(self).sources(), source.id@).insert(
                insertion_point(without_source(old(self).sources(), source.id@), source.priority),
                source,
            ),
            r is Ok ==> find_source(final(self).sources(), source.id@) == Some(source),
            r is Err ==> final(self).sources() == old(self).sources(),
    {
        if self.index_of(source.id.as_str()).is_none() {
            return validation("no source with this id");
        }
        if str_equals(source.id.as_str(), "default") {
            match source.source_type {
                SourceType::Official => {},
                _ => {
                    return validation("the kind of the default source cannot change");
                },
            }
        }
        match check_source(&source) {
            Err(e) => {
                return Err(e);
            },
            Ok(()) => {},
        }
        let ghost s = self.sources@;
        proof {
            lemma_without_source(s, source.id@);
        }
        self.remove_existing(source.id.as_str());
        let ghost w = self.sources@;
        proof {
            lemma_insert_sorted(w, source);
            lemma_insertion_point(w, source.priority);
        }
        self.insert_sorted(source);
        proof {
            let t = self.sources@;
            let k = insertion_point(w, source.priority);
            assert(t[k].id@ == source.id@);
            assert(source_index(t, source.id@) == k);
            if source.id@ == reserved_id() {
                assert(t[k].id@ == reserved_id());
                assert(source_index(t, reserved_id()) == k);
            } else {
                assert(has_source(w, reserved_id()));
                let a = source_index(w, reserved_id());
                let c = if a < k { a } else { a + 1 };
                assert(t[c] == w[a]);
                assert(t[c].id@ == reserved_id());
                assert(find_source(w, reserved_id()) == find_source(s, reserved_id()));
            }
        }
        Ok(())
    }

    /// The source with id `id`.
    pub fn get_source(&self, id: &str) -> (r: Option<StoreSource>)
        requires
            self.wf(),
        ensures
            r == find_source(self.sources(), id@),
    {
        match self.index_of(id) {
            Some(i) => Some(self.sources[i].duplicate()),
            None => None,
        }
    }

    /// Every source, in ascending order of priority.
    pub fn list_sources(&self) -> (r: Vec<StoreSource>)
        requires
            self.wf(),
        ensures
            r@ == self.sources(),
            by_priority(r@),
            unique_source_ids(r@),
            has_source(r@, reserved_id()),
    {
        let mut out: Vec<StoreSource> = Vec::new();
        let mut i: usize = 0;
        while i < self.sources.len()
            invariant
                i <= self.sources@.len(),
                out@ == self.sources@.subrange(0, i as int),
            decreases self.sources@.len() - i,
        {
            out.push(self.sources[i].duplicate());
            i += 1;
        }
        assert(out@ =~= self.sources@);
        out
    }

    /// The enabled sources, in ascending order of priority.
    pub fn get_enabled_sources(&self) -> (r: Vec<StoreSource>)
        requires
            self.wf(),
        ensures
            r@ == self.sources().filter(|s: StoreSource| enabled_source(s)),
    {
        let ghost pred = |s: StoreSource| enabled_source(s);
        let mut out: Vec<StoreSource> = Vec::new();
        let mut i: usize = 0;
        while i < self.sources.len()
            invariant
                i <= self.sources@.len(),
                pred == (|s: StoreSource| enabled_source(s)),
                out@ == self.sources@.subrange(0, i as int).filter(pred),
            decreases self.sources@.len() - i,
        {
            proof {
                reveal(Seq::filter);
                let sub = self.sources@.subrange(0, i + 1);
                assert(sub.drop_last() =~= self.sources@.subrange(0, i as int));
                assert(sub.last() == self.sources@[i as int]);
            }
            if self.sources[i].enabled {
                out.push(self.sources[i].duplicate());
            }
            i += 1;
        }
        assert(self.sources@.subrange(0, self.sources@.len() as int) =~= self.sources@);
        out
    }
}

/// A custom source whose URL is not on https is never accepted.
pub proof fn lemma_custom_needs_https(s: StoreSource)
    requires
        s.source_type == SourceType::Custom,
        url_parts(s.base_url@) is Some,
        url_parts(s.base_url@).unwrap().0 != "https"@,
    ensures
        !source_secure(s),
{
}

} // verus!
