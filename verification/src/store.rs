//! The server state and the endpoint registry: a list of entries keyed by
//! (method, path template), with at most one entry per key, viewed in
//! contracts as a map; the suppression set for endpoints that exist only
//! in a loaded document; the trace; and the default proxy URL.

use vstd::prelude::*;
use crate::model::{DynamicEndpoint, EndpointModel, Method, RequestLog, StoreEntry, str_eq};
use crate::openapi::ApiDocument;
use crate::matcher::template_matches;

verus! {

/// The registry as a map from key to endpoint model.
pub open spec fn store_map(s: Seq<StoreEntry>) -> Map<(Method, Seq<char>), EndpointModel>
    decreases s.len(),
{
    if s.len() == 0 {
        Map::empty()
    } else {
        store_map(s.drop_last()).insert(s.last().key(), s.last().endpoint@)
    }
}

/// No two entries share a key.
pub open spec fn store_wf(s: Seq<StoreEntry>) -> bool {
    forall|i: int, j: int|
        0 <= i < j < s.len() ==> (#[trigger] s[i].key()) != (#[trigger] s[j].key())
}

/// The suppression set as a set of (method token, path) pairs.
pub open spec fn removed_set(s: Seq<(String, String)>) -> Set<(Seq<char>, Seq<char>)>
    decreases s.len(),
{
    if s.len() == 0 {
        Set::empty()
    } else {
        removed_set(s.drop_last()).insert((s.last().0@, s.last().1@))
    }
}

pub open spec fn removed_wf(s: Seq<(String, String)>) -> bool {
    forall|i: int, j: int|
        0 <= i < j < s.len() ==> ((#[trigger] s[i]).0@, s[i].1@) != ((#[trigger] s[j]).0@,
        s[j].1@)
}

pub proof fn lemma_store_map_contains(s: Seq<StoreEntry>, k: (Method, Seq<char>))
    ensures
        store_map(s).contains_key(k) <==> exists|i: int|
            0 <= i < s.len() && (#[trigger] s[i].key()) == k,
    decreases s.len(),
{
    if s.len() > 0 {
        lemma_store_map_contains(s.drop_last(), k);
        if s.last().key() == k {
            assert(s[s.len() - 1].key() == k);
        } else if store_map(s).contains_key(k) {
            let i = choose|i: int| 0 <= i < s.drop_last().len() && (#[trigger] s.drop_last()[
                i].key()) == k;
            assert(s[i].key() == k);
        } else {
            assert forall|i: int| 0 <= i < s.len() implies (#[trigger] s[i].key()) != k by {
                if i < s.len() - 1 {
                    assert(s.drop_last()[i].key() == s[i].key());
                }
            }
        }
    }
}

pub proof fn lemma_store_map_index(s: Seq<StoreEntry>, i: int)
    requires
        store_wf(s),
        0 <= i < s.len(),
    ensures
        store_map(s).contains_key(s[i].key()),
        store_map(s)[s[i].key()] == s[i].endpoint@,
    decreases s.len(),
{
    if i == s.len() - 1 {
    } else {
        assert(store_wf(s.drop_last())) by {
            assert forall|x: int, y: int|
                0 <= x < y < s.drop_last().len() implies (#[trigger] s.drop_last()[x].key())
                != (#[trigger] s.drop_last()[y].key()) by {
                assert(s.drop_last()[x].key() == s[x].key());
                assert(s.drop_last()[y].key() == s[y].key());
            }
        }
        assert(s.drop_last()[i] == s[i]);
        lemma_store_map_index(s.drop_last(), i);
        assert(s[i].key() != s.last().key()) by {
            assert(s.last() == s[s.len() - 1]);
        }
    }
}

/// Well-formedness of a prefix.
pub proof fn lemma_store_wf_drop_last(s: Seq<StoreEntry>)
    requires
        store_wf(s),
        s.len() > 0,
    ensures
        store_wf(s.drop_last()),
{
    assert forall|x: int, y: int|
        0 <= x < y < s.drop_last().len() implies (#[trigger] s.drop_last()[x].key())
        != (#[trigger] s.drop_last()[y].key()) by {
        assert(s.drop_last()[x].key() == s[x].key());
        assert(s.drop_last()[y].key() == s[y].key());
    }
}

proof fn lemma_store_map_update(s: Seq<StoreEntry>, i: int, e: StoreEntry)
    requires
        store_wf(s),
        0 <= i < s.len(),
        e.key() == s[i].key(),
    ensures
        store_wf(s.update(i, e)),
        store_map(s.update(i, e)) == store_map(s).insert(e.key(), e.endpoint@),
    decreases s.len(),
{
    let s2 = s.update(i, e);
    assert forall|x: int, y: int|
        0 <= x < y < s2.len() implies (#[trigger] s2[x].key()) != (#[trigger] s2[y].key()) by {
        assert(s[x].key() != s[y].key());
    }
    if i == s.len() - 1 {
        assert(s2.drop_last() =~= s.drop_last());
        assert(s2.last() == e);
        assert(store_map(s2) =~= store_map(s).insert(e.key(), e.endpoint@));
    } else {
        lemma_store_wf_drop_last(s);
        lemma_store_map_update(s.drop_last(), i, e);
        assert(s2.drop_last() =~= s.drop_last().update(i, e));
        assert(s2.last() == s.last());
        assert(s.last().key() != e.key()) by {
            assert(s[s.len() - 1].key() != s[i].key());
        }
        assert(store_map(s2) =~= store_map(s).insert(e.key(), e.endpoint@));
    }
}

proof fn lemma_store_map_remove(s: Seq<StoreEntry>, i: int)
    requires
        store_wf(s),
        0 <= i < s.len(),
    ensures
        store_wf(s.remove(i)),
        store_map(s.remove(i)) == store_map(s).remove(s[i].key()),
    decreases s.len(),
{
    let k = s[i].key();
    let s2 = s.remove(i);
    assert forall|x: int, y: int|
        0 <= x < y < s2.len() implies (#[trigger] s2[x].key()) != (#[trigger] s2[y].key()) by {
        let xo: int = if x < i { x } else { x + 1 };
        let yo: int = if y < i { y } else { y + 1 };
        assert(s2[x] == s[xo]);
        assert(s2[y] == s[yo]);
        assert(s[xo].key() != s[yo].key());
    }
    if i == s.len() - 1 {
        assert(s2 =~= s.drop_last());
        lemma_store_wf_drop_last(s);
        lemma_store_map_contains(s.drop_last(), k);
        assert forall|j: int| 0 <= j < s.drop_last().len() implies (#[trigger] s.drop_last()[
            j].key()) != k by {
            assert(s.drop_last()[j].key() == s[j].key());
            assert(s[j].key() != s[i].key());
        }
        assert(!store_map(s.drop_last()).contains_key(k));
        assert(store_map(s2) =~= store_map(s).remove(k));
    } else {
        lemma_store_wf_drop_last(s);
        lemma_store_map_remove(s.drop_last(), i);
        assert(s2.drop_last() =~= s.drop_last().remove(i));
        assert(s2.last() == s.last());
        assert(s.last().key() != k) by {
            assert(s[s.len() - 1].key() != s[i].key());
        }
        assert(store_map(s2) =~= store_map(s).remove(k));
    }
}

proof fn lemma_store_map_push(s: Seq<StoreEntry>, e: StoreEntry)
    requires
        store_wf(s),
        forall|i: int| 0 <= i < s.len() ==> (#[trigger] s[i].key()) != e.key(),
    ensures
        store_wf(s.push(e)),
        store_map(s.push(e)) == store_map(s).insert(e.key(), e.endpoint@),
{
    let s2 = s.push(e);
    assert forall|x: int, y: int|
        0 <= x < y < s2.len() implies (#[trigger] s2[x].key()) != (#[trigger] s2[y].key()) by {
        if y < s.len() {
            assert(s2[x] == s[x] && s2[y] == s[y]);
        } else {
            assert(s2[y] == e);
            assert(s2[x] == s[x]);
        }
    }
    assert(s2.drop_last() =~= s);
    assert(s2.last() == e);
}

/// The first entry whose method equals `m` and whose stored path, read as
/// a template, matches the concrete path `p`.
pub open spec fn spec_lookup_template(s: Seq<StoreEntry>, m: Method, p: Seq<char>) -> Option<
    (Seq<char>, EndpointModel),
>
    decreases s.len(),
{
    if s.len() == 0 {
        None
    } else if s[0].method == m && template_matches(s[0].path@, p) {
        Some((s[0].path@, s[0].endpoint@))
    } else {
        spec_lookup_template(s.skip(1), m, p)
    }
}

/// A template lookup comes back empty exactly when no entry of the right
/// method matches the path.
pub proof fn lemma_lookup_template_none(s: Seq<StoreEntry>, m: Method, p: Seq<char>)
    ensures
        spec_lookup_template(s, m, p) is None <==> forall|i: int|
            0 <= i < s.len() ==> !((#[trigger] s[i].method) == m && template_matches(
                s[i].path@,
                p,
            )),
    decreases s.len(),
{
    if s.len() > 0 {
        lemma_lookup_template_none(s.skip(1), m, p);
        if spec_lookup_template(s, m, p) is None {
            assert forall|i: int|
                0 <= i < s.len() implies !((#[trigger] s[i].method) == m && template_matches(
                s[i].path@,
                p,
            )) by {
                if i > 0 {
                    assert(s.skip(1)[i - 1] == s[i]);
                }
            }
        } else {
            if !(s[0].method == m && template_matches(s[0].path@, p)) {
                let i = choose|i: int|
                    0 <= i < s.skip(1).len() && (#[trigger] s.skip(1)[i].method) == m
                        && template_matches(s.skip(1)[i].path@, p);
                assert(s[i + 1] == s.skip(1)[i]);
            }
        }
    }
}

/// A successful template lookup hands back a registered entry: its key is
/// in the registry and the endpoint is that key's value.
pub proof fn lemma_lookup_template_some(s: Seq<StoreEntry>, m: Method, p: Seq<char>)
    requires
        store_wf(s),
        spec_lookup_template(s, m, p) is Some,
    ensures
        ({
            let (tpl, ep) = spec_lookup_template(s, m, p)->0;
            &&& template_matches(tpl, p)
            &&& store_map(s).contains_key((m, tpl))
            &&& store_map(s)[(m, tpl)] == ep
        }),
    decreases s.len(),
{
    let (tpl, ep) = spec_lookup_template(s, m, p)->0;
    if s[0].method == m && template_matches(s[0].path@, p) {
        lemma_store_map_index(s, 0);
    } else {
        assert(store_wf(s.skip(1))) by {
            assert forall|x: int, y: int|
                0 <= x < y < s.skip(1).len() implies (#[trigger] s.skip(1)[x].key())
                != (#[trigger] s.skip(1)[y].key()) by {
                assert(s.skip(1)[x].key() == s[x + 1].key());
                assert(s.skip(1)[y].key() == s[y + 1].key());
            }
        }
        lemma_lookup_template_some(s.skip(1), m, p);
        lemma_store_map_contains(s.skip(1), (m, tpl));
        let i = choose|i: int|
            0 <= i < s.skip(1).len() && (#[trigger] s.skip(1)[i].key()) == (m, tpl);
        assert(s[i + 1] == s.skip(1)[i]);
        lemma_store_map_index(s, i + 1);
        lemma_store_map_index(s.skip(1), i);
    }
}

/// The whole server state.
pub struct AppState {
    /// The dynamic endpoint registry.
    pub dynamic: Vec<StoreEntry>,
    /// Keys removed while present only in the loaded document: recorded
    /// here to suppress them from the configuration listing.
    pub removed_spec: Vec<(String, String)>,
    /// The loaded document, if one was loaded at startup or imported.
    pub spec: Option<ApiDocument>,
    /// The trace of handled requests, in order of handling.
    pub logs: Vec<RequestLog>,
    /// Where unmatched requests are forwarded, when set.
    pub default_proxy_url: Option<String>,
}

impl AppState {
    /// The registry as a map.
    pub open spec fn dyn_map(&self) -> Map<(Method, Seq<char>), EndpointModel> {
        store_map(self.dynamic@)
    }

    /// The suppression set as a set.
    pub open spec fn removed(&self) -> Set<(Seq<char>, Seq<char>)> {
        removed_set(self.removed_spec@)
    }

    pub open spec fn wf(&self) -> bool {
        store_wf(self.dynamic@) && removed_wf(self.removed_spec@)
    }

    /// A fresh state: no endpoints, no suppressions, no trace.
    pub fn new(spec: Option<ApiDocument>, default_proxy_url: Option<String>) -> (st: AppState)
        ensures
            st.wf(),
            st.dyn_map() == Map::<(Method, Seq<char>), EndpointModel>::empty(),
            st.removed() == Set::<(Seq<char>, Seq<char>)>::empty(),
            st.logs@.len() == 0,
            st.spec == spec,
            st.default_proxy_url == default_proxy_url,
    {
        AppState {
            dynamic: Vec::new(),
            removed_spec: Vec::new(),
            spec,
            logs: Vec::new(),
            default_proxy_url,
        }
    }

    /// Register an endpoint under a key, replacing any previous entry for
    /// that key, and hand back the replaced endpoint if there was one.
    pub fn put_endpoint(&mut self, method: Method, path: String, ep: DynamicEndpoint) -> (prior:
        Option<DynamicEndpoint>)
        requires
            old(self).wf(),
        ensures
            final(self).wf(),
            final(self).dyn_map() == old(self).dyn_map().insert((method, path@), ep@),
            final(self).removed_spec == old(self).removed_spec,
            final(self).spec == old(self).spec,
            final(self).logs == old(self).logs,
            final(self).default_proxy_url == old(self).default_proxy_url,
            match prior {
                Some(p) => old(self).dyn_map().contains_key((method, path@)) && p@ == old(
                    self,
                ).dyn_map()[(method, path@)],
                None => !old(self).dyn_map().contains_key((method, path@)),
            },
    {
        let ghost k = (method, path@);
        let n = self.dynamic.len();
        let mut i: usize = 0;
        while i < n
            invariant
                self == old(self),
                old(self).wf(),
                n == self.dynamic@.len(),
                i <= n,
                forall|x: int| 0 <= x < i ==> (#[trigger] self.dynamic@[x].key()) != k,
                k == (method, path@),
            decreases n - i,
        {
            let entry = &self.dynamic[i];
            if entry.method == method && str_eq(entry.path.as_str(), path.as_str()) {
                assert(self.dynamic@[i as int].key() == k);
                let prior_ep = self.dynamic[i].endpoint.duplicate();
                let new_entry = StoreEntry { method, path, endpoint: ep };
                proof {
                    lemma_store_map_index(self.dynamic@, i as int);
                    lemma_store_map_update(self.dynamic@, i as int, new_entry);
                }
                self.dynamic[i] = new_entry;
                return Some(prior_ep);
            }
            i = i + 1;
        }
        proof {
            lemma_store_map_contains(self.dynamic@, k);
            let e = StoreEntry { method, path, endpoint: ep };
            assert(e.key() == k);
            lemma_store_map_push(self.dynamic@, e);
        }
        self.dynamic.push(StoreEntry { method, path, endpoint: ep });
        None
    }

    /// Remove the entry under a key, handing back its endpoint, or `None`
    /// when no entry has that key.
    pub fn remove_endpoint_entry(&mut self, method: Method, path: &str) -> (removed: Option<
        DynamicEndpoint,
    >)
        requires
            old(self).wf(),
        ensures
            final(self).wf(),
            final(self).dyn_map() == old(self).dyn_map().remove((method, path@)),
            final(self).removed_spec == old(self).removed_spec,
            final(self).spec == old(self).spec,
            final(self).logs == old(self).logs,
            final(self).default_proxy_url == old(self).default_proxy_url,
            match removed {
                Some(p) => old(self).dyn_map().contains_key((method, path@)) && p@ == old(
                    self,
                ).dyn_map()[(method, path@)],
                None => !old(self).dyn_map().contains_key((method, path@))
                    && final(self).dynamic == old(self).dynamic,
            },
    {
        let ghost k = (method, path@);
        let n = self.dynamic.len();
        let mut i: usize = 0;
        while i < n
            invariant
                self == old(self),
                old(self).wf(),
                n == self.dynamic@.len(),
                i <= n,
                forall|x: int| 0 <= x < i ==> (#[trigger] self.dynamic@[x].key()) != k,
                k == (method, path@),
            decreases n - i,
        {
            let entry = &self.dynamic[i];
            if entry.method == method && str_eq(entry.path.as_str(), path) {
                assert(self.dynamic@[i as int].key() == k);
                proof {
                    lemma_store_map_index(self.dynamic@, i as int);
                    lemma_store_map_remove(self.dynamic@, i as int);
                }
                let gone = self.dynamic.remove(i);
                return Some(gone.endpoint);
            }
            i = i + 1;
        }
        proof {
            lemma_store_map_contains(self.dynamic@, k);
            assert(self.dyn_map() =~= self.dyn_map().remove(k));
        }
        None
    }

    /// The endpoint registered under exactly this key, as a copy.
    pub fn lookup_exact(&self, method: Method, path: &str) -> (r: Option<DynamicEndpoint>)
        requires
            self.wf(),
        ensures
            match r {
                Some(ep) => self.dyn_map().contains_key((method, path@)) && ep@ == self.dyn_map()[
                    (method, path@)],
                None => !self.dyn_map().contains_key((method, path@)),
            },
    {
        let ghost k = (method, path@);
        let n = self.dynamic.len();
        let mut i: usize = 0;
        while i < n
            invariant
                self.wf(),
                n == self.dynamic@.len(),
                i <= n,
                forall|x: int| 0 <= x < i ==> (#[trigger] self.dynamic@[x].key()) != k,
                k == (method, path@),
            decreases n - i,
        {
            let entry = &self.dynamic[i];
            if entry.method == method && str_eq(entry.path.as_str(), path) {
                assert(self.dynamic@[i as int].key() == k);
                proof {
                    lemma_store_map_index(self.dynamic@, i as int);
                }
                return Some(entry.endpoint.duplicate());
            }
            i = i + 1;
        }
        proof {
            lemma_store_map_contains(self.dynamic@, k);
        }
        None
    }

    /// The first entry whose method matches and whose stored path, read as
    /// a template, matches the concrete path: the template and a copy of
    /// the endpoint.
    pub fn lookup_template(&self, method: Method, path: &str) -> (r: Option<(
        String,
        DynamicEndpoint,
    )>)
        requires
            self.wf(),
        ensures
            match r {
                Some(pair) => spec_lookup_template(self.dynamic@, method, path@) == Some(
                    (pair.0@, pair.1@),
                ),
                None => spec_lookup_template(self.dynamic@, method, path@) is None,
            },
    {
        let n = self.dynamic.len();
        let mut i: usize = 0;
        proof {
            assert(self.dynamic@.skip(0) =~= self.dynamic@);
        }
        while i < n
            invariant
                self.wf(),
                n == self.dynamic@.len(),
                i <= n,
                spec_lookup_template(self.dynamic@, method, path@) == spec_lookup_template(
                    self.dynamic@.skip(i as int),
                    method,
                    path@,
                ),
            decreases n - i,
        {
            let ghost pre = self.dynamic@.skip(i as int);
            assert(pre[0] == self.dynamic@[i as int]);
            let entry = &self.dynamic[i];
            if entry.method == method && crate::matcher::matches_path_template(
                entry.path.as_str(),
                path,
            ) {
                return Some((entry.path.clone(), entry.endpoint.duplicate()));
            }
            proof {
                assert(pre.skip(1) =~= self.dynamic@.skip(i as int + 1));
            }
            i = i + 1;
        }
        proof {
            assert(self.dynamic@.skip(n as int) =~= Seq::<StoreEntry>::empty());
        }
        None
    }

    /// Whether the suppression set holds a (method token, path) pair.
    pub fn removed_contains(&self, method_token: &str, path: &str) -> (r: bool)
        ensures
            r == self.removed().contains((method_token@, path@)),
    {
        let ghost k = (method_token@, path@);
        let n = self.removed_spec.len();
        let mut i: usize = 0;
        while i < n
            invariant
                n == self.removed_spec@.len(),
                i <= n,
                forall|x: int|
                    0 <= x < i ==> ((#[trigger] self.removed_spec@[x]).0@,
                    self.removed_spec@[x].1@) != k,
                k == (method_token@, path@),
            decreases n - i,
        {
            let entry = &self.removed_spec[i];
            if str_eq(entry.0.as_str(), method_token) && str_eq(entry.1.as_str(), path) {
                proof {
                    lemma_removed_set_contains(self.removed_spec@, k);
                }
                return true;
            }
            i = i + 1;
        }
        proof {
            lemma_removed_set_contains(self.removed_spec@, k);
        }
        false
    }

    /// Record a (method token, path) pair in the suppression set; the
    /// result says whether it was newly recorded.
    pub fn removed_insert(&mut self, method_token: String, path: String) -> (added: bool)
        requires
            old(self).wf(),
        ensures
            final(self).wf(),
            final(self).removed() == old(self).removed().insert((method_token@, path@)),
            added == !old(self).removed().contains((method_token@, path@)),
            final(self).dynamic == old(self).dynamic,
            final(self).spec == old(self).spec,
            final(self).logs == old(self).logs,
            final(self).default_proxy_url == old(self).default_proxy_url,
    {
        let ghost k = (method_token@, path@);
        if self.removed_contains(method_token.as_str(), path.as_str()) {
            proof {
                assert(self.removed() =~= self.removed().insert(k));
            }
            false
        } else {
            proof {
                lemma_removed_set_contains(self.removed_spec@, k);
                let s2 = self.removed_spec@.push((method_token, path));
                assert(s2.drop_last() =~= self.removed_spec@);
                assert forall|x: int, y: int|
                    0 <= x < y < s2.len() implies ((#[trigger] s2[x]).0@, s2[x].1@)
                    != ((#[trigger] s2[y]).0@, s2[y].1@) by {
                    if y < s2.len() - 1 {
                        assert(s2[x] == self.removed_spec@[x]);
                        assert(s2[y] == self.removed_spec@[y]);
                    } else {
                        assert(s2[x] == self.removed_spec@[x]);
                        assert((s2[x].0@, s2[x].1@) != k);
                    }
                }
            }
            self.removed_spec.push((method_token, path));
            true
        }
    }
}

pub proof fn lemma_removed_set_contains(s: Seq<(String, String)>, k: (Seq<char>, Seq<char>))
    ensures
        removed_set(s).contains(k) <==> exists|i: int|
            0 <= i < s.len() && ((#[trigger] s[i]).0@, s[i].1@) == k,
    decreases s.len(),
{
    if s.len() > 0 {
        lemma_removed_set_contains(s.drop_last(), k);
        if (s.last().0@, s.last().1@) == k {
            assert(((s[s.len() - 1]).0@, s[s.len() - 1].1@) == k);
        } else if removed_set(s).contains(k) {
            let i = choose|i: int|
                0 <= i < s.drop_last().len() && ((#[trigger] s.drop_last()[i]).0@,
                s.drop_last()[i].1@) == k;
            assert((s[i].0@, s[i].1@) == k);
        } else {
            assert forall|i: int| 0 <= i < s.len() implies ((#[trigger] s[i]).0@, s[i].1@)
                != k by {
                if i < s.len() - 1 {
                    assert(s.drop_last()[i] == s[i]);
                }
            }
        }
    }
}

/// No two registry entries ever share a key: in a well-formed state, two
/// entries with the same key are the same entry.
pub proof fn lemma_at_most_one_entry_per_key(st: &AppState, i: int, j: int)
    requires
        st.wf(),
        0 <= i < st.dynamic@.len(),
        0 <= j < st.dynamic@.len(),
        st.dynamic@[i].key() == st.dynamic@[j].key(),
    ensures
        i == j,
{
}

/// Registering an endpoint and then deleting its key leaves the registry
/// with no entry for that key, whatever was there before.
pub proof fn lemma_put_then_delete(
    m: Map<(Method, Seq<char>), EndpointModel>,
    k: (Method, Seq<char>),
    e: EndpointModel,
)
    ensures
        !m.insert(k, e).remove(k).contains_key(k),
        m.insert(k, e).remove(k) == m.remove(k),
{
    assert(m.insert(k, e).remove(k) =~= m.remove(k));
}

/// Registering twice under one key keeps the later endpoint: the first
/// write is gone from the registry.
pub proof fn lemma_last_write_wins(
    m: Map<(Method, Seq<char>), EndpointModel>,
    k: (Method, Seq<char>),
    e1: EndpointModel,
    e2: EndpointModel,
)
    ensures
        m.insert(k, e1).insert(k, e2)[k] == e2,
        m.insert(k, e1).insert(k, e2) == m.insert(k, e2),
{
    assert(m.insert(k, e1).insert(k, e2) =~= m.insert(k, e2));
}

/// Keys are distinct whenever their paths differ in any character, so
/// registering under one path never touches another: paths are
/// case-sensitive keys.
pub proof fn lemma_distinct_paths_distinct_keys(
    m: Map<(Method, Seq<char>), EndpointModel>,
    k1: (Method, Seq<char>),
    k2: (Method, Seq<char>),
    e: EndpointModel,
)
    requires
        k1.1 != k2.1,
    ensures
        m.insert(k1, e).contains_key(k2) == m.contains_key(k2),
        m.contains_key(k2) ==> m.insert(k1, e)[k2] == m[k2],
{
}

} // verus!
