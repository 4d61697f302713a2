//! The compiler's configuration: the API key to use for each registry.
use vstd::prelude::*;

verus! {

/// The logins the compiler knows: one API key per registry URL.
pub struct Config {
    logins: Vec<(String, String)>,
}

/// Whether no URL occurs twice among the logins.
pub open spec fn unique_urls(s: Seq<(String, String)>) -> bool {
    forall|i: int, j: int| 0 <= i < s.len() && 0 <= j < s.len() && i != j ==> (#[trigger] s[i]).0@ != (#[trigger] s[j]).0@
}

/// The position of a URL among the logins.
pub open spec fn url_index(s: Seq<(String, String)>, url: Seq<char>) -> int {
    choose|i: int| 0 <= i < s.len() && (#[trigger] s[i]).0@ == url
}

/// The logins as a map from URL to API key.
pub open spec fn logins_map(s: Seq<(String, String)>) -> Map<Seq<char>, Seq<char>> {
    Map::new(
        |url: Seq<char>| exists|i: int| 0 <= i < s.len() && (#[trigger] s[i]).0@ == url,
        |url: Seq<char>| s[url_index(s, url)].1@,
    )
}

/// Login pairs by their texts.
pub open spec fn pairs_view(s: Seq<(String, String)>) -> Seq<(Seq<char>, Seq<char>)> {
    s.map_values(|p: (String, String)| (p.0@, p.1@))
}

/// The map that adding login pairs in order to an empty configuration
/// gives: a later pair for a URL replaces an earlier one.
pub open spec fn pairs_map(s: Seq<(Seq<char>, Seq<char>)>) -> Map<Seq<char>, Seq<char>>
    decreases s.len(),
{
    if s.len() == 0 {
        Map::empty()
    } else {
        pairs_map(s.drop_last()).insert(s.last().0, s.last().1)
    }
}

impl View for Config {
    type V = Map<Seq<char>, Seq<char>>;

    closed spec fn view(&self) -> Map<Seq<char>, Seq<char>> {
        logins_map(self.logins@)
    }
}

impl Config {
    #[verifier::type_invariant]
    spec fn urls_unique(self) -> bool {
        unique_urls(self.logins@)
    }

    /// A configuration with no logins.
    pub fn default() -> (r: Config)
        ensures
            r@ == Map::<Seq<char>, Seq<char>>::empty(),
    {
        let r = Config { logins: Vec::new() };
        proof {
            assert(logins_map(r.logins@) =~= Map::<Seq<char>, Seq<char>>::empty());
        }
        r
    }

    /// Where the login for a URL is, if there is one.
    fn find(&self, url: &str) -> (r: Option<usize>)
        ensures
            r is None <==> !self@.contains_key(url@),
            r matches Some(i) ==> i < self.logins@.len() && self.logins@[i as int].0@ == url@
                && self@[url@] == self.logins@[i as int].1@,
    {
        proof {
            use_type_invariant(self);
        }
        let key = url.to_owned();
        let mut k: usize = 0;
        while k < self.logins.len()
            invariant
                key@ == url@,
                unique_urls(self.logins@),
                0 <= k <= self.logins@.len(),
                forall|j: int| 0 <= j < k ==> (#[trigger] self.logins@[j]).0@ != url@,
            decreases self.logins@.len() - k,
        {
            if self.logins[k].0 == key {
                proof {
                    let s = self.logins@;
                    assert(s[k as int].0@ == url@);
                    assert(logins_map(s).dom().contains(url@));
                    let c = url_index(s, url@);
                    assert(c == k as int) by {
                        if c != k as int {
                            assert(s[c].0@ == s[k as int].0@);
                        }
                    }
                }
                return Some(k);
            }
            k = k + 1;
        }
        None
    }

    /// The API key for a registry URL, if there is one.
    pub fn get_login_for_url(&self, url: &str) -> (r: Option<&String>)
        ensures
            r is None <==> !self@.contains_key(url@),
            r matches Some(k) ==> self@[url@] == k@,
    {
        match self.find(url) {
            Some(i) => Some(&self.logins[i].1),
            None => None,
        }
    }

    /// Sets the API key for a registry URL; the key it replaces, if any.
    pub fn add_login_for_url(&mut self, url: &str, apikey: &str) -> (r: Option<String>)
        ensures
            final(self)@ == old(self)@.insert(url@, apikey@),
            r is None <==> !old(self)@.contains_key(url@),
            r matches Some(k) ==> old(self)@[url@] == k@,
    {
        proof {
            use_type_invariant(&*self);
        }
        let ghost s0 = self.logins@;
        let entry = (url.to_owned(), apikey.to_owned());
        match self.find(url) {
            Some(i) => {
                let previous = self.logins[i].1.clone();
                let mut logins: Vec<(String, String)> = Vec::new();
                std::mem::swap(&mut logins, &mut self.logins);
                logins.set(i, entry);
                proof {
                    let s1 = logins@;
                    assert(s1 == s0.update(i as int, entry));
                    assert(unique_urls(s1)) by {
                        assert forall|a: int, b: int| 0 <= a < s1.len() && 0 <= b < s1.len() && a != b implies (#[trigger] s1[a]).0@ != (#[trigger] s1[b]).0@ by {
                            if a != i && b != i {
                                assert(s1[a] == s0[a] && s1[b] == s0[b]);
                            } else if a == i {
                                assert(s1[b] == s0[b]);
                            } else {
                                assert(s1[a] == s0[a]);
                            }
                        }
                    }
                    assert(logins_map(s1) =~= logins_map(s0).insert(url@, apikey@)) by {
                        assert forall|u: Seq<char>| #[trigger] logins_map(s1).dom().contains(u) <==> logins_map(s0).insert(url@, apikey@).dom().contains(u) by {
                            if u != url@ {
                                if logins_map(s0).dom().contains(u) {
                                    let c = choose|c: int| 0 <= c < s0.len() && (#[trigger] s0[c]).0@ == u;
                                    assert(s1[c] == s0[c]);
                                }
                                if logins_map(s1).dom().contains(u) {
                                    let c = choose|c: int| 0 <= c < s1.len() && (#[trigger] s1[c]).0@ == u;
                                    assert(s1[c] == s0[c]);
                                }
                            } else {
                                assert(s1[i as int].0@ == url@);
                            }
                        }
                        assert forall|u: Seq<char>| #[trigger] logins_map(s1).dom().contains(u) implies logins_map(s1)[u] == logins_map(s0).insert(url@, apikey@)[u] by {
                            let c1 = url_index(s1, u);
                            if u == url@ {
                                assert(s1[i as int].0@ == url@);
                                if c1 != i as int {
                                    assert(s1[c1].0@ == s1[i as int].0@);
                                }
                            } else {
                                let c0 = url_index(s0, u);
                                assert(s1[c1] == s0[c1]);
                                if c0 != c1 {
                                    assert(s0[c0].0@ == s0[c1].0@);
                                }
                            }
                        }
                    }
                }
                self.logins = logins;
                Some(previous)
            },
            None => {
                let mut logins: Vec<(String, String)> = Vec::new();
                std::mem::swap(&mut logins, &mut self.logins);
                logins.push(entry);
                proof {
                    let s1 = logins@;
                    assert(s1 == s0.push(entry));
                    assert(forall|c: int| 0 <= c < s0.len() ==> (#[trigger] s0[c]).0@ != url@);
                    assert(unique_urls(s1)) by {
                        assert forall|a: int, b: int| 0 <= a < s1.len() && 0 <= b < s1.len() && a != b implies (#[trigger] s1[a]).0@ != (#[trigger] s1[b]).0@ by {
                            if a < s0.len() && b < s0.len() {
                                assert(s1[a] == s0[a] && s1[b] == s0[b]);
                            } else if a < s0.len() {
                                assert(s1[a] == s0[a]);
                            } else {
                                assert(s1[b] == s0[b]);
                            }
                        }
                    }
                    assert(logins_map(s1) =~= logins_map(s0).insert(url@, apikey@)) by {
                        assert forall|u: Seq<char>| #[trigger] logins_map(s1).dom().contains(u) <==> logins_map(s0).insert(url@, apikey@).dom().contains(u) by {
                            if u != url@ {
                                if logins_map(s0).dom().contains(u) {
                                    let c = choose|c: int| 0 <= c < s0.len() && (#[trigger] s0[c]).0@ == u;
                                    assert(s1[c] == s0[c]);
                                }
                                if logins_map(s1).dom().contains(u) {
                                    let c = choose|c: int| 0 <= c < s1.len() && (#[trigger] s1[c]).0@ == u;
                                    if c < s0.len() {
                                        assert(s1[c] == s0[c]);
                                    }
                                }
                            } else {
                                assert(s1[s0.len() as int].0@ == url@);
                            }
                        }
                        assert forall|u: Seq<char>| #[trigger] logins_map(s1).dom().contains(u) implies logins_map(s1)[u] == logins_map(s0).insert(url@, apikey@)[u] by {
                            let c1 = url_index(s1, u);
                            if u == url@ {
                                assert(s1[s0.len() as int].0@ == url@);
                                if c1 != s0.len() as int {
                                    assert(s1[c1] == s0[c1]);
                                }
                            } else {
                                let c0 = url_index(s0, u);
                                if c1 < s0.len() {
                                    assert(s1[c1] == s0[c1]);
                                    if c0 != c1 {
                                        assert(s0[c0].0@ == s0[c1].0@);
                                    }
                                } else {
                                    assert(s1[c1] == entry);
                                }
                            }
                        }
                    }
                }
                self.logins = logins;
                None
            },
        }
    }

    /// The logins, in the order they were first added.
    pub fn logins(&self) -> (r: Vec<(String, String)>)
        ensures
            r@.len() == self@.dom().len(),
            forall|i: int| 0 <= i < r@.len() ==> self@.contains_key((#[trigger] r@[i]).0@) && self@[r@[i].0@]
                == r@[i].1@,
            unique_urls(r@),
            pairs_map(pairs_view(r@)) == self@,
    {
        proof {
            use_type_invariant(self);
        }
        let mut r: Vec<(String, String)> = Vec::new();
        let mut k: usize = 0;
        while k < self.logins.len()
            invariant
                0 <= k <= self.logins@.len(),
                unique_urls(self.logins@),
                r@.len() == k,
                forall|i: int| 0 <= i < k ==> (#[trigger] r@[i]).0@ == self.logins@[i].0@ && r@[i].1@ == self.logins@[i].1@,
            decreases self.logins@.len() - k,
        {
            r.push((self.logins[k].0.clone(), self.logins[k].1.clone()));
            k = k + 1;
        }
        proof {
            let s = self.logins@;
            assert forall|i: int| 0 <= i < r@.len() implies self@.contains_key((#[trigger] r@[i]).0@) && self@[r@[i].0@] == r@[i].1@ by {
                assert(logins_map(s).dom().contains(s[i].0@));
                let c = url_index(s, s[i].0@);
                if c != i {
                    assert(s[c].0@ == s[i].0@);
                }
            }
            lemma_logins_map_len(s);
            assert forall|i: int, j: int| 0 <= i < r@.len() && 0 <= j < r@.len() && i != j implies (#[trigger] r@[i]).0@ != (#[trigger] r@[j]).0@ by {
                assert(s[i].0@ != s[j].0@);
            }
            assert(pairs_view(r@) =~= pairs_view(s));
            lemma_pairs_map_is_logins_map(s);
        }
        r
    }

    /// A configuration with the given logins, added in order.
    pub fn from_logins(pairs: &Vec<(String, String)>) -> (r: Config)
        ensures
            r@ == pairs_map(pairs_view(pairs@)),
    {
        let ghost pv = pairs_view(pairs@);
        let mut c = Config::default();
        let mut k: usize = 0;
        proof {
            assert(pv.take(0) =~= Seq::<(Seq<char>, Seq<char>)>::empty());
        }
        while k < pairs.len()
            invariant
                pv == pairs_view(pairs@),
                0 <= k <= pairs@.len(),
                c@ == pairs_map(pv.take(k as int)),
            decreases pairs@.len() - k,
        {
            c.add_login_for_url(pairs[k].0.as_str(), pairs[k].1.as_str());
            proof {
                assert(pv.take(k + 1).drop_last() =~= pv.take(k as int));
                assert(pv.take(k + 1).last() == pv[k as int]);
            }
            k = k + 1;
        }
        proof {
            assert(pv.take(pairs@.len() as int) =~= pv);
        }
        c
    }
}

/// Logins with distinct URLs map as many URLs as there are logins.
proof fn lemma_logins_map_len(s: Seq<(String, String)>)
    requires
        unique_urls(s),
    ensures
        logins_map(s).dom().len() == s.len(),
        logins_map(s).dom().finite(),
    decreases s.len(),
{
    if s.len() == 0 {
        assert(logins_map(s).dom() =~= Set::<Seq<char>>::empty());
    } else {
        let t = s.drop_last();
        assert(unique_urls(t)) by {
            assert forall|a: int, b: int| 0 <= a < t.len() && 0 <= b < t.len() && a != b implies (#[trigger] t[a]).0@ != (#[trigger] t[b]).0@ by {
                assert(t[a] == s[a] && t[b] == s[b]);
            }
        }
        lemma_logins_map_len(t);
        assert(logins_map(s).dom() =~= logins_map(t).dom().insert(s.last().0@)) by {
            assert forall|u: Seq<char>| #[trigger] logins_map(s).dom().contains(u) implies logins_map(t).dom().insert(s.last().0@).contains(u) by {
                let c = choose|c: int| 0 <= c < s.len() && (#[trigger] s[c]).0@ == u;
                if c < t.len() {
                    assert(t[c] == s[c]);
                }
            }
            assert forall|u: Seq<char>| #[trigger] logins_map(t).dom().insert(s.last().0@).contains(u) implies logins_map(s).dom().contains(u) by {
                if u != s.last().0@ {
                    let c = choose|c: int| 0 <= c < t.len() && (#[trigger] t[c]).0@ == u;
                    assert(t[c] == s[c]);
                } else {
                    assert(s[s.len() - 1].0@ == u);
                }
            }
        }
        assert(!logins_map(t).dom().contains(s.last().0@)) by {
            if logins_map(t).dom().contains(s.last().0@) {
                let c = choose|c: int| 0 <= c < t.len() && (#[trigger] t[c]).0@ == s.last().0@;
                assert(t[c] == s[c]);
                assert(s[c].0@ == s[s.len() - 1].0@);
            }
        }
    }
}

/// Logins with distinct URLs, added in order, make the map they stand for.
proof fn lemma_pairs_map_is_logins_map(s: Seq<(String, String)>)
    requires
        unique_urls(s),
    ensures
        pairs_map(pairs_view(s)) == logins_map(s),
    decreases s.len(),
{
    if s.len() == 0 {
        assert(logins_map(s) =~= Map::<Seq<char>, Seq<char>>::empty());
    } else {
        let t = s.drop_last();
        let n = s.len() - 1;
        assert(unique_urls(t)) by {
            assert forall|a: int, b: int| 0 <= a < t.len() && 0 <= b < t.len() && a != b implies (#[trigger] t[a]).0@ != (#[trigger] t[b]).0@ by {
                assert(t[a] == s[a] && t[b] == s[b]);
            }
        }
        lemma_pairs_map_is_logins_map(t);
        assert(pairs_view(s).drop_last() =~= pairs_view(t));
        let last = s[n];
        assert(pairs_view(s).last() == (last.0@, last.1@));
        let m = logins_map(t).insert(last.0@, last.1@);
        assert forall|u: Seq<char>| #[trigger] logins_map(s).dom().contains(u) <==> m.dom().contains(u) by {
            if logins_map(s).dom().contains(u) {
                let c = choose|c: int| 0 <= c < s.len() && (#[trigger] s[c]).0@ == u;
                if c < t.len() {
                    assert(t[c] == s[c]);
                }
            }
            if logins_map(t).dom().contains(u) {
                let c = choose|c: int| 0 <= c < t.len() && (#[trigger] t[c]).0@ == u;
                assert(s[c] == t[c]);
            }
            if u == last.0@ {
                assert(s[n].0@ == u);
            }
        }
        assert forall|u: Seq<char>| #[trigger] logins_map(s).dom().contains(u) implies logins_map(s)[u] == m[u] by {
            let c = url_index(s, u);
            assert(0 <= c < s.len() && s[c].0@ == u);
            if u == last.0@ {
                if c != n {
                    assert(s[c].0@ == s[n].0@);
                }
            } else {
                assert(c != n);
                assert(s[c] == t[c]);
                assert(logins_map(t).dom().contains(u));
                let d = url_index(t, u);
                assert(0 <= d < t.len() && t[d].0@ == u);
                assert(t[d] == s[d]);
                if d != c {
                    assert(s[d].0@ == s[c].0@);
                }
            }
        }
        assert(logins_map(s) =~= m);
    }
}

/// What a write of a login gives back to a read: the key just added for its
/// URL, and the earlier key for any other URL.
pub proof fn lemma_login_read_after_write(
    before: Map<Seq<char>, Seq<char>>,
    url: Seq<char>,
    apikey: Seq<char>,
    other: Seq<char>,
)
    requires
        other != url,
    ensures
        before.insert(url, apikey).contains_key(url),
        before.insert(url, apikey)[url] == apikey,
        before.insert(url, apikey).contains_key(other) == before.contains_key(other),
        before.contains_key(other) ==> before.insert(url, apikey)[other] == before[other],
{
}

} // verus!
