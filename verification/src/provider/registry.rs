//! The registry of named language-model and speech-to-text providers,
//! with one active provider of each kind.

use vstd::prelude::*;
use vstd::string::StringExecFns;
use crate::text::{chars_eq, chars_of};

verus! {

broadcast use vstd::string::group_string_axioms;

/// The kinds of engine.
#[derive(Debug, Clone, Copy, PartialEq, Eq, Structural)]
pub enum EngineType {
    Stt,
    Llm,
    Tts,
}

/// Providers of one kind by name, in order of first registration.
pub struct NamedProviders<P> {
    entries: Vec<(String, P)>,
    active: Option<String>,
}

/// The names of a list of entries.
pub open spec fn names<P>(entries: Seq<(String, P)>) -> Seq<Seq<char>> {
    entries.map_values(|e: (String, P)| e.0@)
}

/// The entries after registering `p` under `name`: it replaces the
/// provider of that name, or is added at the end.
pub open spec fn registered<P>(entries: Seq<(Seq<char>, P)>, name: Seq<char>, p: P) -> Seq<(Seq<char>, P)> {
    if exists|i: int| 0 <= i < entries.len() && #[trigger] entries[i].0 == name {
        let i = choose|i: int| 0 <= i < entries.len() && #[trigger] entries[i].0 == name;
        entries.update(i, (name, p))
    } else {
        entries.push((name, p))
    }
}

/// The provider registered under a name, if any.
pub open spec fn lookup<P>(entries: Seq<(Seq<char>, P)>, name: Seq<char>) -> Option<P> {
    if exists|i: int| 0 <= i < entries.len() && #[trigger] entries[i].0 == name {
        let i = choose|i: int| 0 <= i < entries.len() && #[trigger] entries[i].0 == name;
        Some(entries[i].1)
    } else {
        None
    }
}

/// No name occurs twice.
pub open spec fn distinct_names<P>(entries: Seq<(Seq<char>, P)>) -> bool {
    forall|i: int, j: int|
        0 <= i < entries.len() && 0 <= j < entries.len() && i != j ==> entries[i].0 != entries[j].0
}

/// Registering a provider under a name makes it the provider found by
/// that name; every other name keeps its provider, and names stay
/// distinct.
pub proof fn lemma_register_lookup<P>(entries: Seq<(Seq<char>, P)>, name: Seq<char>, p: P, other: Seq<char>)
    requires
        distinct_names(entries),
    ensures
        lookup(registered(entries, name, p), name) == Some(p),
        other != name ==> lookup(registered(entries, name, p), other) == lookup(entries, other),
        distinct_names(registered(entries, name, p)),
{
    let r = registered(entries, name, p);
    if exists|i: int| 0 <= i < entries.len() && #[trigger] entries[i].0 == name {
        let i = choose|i: int| 0 <= i < entries.len() && #[trigger] entries[i].0 == name;
        assert(r == entries.update(i, (name, p)));
        assert(r[i].0 == name);
        let k = choose|k: int| 0 <= k < r.len() && #[trigger] r[k].0 == name;
        assert(k == i);
        if other != name {
            if exists|j: int| 0 <= j < entries.len() && #[trigger] entries[j].0 == other {
                let j = choose|j: int| 0 <= j < entries.len() && #[trigger] entries[j].0 == other;
                assert(r[j].0 == other);
                let m = choose|m: int| 0 <= m < r.len() && #[trigger] r[m].0 == other;
                assert(m == j);
            } else {
                assert forall|m: int| 0 <= m < r.len() implies #[trigger] r[m].0 != other by {
                    if m != i {
                        assert(r[m] == entries[m]);
                    }
                }
            }
        }
    } else {
        assert(r == entries.push((name, p)));
        assert(r[entries.len() as int].0 == name);
        let k = choose|k: int| 0 <= k < r.len() && #[trigger] r[k].0 == name;
        if k < entries.len() {
            assert(r[k] == entries[k]);
        }
        if other != name {
            if exists|j: int| 0 <= j < entries.len() && #[trigger] entries[j].0 == other {
                let j = choose|j: int| 0 <= j < entries.len() && #[trigger] entries[j].0 == other;
                assert(r[j] == entries[j]);
                let m = choose|m: int| 0 <= m < r.len() && #[trigger] r[m].0 == other;
                if m < entries.len() {
                    assert(r[m] == entries[m]);
                }
                assert(m == j);
            } else {
                assert forall|m: int| 0 <= m < r.len() implies #[trigger] r[m].0 != other by {
                    if m < entries.len() {
                        assert(r[m] == entries[m]);
                    }
                }
            }
        }
    }
}

impl<P> NamedProviders<P> {
    /// The registered providers, by name, in registration order.
    pub closed spec fn providers(&self) -> Seq<(Seq<char>, P)> {
        self.entries@.map_values(|e: (String, P)| (e.0@, e.1))
    }

    /// The name of the active provider.
    pub closed spec fn active_name(&self) -> Option<Seq<char>> {
        match self.active {
            Some(s) => Some(s@),
            None => None,
        }
    }

    /// Names are distinct, and the active name is registered.
    pub closed spec fn wf(&self) -> bool {
        &&& distinct_names(self.providers())
        &&& self.active_name() matches Some(n) ==> lookup(self.providers(), n) is Some
    }

    pub fn new() -> (r: Self)
        ensures
            r.wf(),
            r.providers() == Seq::<(Seq<char>, P)>::empty(),
            r.active_name() is None,
    {
        let r = NamedProviders { entries: Vec::new(), active: None };
        assert(r.providers() =~= Seq::<(Seq<char>, P)>::empty());
        r
    }

    fn index_of(&self, name: &str) -> (r: Option<usize>)
        ensures
            r matches Some(i) ==> i < self.providers().len() && self.providers()[i as int].0 == name@,
            r is None ==> forall|i: int| 0 <= i < self.providers().len() ==> #[trigger] self.providers()[i].0 != name@,
    {
        let want = chars_of(name);
        let mut i: usize = 0;
        while i < self.entries.len()
            invariant
                i <= self.entries.len(),
                want@ == name@,
                forall|k: int| 0 <= k < i ==> #[trigger] self.providers()[k].0 != name@,
            decreases self.entries.len() - i,
        {
            let have = chars_of(self.entries[i].0.as_str());
            assert(self.providers()[i as int].0 == self.entries@[i as int].0@);
            if chars_eq(&have, &want) {
                return Some(i);
            }
            i += 1;
        }
        None
    }

    /// Registers `provider` under `name`; the first provider registered
    /// becomes the active one.
    pub fn register(&mut self, name: &str, provider: P)
        requires
            old(self).wf(),
        ensures
            final(self).wf(),
            final(self).providers() == registered(old(self).providers(), name@, provider),
            final(self).active_name() == (match old(self).active_name() {
                Some(n) => Some(n),
                None => Some(name@),
            }),
    {
        let ghost s = self.providers();
        match self.index_of(name) {
            Some(i) => {
                proof {
                    assert(exists|j: int| 0 <= j < s.len() && #[trigger] s[j].0 == name@);
                    let j = choose|j: int| 0 <= j < s.len() && #[trigger] s[j].0 == name@;
                    assert(j == i as int);
                }
                self.entries.set(i, (String::from_str(name), provider));
                assert(self.providers() =~= s.update(i as int, (name@, provider)));
            },
            None => {
                self.entries.push((String::from_str(name), provider));
                assert(self.providers() =~= s.push((name@, provider)));
            },
        }
        if self.active.is_none() {
            self.active = Some(String::from_str(name));
        }
        proof {
            let t = self.providers();
            match self.active_name() {
                Some(n) => {
                    if n == name@ {
                        assert(exists|j: int| 0 <= j < t.len() && #[trigger] t[j].0 == name@) by {
                            if exists|j: int| 0 <= j < s.len() && #[trigger] s[j].0 == name@ {
                                let j = choose|j: int| 0 <= j < s.len() && #[trigger] s[j].0 == name@;
                                assert(t[j].0 == name@);
                            } else {
                                assert(t[t.len() - 1].0 == name@);
                            }
                        }
                    } else {
                        let k = choose|k: int| 0 <= k < s.len() && #[trigger] s[k].0 == n;
                        assert(t[k].0 == n);
                    }
                },
                None => {},
            }
        }
    }

    /// Makes the named provider active; false (and no change) when no
    /// provider has that name.
    pub fn set_active(&mut self, name: &str) -> (b: bool)
        requires
            old(self).wf(),
        ensures
            final(self).wf(),
            final(self).providers() == old(self).providers(),
            b == lookup(old(self).providers(), name@) is Some,
            b ==> final(self).active_name() == Some(name@),
            !b ==> final(self).active_name() == old(self).active_name(),
    {
        match self.index_of(name) {
            Some(i) => {
                self.active = Some(String::from_str(name));
                assert(self.providers()[i as int].0 == name@);
                true
            },
            None => false,
        }
    }

    /// The active provider.
    pub fn active(&self) -> (r: Option<&P>)
        requires
            self.wf(),
        ensures
            r matches Some(p) ==> self.active_name() matches Some(n) && lookup(self.providers(), n)
                == Some(*p),
            r is None ==> self.active_name() is None,
    {
        match &self.active {
            Some(n) => {
                match self.index_of(n.as_str()) {
                    Some(i) => {
                        let ghost s = self.providers();
                        proof {
                            let j = choose|j: int| 0 <= j < s.len() && #[trigger] s[j].0 == n@;
                            assert(j == i as int);
                        }
                        Some(&self.entries[i].1)
                    },
                    None => {
                        assert(false);
                        None
                    },
                }
            },
            None => None,
        }
    }

    /// The registered names, in registration order.
    pub fn list(&self) -> (r: Vec<String>)
        ensures
            r@.map_values(|s: String| s@) == self.providers().map_values(|e: (Seq<char>, P)| e.0),
    {
        let mut r: Vec<String> = Vec::new();
        let mut i: usize = 0;
        while i < self.entries.len()
            invariant
                i <= self.entries.len(),
                r@.map_values(|s: String| s@) == self.providers().map_values(|e: (Seq<char>, P)| e.0).take(
                    i as int,
                ),
            decreases self.entries.len() - i,
        {
            let ghost r0 = r@;
            let nm = self.entries[i].0.clone();
            assert(self.providers()[i as int].0 == nm@);
            r.push(nm);
            assert(r@.map_values(|s: String| s@) =~= r0.map_values(|s: String| s@).push(nm@));
            i += 1;
            assert(r@.map_values(|s: String| s@) =~= self.providers().map_values(|e: (Seq<char>, P)| e.0).take(
                i as int,
            ));
        }
        assert(self.providers().map_values(|e: (Seq<char>, P)| e.0).take(i as int) =~= self.providers().map_values(
            |e: (Seq<char>, P)| e.0,
        ));
        r
    }
}

/// The language-model and speech-to-text providers by name, each kind
/// with an active provider.
pub struct ProviderRegistry<L, S> {
    llm_providers: NamedProviders<L>,
    stt_providers: NamedProviders<S>,
}

impl<L, S> ProviderRegistry<L, S> {
    pub closed spec fn llm(&self) -> NamedProviders<L> {
        self.llm_providers
    }

    pub closed spec fn stt(&self) -> NamedProviders<S> {
        self.stt_providers
    }

    pub open spec fn wf(&self) -> bool {
        self.llm().wf() && self.stt().wf()
    }

    pub fn new() -> (r: Self)
        ensures
            r.wf(),
            r.llm().providers() == Seq::<(Seq<char>, L)>::empty(),
            r.llm().active_name() is None,
            r.stt().providers() == Seq::<(Seq<char>, S)>::empty(),
            r.stt().active_name() is None,
    {
        ProviderRegistry { llm_providers: NamedProviders::new(), stt_providers: NamedProviders::new() }
    }

    /// Registers a language-model provider; the first becomes active.
    pub fn register_llm(&mut self, name: &str, provider: L)
        requires
            old(self).wf(),
        ensures
            final(self).wf(),
            final(self).stt() == old(self).stt(),
            final(self).llm().providers() == registered(old(self).llm().providers(), name@, provider),
            final(self).llm().active_name() == (match old(self).llm().active_name() {
                Some(n) => Some(n),
                None => Some(name@),
            }),
    {
        self.llm_providers.register(name, provider);
    }

    /// Makes a language-model provider active, if registered.
    pub fn set_active_llm(&mut self, name: &str) -> (b: bool)
        requires
            old(self).wf(),
        ensures
            final(self).wf(),
            final(self).stt() == old(self).stt(),
            final(self).llm().providers() == old(self).llm().providers(),
            b == lookup(old(self).llm().providers(), name@) is Some,
            b ==> final(self).llm().active_name() == Some(name@),
            !b ==> final(self).llm().active_name() == old(self).llm().active_name(),
    {
        self.llm_providers.set_active(name)
    }

    /// The active language-model provider.
    pub fn active_llm(&self) -> (r: Option<&L>)
        requires
            self.wf(),
        ensures
            r matches Some(p) ==> self.llm().active_name() matches Some(n) && lookup(
                self.llm().providers(),
                n,
            ) == Some(*p),
            r is None ==> self.llm().active_name() is None,
    {
        self.llm_providers.active()
    }

    /// The names of the language-model providers, in registration order.
    pub fn list_llm_providers(&self) -> (r: Vec<String>)
        ensures
            r@.map_values(|s: String| s@) == self.llm().providers().map_values(|e: (Seq<char>, L)| e.0),
    {
        self.llm_providers.list()
    }

    /// Registers a speech-to-text provider; the first becomes active.
    pub fn register_stt(&mut self, name: &str, provider: S)
        requires
            old(self).wf(),
        ensures
            final(self).wf(),
            final(self).llm() == old(self).llm(),
            final(self).stt().providers() == registered(old(self).stt().providers(), name@, provider),
            final(self).stt().active_name() == (match old(self).stt().active_name() {
                Some(n) => Some(n),
                None => Some(name@),
            }),
    {
        self.stt_providers.register(name, provider);
    }

    /// Makes a speech-to-text provider active, if registered.
    pub fn set_active_stt(&mut self, name: &str) -> (b: bool)
        requires
            old(self).wf(),
        ensures
            final(self).wf(),
            final(self).llm() == old(self).llm(),
            final(self).stt().providers() == old(self).stt().providers(),
            b == lookup(old(self).stt().providers(), name@) is Some,
            b ==> final(self).stt().active_name() == Some(name@),
            !b ==> final(self).stt().active_name() == old(self).stt().active_name(),
    {
        self.stt_providers.set_active(name)
    }

    /// The active speech-to-text provider.
    pub fn active_stt(&self) -> (r: Option<&S>)
        requires
            self.wf(),
        ensures
            r matches Some(p) ==> self.stt().active_name() matches Some(n) && lookup(
                self.stt().providers(),
                n,
            ) == Some(*p),
            r is None ==> self.stt().active_name() is None,
    {
        self.stt_providers.active()
    }

    /// The names of the speech-to-text providers, in registration order.
    pub fn list_stt_providers(&self) -> (r: Vec<String>)
        ensures
            r@.map_values(|s: String| s@) == self.stt().providers().map_values(|e: (Seq<char>, S)| e.0),
    {
        self.stt_providers.list()
    }
}

} // verus!
