//! The registry of providers: each under its id, one of them active.

use vstd::prelude::*;
use vstd::string::*;

use crate::errors::{Result, SymphonyError};
use crate::provider::catalog::same_text;
use crate::provider::local::first_key;
use crate::types::ProviderId;

verus! {

/// The ids of registered entries.
pub open spec fn entry_ids<P>(entries: Seq<(String, P)>) -> Seq<Seq<char>> {
    Seq::new(entries.len(), |k: int| entries[k].0@)
}

/// No id occurs twice.
pub open spec fn distinct(ids: Seq<Seq<char>>) -> bool {
    forall|a: int, b: int| 0 <= a < b < ids.len() ==> #[trigger] ids[a] != #[trigger] ids[b]
}

/// The position of the entry with id `id`.
fn entry_position<P>(entries: &Vec<(String, P)>, id: &str) -> (r: Option<usize>)
    ensures
        match r {
            Some(k) => k < entries@.len() && entries@[k as int].0@ == id@ && first_key(entry_ids(entries@), id@)
                == Some(k as int),
            None => !entry_ids(entries@).contains(id@) && first_key(entry_ids(entries@), id@) is None,
        },
{
    let mut i: usize = 0;
    while i < entries.len()
        invariant
            i <= entries@.len(),
            forall|j: int| 0 <= j < i ==> #[trigger] entries@[j].0@ != id@,
        decreases entries@.len() - i,
    {
        if same_text(entries[i].0.as_str(), id) {
            proof {
                lemma_first_entry(entry_ids(entries@), id@, i as int);
            }
            return Some(i);
        }
        i = i + 1;
    }
    proof {
        assert forall|j: int| 0 <= j < entry_ids(entries@).len() implies #[trigger] entry_ids(entries@)[j] != id@ by {
            assert(entries@[j].0@ != id@);
        }
        lemma_no_entry(entry_ids(entries@), id@);
    }
    None
}

pub(crate) proof fn lemma_first_entry(keys: Seq<Seq<char>>, id: Seq<char>, k: int)
    requires
        0 <= k < keys.len(),
        keys[k] == id,
        forall|j: int| 0 <= j < k ==> #[trigger] keys[j] != id,
    ensures
        first_key(keys, id) == Some(k),
    decreases k,
{
    if k > 0 {
        assert forall|j: int| 0 <= j < k - 1 implies #[trigger] keys.drop_first()[j] != id by {
            assert(keys.drop_first()[j] == keys[j + 1]);
        }
        lemma_first_entry(keys.drop_first(), id, k - 1);
    }
}

pub(crate) proof fn lemma_no_entry(keys: Seq<Seq<char>>, id: Seq<char>)
    requires
        forall|j: int| 0 <= j < keys.len() ==> #[trigger] keys[j] != id,
    ensures
        first_key(keys, id) is None,
        !keys.contains(id),
    decreases keys.len(),
{
    if keys.len() > 0 {
        assert forall|j: int| 0 <= j < keys.len() - 1 implies #[trigger] keys.drop_first()[j] != id by {
            assert(keys.drop_first()[j] == keys[j + 1]);
        }
        lemma_no_entry(keys.drop_first(), id);
    }
}

/// The providers by id, and the id of the active one.
pub struct ProviderRegistry<P> {
    providers: Vec<(ProviderId, P)>,
    active_provider: ProviderId,
}

impl<P> ProviderRegistry<P> {
    /// Ids are distinct, and the active id is empty or registered.
    pub open spec fn wf(&self) -> bool {
        &&& distinct(self.spec_ids())
        &&& (self.spec_active().len() == 0 || self.spec_ids().contains(self.spec_active()))
    }

    /// The registered providers with their ids, in the order registered.
    pub closed spec fn spec_entries(&self) -> Seq<(String, P)> {
        self.providers@
    }

    /// The ids of the registered providers.
    pub open spec fn spec_ids(&self) -> Seq<Seq<char>> {
        entry_ids(self.spec_entries())
    }

    /// The id of the active provider; empty when none was chosen.
    pub closed spec fn spec_active(&self) -> Seq<char> {
        self.active_provider@
    }

    /// An empty registry.
    pub fn new() -> (r: Self)
        ensures
            r.wf(),
            r.spec_entries().len() == 0,
            r.spec_active().len() == 0,
    {
        ProviderRegistry { providers: Vec::new(), active_provider: String::new() }
    }

    /// Registers `provider` under `id`, replacing one registered under the
    /// same id, and makes it the active one.
    pub fn register(&mut self, id: ProviderId, provider: P)
        requires
            old(self).wf(),
        ensures
            final(self).wf(),
            final(self).spec_active() == id@,
            final(self).spec_entries() == registered(old(self).spec_entries(), id, provider),
    {
        let mut providers = Vec::new();
        std::mem::swap(&mut providers, &mut self.providers);
        let ghost before = providers@;
        assert(before == old(self).providers@);
        match entry_position(&providers, id.as_str()) {
            Some(k) => {
                providers.set(k, (id.clone(), provider));
                assert(entry_ids(providers@) =~= entry_ids(before));
                assert(entry_ids(providers@)[k as int] == id@);
            },
            None => {
                providers.push((id.clone(), provider));
                assert(entry_ids(providers@) =~= entry_ids(before).push(id@));
                assert(entry_ids(providers@)[before.len() as int] == id@);
            },
        }
        self.active_provider = String::new();
        self.providers = providers;
        self.active_provider = id;
    }

    /// Removes the provider registered under `id` and hands it back. Where it
    /// was the active one, the first remaining provider becomes active, or
    /// none.
    pub fn unregister(&mut self, id: &ProviderId) -> (r: Option<P>)
        requires
            old(self).wf(),
        ensures
            final(self).wf(),
            match first_key(old(self).spec_ids(), id@) {
                Some(k) => {
                    &&& r == Some(old(self).spec_entries()[k].1)
                    &&& final(self).spec_entries() == old(self).spec_entries().remove(k)
                },
                None => r is None && final(self).spec_entries() == old(self).spec_entries(),
            },
            old(self).spec_active() == id@ ==> final(self).spec_active() == if final(self).spec_entries().len() > 0 {
                final(self).spec_entries()[0].0@
            } else {
                Seq::<char>::empty()
            },
            old(self).spec_active() != id@ ==> final(self).spec_active() == old(self).spec_active(),
    {
        let mut providers = Vec::new();
        std::mem::swap(&mut providers, &mut self.providers);
        let ghost before = providers@;
        assert(before == old(self).providers@);
        let removed = match entry_position(&providers, id.as_str()) {
            Some(k) => {
                let (_, p) = providers.remove(k);
                proof {
                    let ids = entry_ids(before);
                    assert(entry_ids(providers@) =~= ids.remove(k as int));
                    assert forall|a: int, b: int| 0 <= a < b < entry_ids(providers@).len() implies #[trigger] entry_ids(
                        providers@,
                    )[a] != #[trigger] entry_ids(providers@)[b] by {
                        if a < k {
                            if b < k {
                                assert(ids[a] != ids[b]);
                            } else {
                                assert(ids[a] != ids[b + 1]);
                            }
                        } else {
                            assert(ids[a + 1] != ids[b + 1]);
                        }
                    }
                }
                Some(p)
            },
            None => None,
        };
        let was_active = same_text(self.active_provider.as_str(), id.as_str());
        if was_active {
            self.active_provider = String::new();
        }
        self.providers = providers;
        if was_active {
            if self.providers.len() > 0 {
                self.active_provider = self.providers[0].0.clone();
                proof {
                    assert(entry_ids(self.providers@)[0] == self.active_provider@);
                }
            }
        } else {
            proof {
                if self.active_provider@.len() > 0 {
                    let ids = entry_ids(before);
                    let j = choose|j: int| 0 <= j < ids.len() && ids[j] == self.active_provider@;
                    match first_key(ids, id@) {
                        Some(k) => {
                            if j < k {
                                assert(entry_ids(self.providers@)[j] == self.active_provider@);
                            } else {
                                assert(j != k);
                                assert(entry_ids(self.providers@)[j - 1] == self.active_provider@);
                            }
                        },
                        None => {
                            assert(entry_ids(self.providers@)[j] == self.active_provider@);
                        },
                    }
                }
            }
        }
        removed
    }

    /// The provider registered under `id`.
    pub fn get(&self, id: &ProviderId) -> (r: Option<&P>)
        ensures
            match first_key(self.spec_ids(), id@) {
                Some(k) => r == Some(&self.spec_entries()[k].1),
                None => r is None,
            },
    {
        match entry_position(&self.providers, id.as_str()) {
            Some(k) => Some(&self.providers[k].1),
            None => None,
        }
    }

    /// The provider registered under `id`, to be changed in place.
    pub fn get_mut(&mut self, id: &ProviderId) -> (r: Option<&mut P>)
        ensures
            final(self).spec_active() == old(self).spec_active(),
            final(self).spec_ids() == old(self).spec_ids(),
            match first_key(old(self).spec_ids(), id@) {
                Some(k) => r matches Some(p) && *p == old(self).spec_entries()[k].1 && final(self).spec_entries()
                    == old(self).spec_entries().update(k, (old(self).spec_entries()[k].0, *final(p))),
                None => r is None && final(self).spec_entries() == old(self).spec_entries(),
            },
    {
        match entry_position(&self.providers, id.as_str()) {
            Some(k) => {
                proof {
                    lemma_update_keeps_ids(self.providers@, k as int);
                }
                Some(&mut self.providers[k].1)
            },
            None => None,
        }
    }

    /// Whether an active provider is chosen.
    pub fn has_active(&self) -> (b: bool)
        ensures
            b == (self.spec_active().len() > 0),
    {
        !self.active_provider.as_str().is_empty()
    }

    /// The active provider; one must have been chosen.
    pub fn active(&self) -> (r: &P)
        requires
            self.wf(),
            self.spec_active().len() > 0,
        ensures
            first_key(self.spec_ids(), self.spec_active()) matches Some(k) && *r == self.spec_entries()[k].1,
    {
        match entry_position(&self.providers, self.active_provider.as_str()) {
            Some(k) => &self.providers[k].1,
            None => {
                assert(false);
                &self.providers[0].1
            },
        }
    }

    /// The active provider, to be changed in place; one must have been chosen.
    pub fn active_mut(&mut self) -> (r: &mut P)
        requires
            old(self).wf(),
            old(self).spec_active().len() > 0,
        ensures
            final(self).spec_active() == old(self).spec_active(),
            final(self).spec_ids() == old(self).spec_ids(),
            first_key(old(self).spec_ids(), old(self).spec_active()) matches Some(k) && *r == old(self).spec_entries()[k].1
                && final(self).spec_entries() == old(self).spec_entries().update(
                k,
                (old(self).spec_entries()[k].0, *final(r)),
            ),
    {
        match entry_position(&self.providers, self.active_provider.as_str()) {
            Some(k) => {
                proof {
                    lemma_update_keeps_ids(self.providers@, k as int);
                }
                &mut self.providers[k].1
            },
            None => {
                assert(false);
                &mut self.providers[0].1
            },
        }
    }

    /// The id of the active provider; empty when none was chosen.
    pub fn active_id(&self) -> (r: &ProviderId)
        ensures
            r@ == self.spec_active(),
    {
        &self.active_provider
    }

    /// Makes the provider under `id` the active one; an unknown id is refused.
    pub fn set_active(&mut self, id: &ProviderId) -> (r: Result<()>)
        requires
            old(self).wf(),
        ensures
            final(self).wf(),
            final(self).spec_entries() == old(self).spec_entries(),
            old(self).spec_ids().contains(id@) ==> r is Ok && final(self).spec_active() == id@,
            !old(self).spec_ids().contains(id@) ==> final(self).spec_active() == old(self).spec_active() && (r matches Err(
                SymphonyError::NotFound(m),
            ) && m@ == "Provider '"@ + id@ + "' not found"@),
    {
        match entry_position(&self.providers, id.as_str()) {
            Some(k) => {
                proof {
                    assert(entry_ids(self.providers@)[k as int] == id@);
                }
                self.active_provider = id.clone();
                Ok(())
            },
            None => {
                let mut m = String::from_str("Provider '");
                m.append(id.as_str());
                m.append("' not found");
                Err(SymphonyError::not_found(m))
            },
        }
    }

    /// The registered providers, in the order registered.
    pub fn list(&self) -> (r: Vec<&P>)
        ensures
            r@.len() == self.spec_entries().len(),
            forall|k: int| 0 <= k < r@.len() ==> *#[trigger] r@[k] == self.spec_entries()[k].1,
    {
        let mut out: Vec<&P> = Vec::new();
        let mut i: usize = 0;
        while i < self.providers.len()
            invariant
                i <= self.providers@.len(),
                out@.len() == i,
                forall|k: int| 0 <= k < i ==> *#[trigger] out@[k] == self.providers@[k].1,
            decreases self.providers@.len() - i,
        {
            out.push(&self.providers[i].1);
            i = i + 1;
        }
        out
    }

    /// The ids of the registered providers, in the order registered.
    pub fn list_ids(&self) -> (r: Vec<ProviderId>)
        ensures
            r@.len() == self.spec_ids().len(),
            forall|k: int| 0 <= k < r@.len() ==> #[trigger] r@[k]@ == self.spec_ids()[k],
    {
        let mut out: Vec<ProviderId> = Vec::new();
        let mut i: usize = 0;
        while i < self.providers.len()
            invariant
                i <= self.providers@.len(),
                out@.len() == i,
                forall|k: int| 0 <= k < i ==> #[trigger] out@[k]@ == self.providers@[k].0@,
            decreases self.providers@.len() - i,
        {
            out.push(self.providers[i].0.clone());
            i = i + 1;
        }
        out
    }

    /// Whether a provider is registered under `id`.
    pub fn has_provider(&self, id: &ProviderId) -> (b: bool)
        ensures
            b == self.spec_ids().contains(id@),
    {
        match entry_position(&self.providers, id.as_str()) {
            Some(k) => {
                assert(self.spec_ids()[k as int] == id@);
                true
            },
            None => false,
        }
    }

    /// How many providers are registered.
    pub fn len(&self) -> (n: usize)
        ensures
            n == self.spec_entries().len(),
    {
        self.providers.len()
    }
}

/// Changing what an entry holds keeps the ids.
proof fn lemma_update_keeps_ids<P>(entries: Seq<(String, P)>, k: int)
    requires
        0 <= k < entries.len(),
    ensures
        forall|x: P| #[trigger] entry_ids(entries.update(k, (entries[k].0, x))) == entry_ids(entries),
{
    assert forall|x: P| #[trigger] entry_ids(entries.update(k, (entries[k].0, x))) == entry_ids(entries) by {
        assert(entry_ids(entries.update(k, (entries[k].0, x))) =~= entry_ids(entries));
    }
}

/// Where `register` puts a provider: in the place of one with the same id,
/// or last.
pub open spec fn registered<P>(entries: Seq<(String, P)>, id: String, provider: P) -> Seq<(String, P)> {
    match first_key(entry_ids(entries), id@) {
        Some(k) => entries.update(k, (id, provider)),
        None => entries.push((id, provider)),
    }
}

/// What is registered under an id is what a lookup of that id finds.
pub proof fn lemma_register_then_get<P>(entries: Seq<(String, P)>, id: String, provider: P)
    requires
        distinct(entry_ids(entries)),
    ensures
        first_key(entry_ids(registered(entries, id, provider)), id@) matches Some(k) && registered(entries, id, provider)[k]
            == (id, provider),
{
    let ids = entry_ids(entries);
    crate::provider::local::lemma_first_key_facts(ids, id@);
    let n = registered(entries, id, provider);
    match first_key(ids, id@) {
        Some(k) => {
            assert(entry_ids(n) =~= ids);
            crate::provider::local::lemma_first_key_facts(entry_ids(n), id@);
        },
        None => {
            assert forall|j: int| 0 <= j < entries.len() implies #[trigger] entry_ids(n)[j] != id@ by {
                assert(entry_ids(n)[j] == ids[j]);
            }
            assert(entry_ids(n)[entries.len() as int] == id@);
            lemma_first_entry(entry_ids(n), id@, entries.len() as int);
        },
    }
}

/// Once unregistered, an id is no longer registered.
pub proof fn lemma_unregister_forgets<P>(entries: Seq<(String, P)>, id: Seq<char>)
    requires
        distinct(entry_ids(entries)),
    ensures
        match first_key(entry_ids(entries), id) {
            Some(k) => !entry_ids(entries.remove(k)).contains(id),
            None => !entry_ids(entries).contains(id),
        },
{
    let ids = entry_ids(entries);
    crate::provider::local::lemma_first_key_facts(ids, id);
    match first_key(ids, id) {
        Some(k) => {
            let rest = entries.remove(k);
            assert forall|j: int| 0 <= j < rest.len() implies #[trigger] entry_ids(rest)[j] != id by {
                if j < k {
                    assert(entry_ids(rest)[j] == ids[j]);
                } else {
                    assert(entry_ids(rest)[j] == ids[j + 1]);
                    assert(ids[k] != ids[j + 1]);
                }
            }
        },
        None => {},
    }
}

} // verus!
