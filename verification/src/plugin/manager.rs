//! The plugins that are loaded, in the order they were registered, each
//! under its id; and the two plugins that come with the player.

use vstd::prelude::*;
use vstd::string::*;

use crate::errors::{Result, SymphonyError};
use crate::plugin::traits::PluginCategory;
use crate::provider::catalog::same_text;
use crate::provider::local::first_key;
use crate::provider::registry::distinct;

verus! {

/// The ids of loaded plugins.
pub open spec fn plugin_ids<P>(entries: Seq<(String, PluginCategory, P)>) -> Seq<Seq<char>> {
    Seq::new(entries.len(), |k: int| entries[k].0@)
}

/// The plugins of a category, in order.
pub open spec fn of_category<P>(entries: Seq<(String, PluginCategory, P)>, c: PluginCategory) -> Seq<P>
    decreases entries.len(),
{
    if entries.len() == 0 {
        Seq::<P>::empty()
    } else {
        let prev = of_category(entries.drop_last(), c);
        if entries.last().1 == c {
            prev.push(entries.last().2)
        } else {
            prev
        }
    }
}

fn plugin_position<P>(entries: &Vec<(String, PluginCategory, P)>, id: &str) -> (r: Option<usize>)
    ensures
        match r {
            Some(k) => k < entries@.len() && entries@[k as int].0@ == id@ && first_key(plugin_ids(entries@), id@)
                == Some(k as int),
            None => !plugin_ids(entries@).contains(id@) && first_key(plugin_ids(entries@), id@) is None,
        },
{
    let mut i: usize = 0;
    while i < entries.len()
        invariant
            i <= entries@.len(),
            forall|j: int| 0 <= j < i ==> #[trigger] entries@[j].0@ != id@,
        decreases entries@.len() - i,
    {
        if same_text(entries[i].0.as_str(), id) {
            proof {
                crate::provider::registry::lemma_first_entry(plugin_ids(entries@), id@, i as int);
            }
            return Some(i);
        }
        i = i + 1;
    }
    proof {
        assert forall|j: int| 0 <= j < plugin_ids(entries@).len() implies #[trigger] plugin_ids(entries@)[j] != id@ by {
            assert(entries@[j].0@ != id@);
        }
        crate::provider::registry::lemma_no_entry(plugin_ids(entries@), id@);
    }
    None
}

/// Changing the plugin an entry holds keeps the ids.
proof fn lemma_update_keeps_plugin_ids<P>(entries: Seq<(String, PluginCategory, P)>, k: int)
    requires
        0 <= k < entries.len(),
    ensures
        forall|x: P| #[trigger] plugin_ids(entries.update(k, (entries[k].0, entries[k].1, x))) == plugin_ids(entries),
{
    assert forall|x: P| #[trigger] plugin_ids(entries.update(k, (entries[k].0, entries[k].1, x))) == plugin_ids(entries) by {
        assert(plugin_ids(entries.update(k, (entries[k].0, entries[k].1, x))) =~= plugin_ids(entries));
    }
}

/// The loaded plugins with their ids and categories, in the order loaded.
pub struct PluginManager<P> {
    plugins: Vec<(String, PluginCategory, P)>,
}

impl<P> PluginManager<P> {
    pub closed spec fn spec_entries(&self) -> Seq<(String, PluginCategory, P)> {
        self.plugins@
    }

    pub open spec fn spec_ids(&self) -> Seq<Seq<char>> {
        plugin_ids(self.spec_entries())
    }

    /// No id is loaded twice.
    pub open spec fn wf(&self) -> bool {
        distinct(self.spec_ids())
    }

    /// No plugin loaded yet.
    pub fn new() -> (m: Self)
        ensures
            m.wf(),
            m.spec_entries().len() == 0,
    {
        PluginManager { plugins: Vec::new() }
    }

    /// Loads a plugin under its id and category, after those loaded before;
    /// an id that is loaded already is refused and nothing changes.
    pub fn register(&mut self, id: String, category: PluginCategory, plugin: P) -> (r: Result<()>)
        requires
            old(self).wf(),
        ensures
            final(self).wf(),
            !old(self).spec_ids().contains(id@) ==> r is Ok && final(self).spec_entries() == old(self).spec_entries().push(
                (id, category, plugin),
            ),
            old(self).spec_ids().contains(id@) ==> final(self).spec_entries() == old(self).spec_entries() && (r matches Err(
                SymphonyError::Plugin(m),
            ) && m@ == "Plugin already registered: "@ + id@),
    {
        match plugin_position(&self.plugins, id.as_str()) {
            Some(k) => {
                assert(plugin_ids(self.plugins@)[k as int] == id@);
                let mut m = String::from_str("Plugin already registered: ");
                m.append(id.as_str());
                Err(SymphonyError::plugin(m))
            },
            None => {
                let ghost before = self.plugins@;
                self.plugins.push((id, category, plugin));
                proof {
                    assert(plugin_ids(self.plugins@) =~= plugin_ids(before).push(id@));
                }
                Ok(())
            },
        }
    }

    /// Unloads the plugin under `id` and hands it back.
    pub fn unregister(&mut self, id: &str) -> (r: Option<P>)
        requires
            old(self).wf(),
        ensures
            final(self).wf(),
            match first_key(old(self).spec_ids(), id@) {
                Some(k) => r == Some(old(self).spec_entries()[k].2) && final(self).spec_entries() == old(
                    self,
                ).spec_entries().remove(k),
                None => r is None && final(self).spec_entries() == old(self).spec_entries(),
            },
    {
        match plugin_position(&self.plugins, id) {
            Some(k) => {
                let ghost before = self.plugins@;
                let (_, _, p) = self.plugins.remove(k);
                proof {
                    let ids = plugin_ids(before);
                    assert(plugin_ids(self.plugins@) =~= ids.remove(k as int));
                    assert forall|a: int, b: int| 0 <= a < b < plugin_ids(self.plugins@).len() implies #[trigger] plugin_ids(
                        self.plugins@,
                    )[a] != #[trigger] plugin_ids(self.plugins@)[b] by {
                        if a < k {
                            if b < k {
                                assert(ids[a] != ids[b]);
                            } else {
                                assert(ids[a] != ids[b + 1]);
                            }
                        } else {
                            assert(ids[a + 1] != ids[b + 1]);
                        }
                    }
                }
                Some(p)
            },
            None => None,
        }
    }

    /// The plugin under `id`.
    pub fn get(&self, id: &str) -> (r: Option<&P>)
        ensures
            match first_key(self.spec_ids(), id@) {
                Some(k) => r == Some(&self.spec_entries()[k].2),
                None => r is None,
            },
    {
        match plugin_position(&self.plugins, id) {
            Some(k) => Some(&self.plugins[k].2),
            None => None,
        }
    }

    /// The plugin under `id`, to be changed in place.
    pub fn get_mut(&mut self, id: &str) -> (r: Option<&mut P>)
        ensures
            final(self).spec_ids() == old(self).spec_ids(),
            match first_key(old(self).spec_ids(), id@) {
                Some(k) => r matches Some(p) && *p == old(self).spec_entries()[k].2 && final(self).spec_entries()
                    == old(self).spec_entries().update(
                    k,
                    (old(self).spec_entries()[k].0, old(self).spec_entries()[k].1, *final(p)),
                ),
                None => r is None && final(self).spec_entries() == old(self).spec_entries(),
            },
    {
        match plugin_position(&self.plugins, id) {
            Some(k) => {
                proof {
                    lemma_update_keeps_plugin_ids(self.plugins@, k as int);
                }
                Some(&mut self.plugins[k].2)
            },
            None => None,
        }
    }

    /// The plugin at a place of the loading order, to be changed.
    pub fn plugin_at_mut(&mut self, index: usize) -> (p: &mut P)
        requires
            index < old(self).spec_entries().len(),
        ensures
            *p == old(self).spec_entries()[index as int].2,
            final(self).spec_entries() == old(self).spec_entries().update(
                index as int,
                (old(self).spec_entries()[index as int].0, old(self).spec_entries()[index as int].1, *final(p)),
            ),
    {
        &mut self.plugins[index].2
    }

    /// The loaded plugins, in the order loaded.
    pub fn list(&self) -> (r: Vec<&P>)
        ensures
            r@.len() == self.spec_entries().len(),
            forall|k: int| 0 <= k < r@.len() ==> *#[trigger] r@[k] == self.spec_entries()[k].2,
    {
        let mut out: Vec<&P> = Vec::new();
        let mut i: usize = 0;
        while i < self.plugins.len()
            invariant
                i <= self.plugins@.len(),
                out@.len() == i,
                forall|k: int| 0 <= k < i ==> *#[trigger] out@[k] == self.plugins@[k].2,
            decreases self.plugins@.len() - i,
        {
            out.push(&self.plugins[i].2);
            i = i + 1;
        }
        out
    }

    /// The loaded plugins of a category, in the order loaded.
    pub fn list_by_category(&self, category: PluginCategory) -> (r: Vec<&P>)
        ensures
            r@.len() == of_category(self.spec_entries(), category).len(),
            forall|k: int| 0 <= k < r@.len() ==> *#[trigger] r@[k] == of_category(self.spec_entries(), category)[k],
    {
        let mut out: Vec<&P> = Vec::new();
        let n = self.plugins.len();
        let mut i: usize = 0;
        while i < n
            invariant
                n == self.plugins@.len(),
                i <= n,
                out@.len() == of_category(self.plugins@.take(i as int), category).len(),
                forall|k: int|
                    0 <= k < out@.len() ==> *#[trigger] out@[k] == of_category(self.plugins@.take(i as int), category)[k],
            decreases n - i,
        {
            assert(self.plugins@.take(i as int + 1).drop_last() =~= self.plugins@.take(i as int));
            assert(self.plugins@.take(i as int + 1).last() == self.plugins@[i as int]);
            if self.plugins[i].1 == category {
                out.push(&self.plugins[i].2);
            }
            i = i + 1;
        }
        assert(self.plugins@.take(n as int) =~= self.plugins@);
        out
    }

    /// How many plugins are loaded.
    pub fn loaded_count(&self) -> (n: usize)
        ensures
            n == self.spec_entries().len(),
    {
        self.plugins.len()
    }
}

impl<P> Default for PluginManager<P> {
    fn default() -> (m: Self)
        ensures
            m.wf(),
            m.spec_entries().len() == 0,
    {
        PluginManager::new()
    }
}

/// A plugin that writes the player's lifecycle to the log.
pub struct SimpleLoggerPlugin;

/// A plugin that counts ticks.
pub struct TickCounterPlugin {
    tick_count: u64,
}

impl TickCounterPlugin {
    pub closed spec fn spec_ticks(&self) -> nat {
        self.tick_count as nat
    }

    /// No tick counted yet.
    pub fn new() -> (p: Self)
        ensures
            p.spec_ticks() == 0,
    {
        TickCounterPlugin { tick_count: 0 }
    }

    /// The ticks counted.
    pub fn ticks(&self) -> (n: u64)
        ensures
            n == self.spec_ticks(),
    {
        self.tick_count
    }

    /// Starts counting afresh, as when the player is ready.
    pub fn reset(&mut self)
        ensures
            final(self).spec_ticks() == 0,
    {
        self.tick_count = 0;
    }

    /// Counts a tick; says whether the count reached a multiple of 1000,
    /// which is worth a line in the log.
    pub fn count_tick(&mut self) -> (report: bool)
        requires
            old(self).spec_ticks() < u64::MAX,
        ensures
            final(self).spec_ticks() == old(self).spec_ticks() + 1,
            report == (final(self).spec_ticks() % 1000 == 0),
    {
        self.tick_count = self.tick_count + 1;
        self.tick_count % 1000 == 0
    }
}

impl Default for TickCounterPlugin {
    fn default() -> (p: Self)
        ensures
            p.spec_ticks() == 0,
    {
        TickCounterPlugin::new()
    }
}

/// A plugin loaded under a new id is what a lookup of that id finds.
pub proof fn lemma_register_then_get<P>(
    entries: Seq<(String, PluginCategory, P)>,
    id: String,
    category: PluginCategory,
    plugin: P,
)
    requires
        !plugin_ids(entries).contains(id@),
    ensures
        first_key(plugin_ids(entries.push((id, category, plugin))), id@) == Some(entries.len() as int),
{
    let n = entries.push((id, category, plugin));
    assert forall|j: int| 0 <= j < entries.len() implies #[trigger] plugin_ids(n)[j] != id@ by {
        assert(plugin_ids(n)[j] == plugin_ids(entries)[j]);
    }
    crate::provider::registry::lemma_first_entry(plugin_ids(n), id@, entries.len() as int);
}

} // verus!
