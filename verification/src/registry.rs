//! The plugin registry: the shared structure that owns the routing table and
//! the name-to-(descriptor, handler) map, and resolves a request path to the
//! plugin that should serve it.
//!
//! Handlers themselves are opaque to this core: the registry stores a caller
//! supplied handle (`u64`) for each plugin, and the surrounding runtime keeps
//! the live handler instance under that handle. Registration replaces both
//! the descriptor and the handle of an existing name as one unit, so a lookup
//! never observes a pair mixing an old descriptor with a new handler.

use crate::plugin::{clone_bytes, Plugin, PluginView};
use crate::routes::{prefix_matches, spec_find, RouteTable};
use vstd::pervasive::VecAdditionalExecFns;
use vstd::prelude::*;

verus! {

/// The mathematical value of the registry: the routing entries in insertion
/// order, and the plugin map as a sequence of (descriptor, handler handle)
/// pairs with pairwise distinct names.
pub struct RegistryView {
    pub routes: Seq<(Seq<u8>, Seq<u8>)>,
    pub plugins: Seq<(PluginView, u64)>,
}

/// The view of the concrete plugin vector.
pub open spec fn plugins_view(plugins: Seq<(Plugin, u64)>) -> Seq<(PluginView, u64)> {
    plugins.map_values(|e: (Plugin, u64)| (e.0@, e.1))
}

/// The index of the first (with distinct names: the only) entry named `name`.
pub open spec fn spec_plugin_index(plugins: Seq<(PluginView, u64)>, name: Seq<u8>) -> Option<int>
    decreases plugins.len(),
{
    if plugins.len() == 0 {
        None
    } else if plugins.first().0.name == name {
        Some(0int)
    } else {
        match spec_plugin_index(plugins.drop_first(), name) {
            None => None,
            Some(i) => Some(i + 1),
        }
    }
}

/// The (descriptor, handle) pair stored under `name`, if any.
pub open spec fn spec_plugin_at(plugins: Seq<(PluginView, u64)>, name: Seq<u8>) -> Option<
    (PluginView, u64),
> {
    match spec_plugin_index(plugins, name) {
        None => None,
        Some(i) => Some(plugins[i]),
    }
}

/// No two stored plugins share a name.
pub open spec fn names_distinct(plugins: Seq<(PluginView, u64)>) -> bool {
    forall|i: int, j: int|
        0 <= i < j < plugins.len() ==> plugins[i].0.name != plugins[j].0.name
}

/// What one registration does to the plugin map: replace the entry with the
/// same name if there is one, append a fresh entry otherwise.
pub open spec fn spec_register(
    plugins: Seq<(PluginView, u64)>,
    p: PluginView,
    h: u64,
) -> Seq<(PluginView, u64)> {
    match spec_plugin_index(plugins, p.name) {
        None => plugins.push((p, h)),
        Some(i) => plugins.update(i, (p, h)),
    }
}

/// `spec_plugin_index(plugins, name)` is the first index holding `name`, and
/// is `None` exactly when no entry holds `name`.
pub proof fn lemma_plugin_index_props(plugins: Seq<(PluginView, u64)>, name: Seq<u8>)
    ensures
        match spec_plugin_index(plugins, name) {
            None => forall|j: int| 0 <= j < plugins.len() ==> plugins[j].0.name != name,
            Some(i) => 0 <= i < plugins.len() && plugins[i].0.name == name && forall|j: int|
                0 <= j < i ==> plugins[j].0.name != name,
        },
    decreases plugins.len(),
{
    if plugins.len() == 0 {
    } else if plugins.first().0.name == name {
    } else {
        let rest = plugins.drop_first();
        lemma_plugin_index_props(rest, name);
        match spec_plugin_index(rest, name) {
            None => {
                assert forall|j: int| 0 <= j < plugins.len() implies plugins[j].0.name != name by {
                    if j > 0 {
                        assert(rest[j - 1] == plugins[j]);
                        assert(rest[j - 1].0.name != name);
                    }
                }
            },
            Some(i) => {
                assert(rest[i] == plugins[i + 1]);
                assert forall|j: int| 0 <= j < i + 1 implies plugins[j].0.name != name by {
                    if j > 0 {
                        assert(rest[j - 1] == plugins[j]);
                        assert(rest[j - 1].0.name != name);
                    }
                }
            },
        }
    }
}

/// With all names before `i` different from `name` and `plugins[i]` named
/// `name`, the lookup lands exactly on `i`.
pub proof fn lemma_plugin_index_at(plugins: Seq<(PluginView, u64)>, name: Seq<u8>, i: int)
    requires
        0 <= i < plugins.len(),
        plugins[i].0.name == name,
        forall|j: int| 0 <= j < i ==> plugins[j].0.name != name,
    ensures
        spec_plugin_index(plugins, name) == Some(i),
{
    lemma_plugin_index_props(plugins, name);
    match spec_plugin_index(plugins, name) {
        None => {
            assert(false);
        },
        Some(k) => {
            if k < i {
                assert(plugins[k].0.name != name);
            } else if k > i {
                assert(plugins[i].0.name != name);
            }
        },
    }
}

/// The registry. `routes` is the prefix index; `plugins` is the plugin map.
#[derive(Debug)]
pub struct PluginRegistry {
    routes: RouteTable,
    plugins: Vec<(Plugin, u64)>,
}

impl View for PluginRegistry {
    type V = RegistryView;

    closed spec fn view(&self) -> RegistryView {
        RegistryView { routes: self.routes@, plugins: plugins_view(self.plugins@) }
    }
}

impl PluginRegistry {
    /// Well-formedness: plugin names are unique, and every name a routing
    /// entry points at is backed by a plugin map entry, so a routed lookup
    /// never dangles.
    pub open spec fn wf(&self) -> bool {
        &&& names_distinct(self@.plugins)
        &&& forall|i: int|
            0 <= i < self@.routes.len() ==> spec_plugin_at(
                self@.plugins,
                (#[trigger] self@.routes[i]).1,
            ) is Some
    }

    pub fn new() -> (r: Self)
        ensures
            r.wf(),
            r@.routes == Seq::<(Seq<u8>, Seq<u8>)>::empty(),
            r@.plugins == Seq::<(PluginView, u64)>::empty(),
    {
        let r = PluginRegistry { routes: RouteTable::new(), plugins: Vec::new() };
        proof {
            assert(r@.plugins =~= Seq::<(PluginView, u64)>::empty());
        }
        r
    }

    /// The position of `name` in the plugin vector, per `spec_plugin_index`.
    fn plugin_position(plugins: &Vec<(Plugin, u64)>, name: &Vec<u8>) -> (r: Option<usize>)
        ensures
            match r {
                None => spec_plugin_index(plugins_view(plugins@), name@) is None,
                Some(i) => spec_plugin_index(plugins_view(plugins@), name@) == Some(i as int),
            },
    {
        let ghost pv = plugins_view(plugins@);
        let mut i: usize = 0;
        while i < plugins.len()
            invariant
                i <= plugins.len(),
                pv == plugins_view(plugins@),
                pv.len() == plugins@.len(),
                forall|j: int| 0 <= j < i ==> pv[j].0.name != name@,
            decreases plugins.len() - i,
        {
            if bytes_eq(&plugins[i].0.name, name) {
                proof {
                    lemma_plugin_index_at(pv, name@, i as int);
                }
                return Some(i);
            }
            i += 1;
        }
        proof {
            lemma_plugin_index_props(pv, name@);
            if spec_plugin_index(pv, name@) is Some {
                let k = spec_plugin_index(pv, name@)->0;
                assert(pv[k].0.name != name@);
            }
        }
        None
    }

    /// Registers `plugin` under handler handle `handler`: adds the routing
    /// entry for its prefix and replaces-or-inserts the plugin map entry for
    /// its name, as one step.
    pub fn register(&mut self, plugin: Plugin, handler: u64)
        requires
            old(self).wf(),
        ensures
            final(self).wf(),
            final(self)@.routes == old(self)@.routes.push((plugin@.prefix, plugin@.name)),
            final(self)@.plugins == spec_register(old(self)@.plugins, plugin@, handler),
    {
        let ghost old_plugins = self@.plugins;
        let ghost old_routes = self@.routes;
        let prefix = clone_bytes(&plugin.prefix);
        let name = clone_bytes(&plugin.name);
        self.routes.insert(prefix, name);
        let pos = Self::plugin_position(&self.plugins, &plugin.name);
        let ghost p = plugin@;
        proof {
            lemma_plugin_index_props(old_plugins, p.name);
        }
        match pos {
            None => {
                self.plugins.push((plugin, handler));
                proof {
                    assert(self@.plugins =~= old_plugins.push((p, handler)));
                }
            },
            Some(i) => {
                self.plugins.set(i, (plugin, handler));
                proof {
                    assert(self@.plugins =~= old_plugins.update(i as int, (p, handler)));
                }
            },
        }
        proof {
            lemma_register_shape(old_plugins, p, handler);
            assert forall|i: int| 0 <= i < self@.routes.len() implies spec_plugin_at(
                self@.plugins,
                (#[trigger] self@.routes[i]).1,
            ) is Some by {
                lemma_register_lookup(old_plugins, p, handler);
                if i < old_routes.len() {
                    assert(spec_plugin_at(old_plugins, self@.routes[i].1) is Some);
                }
            }
        }
    }

    /// Resolves `path` to the registered plugin owning the longest matching
    /// prefix: the descriptor and handler handle stored under the routed
    /// name. `None` exactly when no registered prefix owns `path`.
    pub fn match_plugin_handler(&self, path: &Vec<u8>) -> (r: Option<(Plugin, u64)>)
        requires
            self.wf(),
        ensures
            r is None <==> spec_find(self@.routes, path@) is None,
            r matches Some(ph) ==> {
                let routed = spec_find(self@.routes, path@)->0;
                &&& prefix_matches(routed.0, path@)
                &&& spec_plugin_at(self@.plugins, routed.1) == Some((ph.0@, ph.1))
                &&& ph.0@.name == routed.1
            },
    {
        match self.routes.find(path) {
            None => None,
            Some((prefix, name)) => {
                proof {
                    crate::routes::lemma_spec_find_in_entries(self@.routes, path@);
                    lemma_plugin_index_props(self@.plugins, name@);
                }
                match Self::plugin_position(&self.plugins, &name) {
                    None => None,
                    Some(i) => {
                        let e = &self.plugins[i];
                        Some((e.0.clone(), e.1))
                    },
                }
            },
        }
    }

    /// The handler handle stored under `name`, if that name is registered.
    /// After a replacing registration this is the new handle, so the caller
    /// can retire the handler the old handle named.
    pub fn handler_of(&self, name: &Vec<u8>) -> (r: Option<u64>)
        ensures
            match spec_plugin_at(self@.plugins, name@) {
                None => r is None,
                Some(e) => r == Some(e.1),
            },
    {
        proof {
            lemma_plugin_index_props(self@.plugins, name@);
        }
        match Self::plugin_position(&self.plugins, name) {
            None => None,
            Some(i) => Some(self.plugins[i].1),
        }
    }

    /// A snapshot of every registered descriptor, in the map's storage order.
    pub fn plugin_list(&self) -> (r: Vec<Plugin>)
        ensures
            r@.len() == self@.plugins.len(),
            forall|i: int| 0 <= i < r@.len() ==> (#[trigger] r@[i])@ == self@.plugins[i].0,
    {
        let mut out: Vec<Plugin> = Vec::new();
        let mut i: usize = 0;
        while i < self.plugins.len()
            invariant
                i <= self.plugins.len(),
                self@.plugins.len() == self.plugins@.len(),
                out@.len() == i,
                forall|j: int| 0 <= j < i ==> (#[trigger] out@[j])@ == self@.plugins[j].0,
            decreases self.plugins.len() - i,
        {
            out.push(self.plugins[i].0.clone());
            i += 1;
        }
        out
    }
}

/// The descriptors held in a plugin map value sequence, in storage order.
pub open spec fn descriptors_of(plugins: Seq<(PluginView, u64)>) -> Seq<PluginView> {
    plugins.map_values(|e: (PluginView, u64)| e.0)
}

/// Law: registering the same name twice leaves exactly the second pair
/// visible. A lookup after the second registration returns the second
/// descriptor together with the second handler, whole — never a pair mixing
/// fields of the two registrations.
pub proof fn lemma_second_registration_wins(
    plugins: Seq<(PluginView, u64)>,
    p1: PluginView,
    h1: u64,
    p2: PluginView,
    h2: u64,
)
    requires
        names_distinct(plugins),
        p2.name == p1.name,
    ensures
        spec_plugin_at(spec_register(spec_register(plugins, p1, h1), p2, h2), p2.name) == Some(
            (p2, h2),
        ),
{
    lemma_register_shape(plugins, p1, h1);
    lemma_register_lookup(spec_register(plugins, p1, h1), p2, h2);
}

/// Law: a registration under a fresh name grows the listing by exactly one
/// entry, appended with the descriptor's name and prefix unchanged, and
/// leaves every already-listed descriptor in place; so after any number of
/// registrations under distinct names the listing holds exactly those
/// descriptors, each as registered.
pub proof fn lemma_fresh_registration_lists(plugins: Seq<(PluginView, u64)>, p: PluginView, h: u64)
    requires
        names_distinct(plugins),
        spec_plugin_at(plugins, p.name) is None,
    ensures
        descriptors_of(spec_register(plugins, p, h)) == descriptors_of(plugins).push(p),
        spec_register(plugins, p, h).len() == plugins.len() + 1,
{
    lemma_plugin_index_props(plugins, p.name);
    lemma_register_shape(plugins, p, h);
    assert(descriptors_of(plugins.push((p, h))) =~= descriptors_of(plugins).push(p));
}

/// Law: a registration takes effect at once and whole. On the registry
/// state a `register(plugin, handler)` call produces, looking up the
/// registered prefix resolves to the registered name, and the plugin map
/// serves exactly the registered descriptor and handler under that name.
pub proof fn lemma_registration_serves_its_prefix(v: RegistryView, p: PluginView, h: u64)
    requires
        names_distinct(v.plugins),
    ensures
        spec_find(v.routes.push((p.prefix, p.name)), p.prefix) == Some((p.prefix, p.name)),
        spec_plugin_at(spec_register(v.plugins, p, h), p.name) == Some((p, h)),
{
    crate::routes::lemma_insert_serves_own_prefix(v.routes, p.prefix, p.name);
    lemma_register_lookup(v.plugins, p, h);
}

/// Compares two byte strings for equality.
pub fn bytes_eq(a: &Vec<u8>, b: &Vec<u8>) -> (r: bool)
    ensures
        r == (a@ == b@),
{
    if a.len() != b.len() {
        return false;
    }
    let mut i: usize = 0;
    while i < a.len()
        invariant
            i <= a.len() == b.len(),
            forall|j: int| 0 <= j < i ==> a@[j] == b@[j],
        decreases a.len() - i,
    {
        if a[i] != b[i] {
            return false;
        }
        i += 1;
    }
    proof {
        assert(a@ =~= b@);
    }
    true
}

/// Registration keeps names distinct and changes the map's length by one
/// exactly when the name is new.
pub proof fn lemma_register_shape(plugins: Seq<(PluginView, u64)>, p: PluginView, h: u64)
    requires
        names_distinct(plugins),
    ensures
        names_distinct(spec_register(plugins, p, h)),
        spec_plugin_at(plugins, p.name) is None ==> spec_register(plugins, p, h).len()
            == plugins.len() + 1,
        spec_plugin_at(plugins, p.name) is Some ==> spec_register(plugins, p, h).len()
            == plugins.len(),
{
    lemma_plugin_index_props(plugins, p.name);
    match spec_plugin_index(plugins, p.name) {
        None => {
            let t = plugins.push((p, h));
            assert forall|i: int, j: int| 0 <= i < j < t.len() implies t[i].0.name
                != t[j].0.name by {
                if j < plugins.len() {
                } else {
                    assert(t[j].0.name == p.name);
                    assert(plugins[i].0.name != p.name);
                }
            }
        },
        Some(k) => {
            let t = plugins.update(k, (p, h));
            assert forall|i: int, j: int| 0 <= i < j < t.len() implies t[i].0.name
                != t[j].0.name by {
                assert(t[i].0.name == plugins[i].0.name);
                assert(t[j].0.name == plugins[j].0.name);
            }
        },
    }
}

/// What a lookup sees after a registration: the registered name now maps to
/// exactly the registered pair, and every other name maps as before.
pub proof fn lemma_register_lookup(plugins: Seq<(PluginView, u64)>, p: PluginView, h: u64)
    requires
        names_distinct(plugins),
    ensures
        spec_plugin_at(spec_register(plugins, p, h), p.name) == Some((p, h)),
        forall|m: Seq<u8>|
            m != p.name ==> #[trigger] spec_plugin_at(spec_register(plugins, p, h), m)
                == spec_plugin_at(plugins, m),
{
    lemma_plugin_index_props(plugins, p.name);
    let t = spec_register(plugins, p, h);
    match spec_plugin_index(plugins, p.name) {
        None => {
            lemma_plugin_index_at(t, p.name, plugins.len() as int);
            assert forall|m: Seq<u8>| m != p.name implies #[trigger] spec_plugin_at(t, m)
                == spec_plugin_at(plugins, m) by {
                lemma_plugin_index_props(plugins, m);
                match spec_plugin_index(plugins, m) {
                    None => {
                        lemma_plugin_index_props(t, m);
                        if spec_plugin_index(t, m) is Some {
                            let k = spec_plugin_index(t, m)->0;
                            assert(t[k].0.name == m);
                            assert(k < plugins.len() || t[k].0.name == p.name);
                        }
                    },
                    Some(i) => {
                        lemma_plugin_index_at(t, m, i);
                    },
                }
            }
        },
        Some(k) => {
            lemma_plugin_index_at(t, p.name, k);
            assert forall|m: Seq<u8>| m != p.name implies #[trigger] spec_plugin_at(t, m)
                == spec_plugin_at(plugins, m) by {
                lemma_plugin_index_props(plugins, m);
                match spec_plugin_index(plugins, m) {
                    None => {
                        lemma_plugin_index_props(t, m);
                        if spec_plugin_index(t, m) is Some {
                            let j = spec_plugin_index(t, m)->0;
                            assert(t[j].0.name == m);
                            assert(j != k);
                            assert(plugins[j].0.name == m);
                        }
                    },
                    Some(i) => {
                        assert(plugins[i].0.name == m);
                        assert(i != k);
                        assert(t[i].0.name == m);
                        assert forall|j: int| 0 <= j < i implies t[j].0.name != m by {
                            if j == k {
                                assert(t[j].0.name == p.name);
                            }
                        }
                        lemma_plugin_index_at(t, m, i);
                    },
                }
            }
        },
    }
}

} // verus!
