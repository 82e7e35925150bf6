//! When two agents are the same: maps and sets are compared whatever the order of their entries.

use vstd::prelude::*;

use crate::agents::{Agent, AgentHooks, CustomToolConfig};
use crate::hook::Hook;
use crate::name_map::NameMap;
use crate::text::{list_contains, same_text, texts};

verus! {

/// Values that can be compared by what they hold.
pub trait Alike: Sized {
    /// Whether two values hold the same.
    spec fn alike(&self, other: &Self) -> bool;

    /// Whether two values hold the same.
    fn is_alike(&self, other: &Self) -> (res: bool)
        ensures
            res == self.alike(other),
    ;
}

impl Alike for String {
    open spec fn alike(&self, other: &Self) -> bool {
        self@ == other@
    }

    fn is_alike(&self, other: &Self) -> (res: bool) {
        same_text(self.as_str(), other.as_str())
    }
}

impl<T: Alike> Alike for Option<T> {
    open spec fn alike(&self, other: &Self) -> bool {
        match (self, other) {
            (Some(a), Some(b)) => a.alike(b),
            (None, None) => true,
            _ => false,
        }
    }

    fn is_alike(&self, other: &Self) -> (res: bool) {
        match (self, other) {
            (Some(a), Some(b)) => a.is_alike(b),
            (None, None) => true,
            _ => false,
        }
    }
}

impl<T: Alike> Alike for Vec<T> {
    open spec fn alike(&self, other: &Self) -> bool {
        &&& self@.len() == other@.len()
        &&& forall|i: int| 0 <= i < self@.len() ==> (#[trigger] self@[i]).alike(&other@[i])
    }

    fn is_alike(&self, other: &Self) -> (res: bool) {
        if self.len() != other.len() {
            return false;
        }
        let mut i: usize = 0;
        while i < self.len()
            invariant
                i <= self@.len(),
                self@.len() == other@.len(),
                forall|j: int| 0 <= j < i ==> (#[trigger] self@[j]).alike(&other@[j]),
            decreases self@.len() - i,
        {
            if !self[i].is_alike(&other[i]) {
                assert(!self@[i as int].alike(&other@[i as int]));
                return false;
            }
            i += 1;
        }
        true
    }
}

/// Whether each entry of a map has an entry of the same name in another one, which holds the same.
pub open spec fn is_within<V: Alike>(a: Map<Seq<char>, V>, b: Map<Seq<char>, V>) -> bool {
    forall|k: Seq<char>| #[trigger] a.contains_key(k) ==> b.contains_key(k) && a[k].alike(&b[k])
}

/// Whether each name of a map is one of another map.
pub open spec fn has_names_of<V>(b: Map<Seq<char>, V>, a: Map<Seq<char>, V>) -> bool {
    forall|k: Seq<char>| #[trigger] a.contains_key(k) ==> b.contains_key(k)
}

fn within<V: Alike>(a: &NameMap<V>, b: &NameMap<V>) -> (res: bool)
    ensures
        res == is_within(a@, b@),
{
    let ghost keys = a.keys();
    proof {
        a.lemma_lookup();
    }
    let mut i: usize = 0;
    while i < a.len()
        invariant
            i <= keys.len(),
            keys == a.keys(),
            forall|k: Seq<char>| #[trigger] a@.contains_key(k) <==> keys.contains(k),
            forall|j: int|
                0 <= j < i ==> b@.contains_key(#[trigger] keys[j]) && a@[keys[j]].alike(&b@[keys[j]]),
        decreases keys.len() - i,
    {
        let name: &str = a.key_at(i);
        assert(keys.contains(name@));
        assert(a@.contains_key(name@));
        match (a.get(name), b.get(name)) {
            (Some(x), Some(y)) => {
                if !x.is_alike(y) {
                    return false;
                }
            },
            _ => {
                return false;
            },
        }
        i += 1;
    }
    proof {
        assert forall|k: Seq<char>| #[trigger] a@.contains_key(k) implies b@.contains_key(k) && a@[k].alike(
            &b@[k],
        ) by {
            assert(keys.contains(k));
            let j = choose|j: int| 0 <= j < keys.len() && keys[j] == k;
            assert(b@.contains_key(keys[j]));
        }
    }
    true
}

fn names_within<V>(a: &NameMap<V>, b: &NameMap<V>) -> (res: bool)
    ensures
        res == has_names_of(b@, a@),
{
    let ghost keys = a.keys();
    proof {
        a.lemma_lookup();
    }
    let mut i: usize = 0;
    while i < a.len()
        invariant
            i <= keys.len(),
            keys == a.keys(),
            forall|k: Seq<char>| #[trigger] a@.contains_key(k) <==> keys.contains(k),
            forall|j: int| 0 <= j < i ==> b@.contains_key(#[trigger] keys[j]),
        decreases keys.len() - i,
    {
        let name: &str = a.key_at(i);
        assert(keys.contains(name@));
        assert(a@.contains_key(name@));
        if !b.contains_key(name) {
            return false;
        }
        i += 1;
    }
    proof {
        assert forall|k: Seq<char>| #[trigger] a@.contains_key(k) implies b@.contains_key(k) by {
            assert(keys.contains(k));
            let j = choose|j: int| 0 <= j < keys.len() && keys[j] == k;
            assert(b@.contains_key(keys[j]));
        }
    }
    true
}

impl<V: Alike> Alike for NameMap<V> {
    open spec fn alike(&self, other: &Self) -> bool {
        is_within(self@, other@) && has_names_of(self@, other@)
    }

    fn is_alike(&self, other: &Self) -> (res: bool) {
        within(self, other) && names_within(other, self)
    }
}

/// Whether two lists hold the same texts, whatever their order.
pub open spec fn same_members(a: Seq<Seq<char>>, b: Seq<Seq<char>>) -> bool {
    forall|t: Seq<char>| #[trigger] a.contains(t) <==> b.contains(t)
}

fn all_in(a: &Vec<String>, b: &Vec<String>) -> (res: bool)
    ensures
        res == forall|t: Seq<char>| #[trigger]
            texts(a@).contains(t) ==> texts(b@).contains(t),
{
    let ghost ts = texts(a@);
    let mut i: usize = 0;
    while i < a.len()
        invariant
            i <= a@.len(),
            ts == texts(a@),
            forall|j: int| 0 <= j < i ==> texts(b@).contains(#[trigger] ts[j]),
        decreases a@.len() - i,
    {
        assert(ts[i as int] == a@[i as int]@);
        if !list_contains(b, a[i].as_str()) {
            assert(ts.contains(a@[i as int]@));
            return false;
        }
        i += 1;
    }
    true
}

fn have_same_members(a: &Vec<String>, b: &Vec<String>) -> (res: bool)
    ensures
        res == same_members(texts(a@), texts(b@)),
{
    all_in(a, b) && all_in(b, a)
}

impl Alike for Hook {
    open spec fn alike(&self, other: &Self) -> bool {
        &&& self.trigger == other.trigger
        &&& self.command.alike(&other.command)
        &&& self.disabled == other.disabled
        &&& self.options.alike(&other.options)
        &&& self.name.alike(&other.name)
        &&& self.is_global == other.is_global
    }

    fn is_alike(&self, other: &Self) -> (res: bool) {
        self.trigger == other.trigger && self.command.is_alike(&other.command) && self.disabled
            == other.disabled && self.options.is_alike(&other.options) && self.name.is_alike(
            &other.name,
        ) && self.is_global == other.is_global
    }
}

impl Alike for CustomToolConfig {
    open spec fn alike(&self, other: &Self) -> bool {
        &&& self.command.alike(&other.command)
        &&& self.args.alike(&other.args)
        &&& self.env.alike(&other.env)
        &&& self.options.alike(&other.options)
    }

    fn is_alike(&self, other: &Self) -> (res: bool) {
        self.command.is_alike(&other.command) && self.args.is_alike(&other.args) && self.env.is_alike(
            &other.env,
        ) && self.options.is_alike(&other.options)
    }
}

impl Alike for AgentHooks {
    open spec fn alike(&self, other: &Self) -> bool {
        match (self, other) {
            (AgentHooks::Absent, AgentHooks::Absent) => true,
            (AgentHooks::Commands(a), AgentHooks::Commands(b)) => a.alike(b),
            (AgentHooks::Named(a), AgentHooks::Named(b)) => a.alike(b),
            (AgentHooks::Malformed(a), AgentHooks::Malformed(b)) => a.alike(b),
            _ => false,
        }
    }

    fn is_alike(&self, other: &Self) -> (res: bool) {
        match (self, other) {
            (AgentHooks::Absent, AgentHooks::Absent) => true,
            (AgentHooks::Commands(a), AgentHooks::Commands(b)) => a.is_alike(b),
            (AgentHooks::Named(a), AgentHooks::Named(b)) => a.is_alike(b),
            (AgentHooks::Malformed(a), AgentHooks::Malformed(b)) => a.is_alike(b),
            _ => false,
        }
    }
}

impl Alike for Agent {
    open spec fn alike(&self, other: &Self) -> bool {
        &&& self.name.alike(&other.name)
        &&& self.description.alike(&other.description)
        &&& self.prompt.alike(&other.prompt)
        &&& self.mcp_servers.mcp_servers.alike(&other.mcp_servers.mcp_servers)
        &&& self.tools.alike(&other.tools)
        &&& self.alias.alike(&other.alias)
        &&& same_members(texts(self.allowed_tools@), texts(other.allowed_tools@))
        &&& self.included_files.alike(&other.included_files)
        &&& self.create_hooks.alike(&other.create_hooks)
        &&& self.prompt_hooks.alike(&other.prompt_hooks)
        &&& self.tools_settings.alike(&other.tools_settings)
        &&& self.path.alike(&other.path)
    }

    fn is_alike(&self, other: &Self) -> (res: bool) {
        self.name.is_alike(&other.name) && self.description.is_alike(&other.description)
            && self.prompt.is_alike(&other.prompt) && self.mcp_servers.mcp_servers.is_alike(
            &other.mcp_servers.mcp_servers,
        ) && self.tools.is_alike(&other.tools) && self.alias.is_alike(&other.alias) && have_same_members(
            &self.allowed_tools,
            &other.allowed_tools,
        ) && self.included_files.is_alike(&other.included_files) && self.create_hooks.is_alike(
            &other.create_hooks,
        ) && self.prompt_hooks.is_alike(&other.prompt_hooks) && self.tools_settings.is_alike(
            &other.tools_settings,
        ) && self.path.is_alike(&other.path)
    }
}

} // verus!
