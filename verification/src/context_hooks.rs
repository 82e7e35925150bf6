//! The hooks of a context's configurations.

use vstd::prelude::*;

use crate::context::{failure, ConfigText, ContextManager};
use crate::hook::{
    changed_hooks, hook_list, hook_texts, lemma_changed_hooks, lemma_hooks_insert,
    lemma_hooks_remove, Hook, HookText,
};
use crate::name_map::NameMap;

verus! {

/// A hook that is left out, or not.
pub open spec fn with_disabled(disable: bool) -> spec_fn(Seq<char>, HookText) -> HookText {
    |name: Seq<char>, hook: HookText| HookText { disabled: disable, ..hook }
}

/// A hook that knows its name and whose it is.
pub open spec fn with_origin(global: bool) -> spec_fn(Seq<char>, HookText) -> HookText {
    |name: Seq<char>, hook: HookText| HookText { name, is_global: global, ..hook }
}

fn disable_hook(hooks: &mut NameMap<Hook>, name: &str, disable: bool)
    requires
        old(hooks)@.contains_key(name@),
    ensures
        hook_texts(final(hooks)@) == hook_texts(old(hooks)@).insert(
            name@,
            (HookText { disabled: disable, ..hook_texts(old(hooks)@)[name@] }),
        ),
{
    let ghost was = *old(hooks);
    assert(hook_texts(was@).contains_key(name@));
    if let Some(hook) = hooks.get_mut(name) {
        hook.disabled = disable;
    }
    proof {
        lemma_hooks_insert(was@, name@, hooks@[name@]);
    }
}

fn disable_all(hooks: &mut NameMap<Hook>, disable: bool)
    ensures
        hook_texts(final(hooks)@) == changed_hooks(hook_texts(old(hooks)@), with_disabled(disable)),
        final(hooks).keys() == old(hooks).keys(),
{
    let ghost was = *old(hooks);
    let mut i: usize = 0;
    proof {
        was.lemma_lookup();
    }
    while i < hooks.len()
        invariant
            hooks.keys() == was.keys(),
            hooks.values().len() == was.values().len(),
            was.keys().len() == was.values().len(),
            i <= was.values().len(),
            forall|j: int|
                0 <= j < i ==> (#[trigger] hooks.values()[j])@ == with_disabled(disable)(
                    was.keys()[j],
                    was.values()[j]@,
                ),
            forall|j: int| i <= j < was.values().len() ==> #[trigger] hooks.values()[j] == was.values()[j],
        decreases was.values().len() - i,
    {
        let hook = hooks.value_mut_at(i);
        hook.disabled = disable;
        i += 1;
    }
    proof {
        lemma_changed_hooks(was, *hooks, with_disabled(disable));
    }
}

fn mark_all(hooks: &mut NameMap<Hook>, global: bool) -> (res: Vec<Hook>)
    ensures
        hook_texts(final(hooks)@) == changed_hooks(hook_texts(old(hooks)@), with_origin(global)),
        final(hooks).keys() == old(hooks).keys(),
        hook_list(res@) == hook_list(final(hooks).values()),
{
    let ghost was = *old(hooks);
    let mut out: Vec<Hook> = Vec::new();
    let mut i: usize = 0;
    proof {
        was.lemma_lookup();
    }
    while i < hooks.len()
        invariant
            hooks.keys() == was.keys(),
            hooks.values().len() == was.values().len(),
            was.keys().len() == was.values().len(),
            i <= was.values().len(),
            out@.len() == i,
            forall|j: int|
                0 <= j < i ==> (#[trigger] hooks.values()[j])@ == with_origin(global)(
                    was.keys()[j],
                    was.values()[j]@,
                ),
            forall|j: int| i <= j < was.values().len() ==> #[trigger] hooks.values()[j] == was.values()[j],
            forall|j: int| 0 <= j < i ==> (#[trigger] out@[j])@ == hooks.values()[j]@,
        decreases was.values().len() - i,
    {
        let name = String::from_str(hooks.key_at(i));
        let hook = hooks.value_mut_at(i);
        hook.name = name;
        hook.is_global = global;
        let copy = hooks.value_at(i).clone();
        out.push(copy);
        i += 1;
    }
    proof {
        lemma_changed_hooks(was, *hooks, with_origin(global));
        assert(hook_list(out@) =~= hook_list(hooks.values()));
    }
    out
}

impl ContextManager {
    /// Adds a hook. The change is to be saved; where the name is taken nothing changes.
    pub fn add_hook(&mut self, name: String, hook: Hook, global: bool) -> (res: Result<(), String>)
        ensures
            ({
                let config = old(self)@.config(global);
                if config.hooks.contains_key(name@) {
                    &&& failure(res) == Some("name already exists."@)
                    &&& final(self)@ == old(self)@
                } else {
                    &&& res is Ok
                    &&& final(self)@ == old(self)@.with_config(
                        global,
                        (ConfigText { hooks: config.hooks.insert(name@, hook@), ..config }),
                    )
                }
            }),
    {
        if global {
            if self.global_config.hooks.contains_key(name.as_str()) {
                return Err(String::from_str("name already exists."));
            }
            proof {
                lemma_hooks_insert(self.global_config.hooks@, name@, hook);
            }
            self.global_config.hooks.insert(name, hook);
        } else {
            if self.profile_config.hooks.contains_key(name.as_str()) {
                return Err(String::from_str("name already exists."));
            }
            proof {
                lemma_hooks_insert(self.profile_config.hooks@, name@, hook);
            }
            self.profile_config.hooks.insert(name, hook);
        }
        Ok(())
    }

    /// Removes a hook. The change is to be saved; where there is none of that name nothing changes.
    pub fn remove_hook(&mut self, name: &str, global: bool) -> (res: Result<(), String>)
        ensures
            ({
                let config = old(self)@.config(global);
                if config.hooks.contains_key(name@) {
                    &&& res is Ok
                    &&& final(self)@ == old(self)@.with_config(
                        global,
                        (ConfigText { hooks: config.hooks.remove(name@), ..config }),
                    )
                } else {
                    &&& failure(res) == Some("does not exist."@)
                    &&& final(self)@ == old(self)@
                }
            }),
    {
        if global {
            if !self.global_config.hooks.contains_key(name) {
                return Err(String::from_str("does not exist."));
            }
            proof {
                lemma_hooks_remove(self.global_config.hooks@, name@);
            }
            self.global_config.hooks.remove(name);
        } else {
            if !self.profile_config.hooks.contains_key(name) {
                return Err(String::from_str("does not exist."));
            }
            proof {
                lemma_hooks_remove(self.profile_config.hooks@, name@);
            }
            self.profile_config.hooks.remove(name);
        }
        Ok(())
    }

    /// Leaves a hook out, or not. The change is to be saved; where there is none of that name
    /// nothing changes.
    pub fn set_hook_disabled(&mut self, name: &str, global: bool, disable: bool) -> (res: Result<(), String>)
        ensures
            ({
                let config = old(self)@.config(global);
                if config.hooks.contains_key(name@) {
                    &&& res is Ok
                    &&& final(self)@ == old(self)@.with_config(
                        global,
                        (ConfigText {
                            hooks: config.hooks.insert(
                                name@,
                                (HookText { disabled: disable, ..config.hooks[name@] }),
                            ),
                            ..config
                        }),
                    )
                } else {
                    &&& failure(res) == Some("does not exist."@)
                    &&& final(self)@ == old(self)@
                }
            }),
    {
        if global {
            if !self.global_config.hooks.contains_key(name) {
                return Err(String::from_str("does not exist."));
            }
            disable_hook(&mut self.global_config.hooks, name, disable);
        } else {
            if !self.profile_config.hooks.contains_key(name) {
                return Err(String::from_str("does not exist."));
            }
            disable_hook(&mut self.profile_config.hooks, name, disable);
        }
        Ok(())
    }

    /// Leaves all hooks out, or none. The change is to be saved.
    pub fn set_all_hooks_disabled(&mut self, global: bool, disable: bool)
        ensures
            final(self)@ == old(self)@.with_config(
                global,
                (ConfigText {
                    hooks: changed_hooks(old(self)@.config(global).hooks, with_disabled(disable)),
                    ..old(self)@.config(global)
                }),
            ),
    {
        if global {
            disable_all(&mut self.global_config.hooks, disable);
        } else {
            disable_all(&mut self.profile_config.hooks, disable);
        }
    }

    /// The hooks to be run: those of all profiles, then those of the current one, each with its
    /// name and with whose it is.
    pub fn run_hooks(&mut self) -> (res: Vec<Hook>)
        ensures
            hook_list(res@) == hook_list(final(self).global_config.hooks.values()) + hook_list(
                final(self).profile_config.hooks.values(),
            ),
            final(self).global_config.hooks.keys() == old(self).global_config.hooks.keys(),
            final(self).profile_config.hooks.keys() == old(self).profile_config.hooks.keys(),
            final(self)@ == old(self)@.with_config(
                true,
                (ConfigText {
                    hooks: changed_hooks(old(self)@.global.hooks, with_origin(true)),
                    ..old(self)@.global
                }),
            ).with_config(
                false,
                (ConfigText {
                    hooks: changed_hooks(old(self)@.profile.hooks, with_origin(false)),
                    ..old(self)@.profile
                }),
            ),
    {
        let mut out = mark_all(&mut self.global_config.hooks, true);
        let mut more = mark_all(&mut self.profile_config.hooks, false);
        let ghost a = out@;
        let ghost b = more@;
        out.append(&mut more);
        assert(hook_list(out@) =~= hook_list(a) + hook_list(b));
        out
    }
}

} // verus!
