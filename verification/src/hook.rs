//! Hooks: commands that run at the start of a conversation or with each prompt.

use vstd::prelude::*;

use crate::name_map::{find_name, lemma_find_name, NameMap};
use crate::text::{copy_option, option_text};

verus! {

/// When a hook runs.
#[derive(Debug, Clone, Copy, PartialEq, Eq, Structural)]
pub enum HookTrigger {
    /// Once, at the start of a conversation.
    ConversationStart,
    /// With each prompt.
    PerPrompt,
}

/// A command that runs at a given moment.
#[derive(Debug, PartialEq, Eq)]
pub struct Hook {
    /// When it runs.
    pub trigger: HookTrigger,
    /// The command.
    pub command: String,
    /// Whether it is left out.
    pub disabled: bool,
    /// Its other settings, as they stand in its configuration.
    pub options: Option<String>,
    /// The name under which it is configured; set when hooks are run.
    pub name: String,
    /// Whether it is part of the global configuration; set when hooks are run.
    pub is_global: bool,
}

/// What a hook holds.
pub struct HookText {
    pub trigger: HookTrigger,
    pub command: Seq<char>,
    pub disabled: bool,
    pub options: Option<Seq<char>>,
    pub name: Seq<char>,
    pub is_global: bool,
}

impl View for Hook {
    type V = HookText;

    open spec fn view(&self) -> HookText {
        HookText {
            trigger: self.trigger,
            command: self.command@,
            disabled: self.disabled,
            options: option_text(self.options),
            name: self.name@,
            is_global: self.is_global,
        }
    }
}

impl Clone for Hook {
    fn clone(&self) -> (res: Self)
        ensures
            res@ == self@,
    {
        Hook {
            trigger: self.trigger,
            command: String::from_str(self.command.as_str()),
            disabled: self.disabled,
            options: copy_option(&self.options),
            name: String::from_str(self.name.as_str()),
            is_global: self.is_global,
        }
    }
}

/// A hook that is just a command.
pub open spec fn inline_hook(trigger: HookTrigger, command: Seq<char>) -> HookText {
    HookText {
        trigger,
        command,
        disabled: false,
        options: None,
        name: ""@,
        is_global: false,
    }
}

impl Hook {
    /// A hook that is just a command.
    pub fn new_inline_hook(trigger: HookTrigger, command: String) -> (res: Self)
        ensures
            res@ == inline_hook(trigger, command@),
    {
        Hook {
            trigger,
            command,
            disabled: false,
            options: None,
            name: String::from_str(""),
            is_global: false,
        }
    }
}

/// Hooks by name, as what they hold.
pub type HookTexts = Map<Seq<char>, HookText>;

/// What named hooks hold.
pub open spec fn hook_texts(hooks: Map<Seq<char>, Hook>) -> HookTexts {
    Map::new(|k: Seq<char>| hooks.contains_key(k), |k: Seq<char>| hooks[k]@)
}

/// What a list of hooks holds.
pub open spec fn hook_list(hooks: Seq<Hook>) -> Seq<HookText> {
    Seq::new(hooks.len(), |i: int| hooks[i]@)
}

/// Hooks of which each was changed in one way, by its name and by what it held.
pub open spec fn changed_hooks(hooks: HookTexts, f: spec_fn(Seq<char>, HookText) -> HookText) -> HookTexts {
    Map::new(|k: Seq<char>| hooks.contains_key(k), |k: Seq<char>| f(k, hooks[k]))
}

/// Changing the hooks one by one changes them by name.
pub proof fn lemma_changed_hooks(a: NameMap<Hook>, b: NameMap<Hook>, f: spec_fn(Seq<char>, HookText) -> HookText)
    requires
        a.keys() == b.keys(),
        a.values().len() == b.values().len(),
        forall|i: int|
            0 <= i < a.values().len() ==> (#[trigger] b.values()[i])@ == f(a.keys()[i], a.values()[i]@),
    ensures
        hook_texts(b@) == changed_hooks(hook_texts(a@), f),
{
    a.lemma_lookup();
    b.lemma_lookup();
    let c = changed_hooks(hook_texts(a@), f);
    assert forall|k: Seq<char>| #[trigger] hook_texts(b@).contains_key(k) == c.contains_key(k) && (
    c.contains_key(k) ==> hook_texts(b@)[k] == c[k]) by {
        assert(a@.contains_key(k) <==> a.keys().contains(k));
        assert(b@.contains_key(k) <==> b.keys().contains(k));
        if a@.contains_key(k) {
            let i = find_name(a.keys(), k, 0);
            lemma_find_name(a.keys(), k, 0);
            assert(b@[k] == b.values()[i]);
            assert(a@[k] == a.values()[i]);
            assert(hook_texts(a@)[k] == a@[k]@);
            assert(hook_texts(b@)[k] == b@[k]@);
        }
    }
    assert(hook_texts(b@) =~= c);
}

/// Named hooks hold the same if they have the same names and hold the same one by one.
pub proof fn lemma_same_hooks(a: NameMap<Hook>, b: NameMap<Hook>)
    requires
        a.keys() == b.keys(),
        hook_list(a.values()) == hook_list(b.values()),
    ensures
        hook_texts(a@) == hook_texts(b@),
{
    let f = |k: Seq<char>, h: HookText| h;
    a.lemma_lookup();
    b.lemma_lookup();
    assert forall|i: int| 0 <= i < a.values().len() implies (#[trigger] b.values()[i])@ == f(
        a.keys()[i],
        a.values()[i]@,
    ) by {
        assert(hook_list(a.values()).len() == hook_list(b.values()).len());
        assert(hook_list(a.values())[i] == a.values()[i]@);
        assert(hook_list(b.values())[i] == b.values()[i]@);
    }
    lemma_changed_hooks(a, b, f);
    assert(changed_hooks(hook_texts(a@), f) =~= hook_texts(a@));
}

/// A copy of named hooks.
pub fn copy_hooks(hooks: &NameMap<Hook>) -> (res: NameMap<Hook>)
    ensures
        res.keys() == hooks.keys(),
        hook_list(res.values()) == hook_list(hooks.values()),
        hook_texts(res@) == hook_texts(hooks@),
{
    let res = hooks.clone();
    proof {
        assert(hook_list(res.values()) =~= hook_list(hooks.values()));
        lemma_same_hooks(res, *hooks);
    }
    res
}

/// Putting hooks over others puts what they hold over what the others hold.
pub proof fn lemma_hooks_union(a: Map<Seq<char>, Hook>, b: Map<Seq<char>, Hook>)
    ensures
        hook_texts(a.union_prefer_right(b)) == hook_texts(a).union_prefer_right(hook_texts(b)),
{
    assert(hook_texts(a.union_prefer_right(b)) =~= hook_texts(a).union_prefer_right(hook_texts(b)));
}

/// Setting a hook sets what it holds.
pub proof fn lemma_hooks_insert(a: Map<Seq<char>, Hook>, k: Seq<char>, h: Hook)
    ensures
        hook_texts(a.insert(k, h)) == hook_texts(a).insert(k, h@),
{
    assert(hook_texts(a.insert(k, h)) =~= hook_texts(a).insert(k, h@));
}

/// Removing a hook removes what it holds.
pub proof fn lemma_hooks_remove(a: Map<Seq<char>, Hook>, k: Seq<char>)
    ensures
        hook_texts(a.remove(k)) == hook_texts(a).remove(k),
{
    assert(hook_texts(a.remove(k)) =~= hook_texts(a).remove(k));
}

} // verus!
