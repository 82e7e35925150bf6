//! Profiles of the context.

use vstd::prelude::*;

use crate::context::{
    config_result, empty_config, failure, load_profile_config, loaded_config, ConfigFile,
    ContextConfig, ContextManager, ManagerText,
};
use crate::name_map::NameMap;
use crate::order::{sort_list, sorted};
use crate::text::{cat3, chars_of, lemma_texts_push, same_text, texts};

verus! {

/// Whether a character is a letter or a digit of some script, as `char::is_alphanumeric` says.
pub uninterp spec fn is_alphanumeric(c: char) -> bool;

/// A letter or a digit of ASCII.
pub open spec fn is_ascii_alphanumeric(c: char) -> bool {
    ('a' <= c && c <= 'z') || ('A' <= c && c <= 'Z') || ('0' <= c && c <= '9')
}

/// The test of `char::is_alphanumeric`. What is claimed: it depends on the character alone, and
/// of ASCII the letters and digits pass it and no others.
pub assume_specification[ char::is_alphanumeric ](c: char) -> (res: bool)
    ensures
        res == is_alphanumeric(c),
        c <= '\u{7f}' ==> res == is_ascii_alphanumeric(c),
;

/// A character that may stand in the name of a profile.
pub open spec fn is_name_char(c: char) -> bool {
    is_alphanumeric(c) || c == '-' || c == '_'
}

/// Why a text cannot name a profile, or `None` for one that can.
pub open spec fn profile_name_error(name: Seq<char>) -> Option<Seq<char>> {
    if name.len() == 0 {
        Some("Profile name cannot be empty"@)
    } else if !is_alphanumeric(name[0]) {
        Some("Profile name must start with an alphanumeric character"@)
    } else if exists|i: int| 0 <= i < name.len() && !is_name_char(#[trigger] name[i]) {
        Some("Profile name can only contain alphanumeric characters, hyphens, and underscores"@)
    } else {
        None
    }
}

/// Whether a text can name a profile, and why not.
pub fn validate_profile_name(name: &str) -> (res: Result<(), String>)
    ensures
        failure(res) == profile_name_error(name@),
{
    let chars = chars_of(name);
    if chars.len() == 0 {
        return Err(String::from_str("Profile name cannot be empty"));
    }
    if !chars[0].is_alphanumeric() {
        return Err(String::from_str("Profile name must start with an alphanumeric character"));
    }
    let mut i: usize = 0;
    while i < chars.len()
        invariant
            chars@ == name@,
            i <= chars@.len(),
            chars@.len() > 0,
            is_alphanumeric(name@[0]),
            forall|j: int| 0 <= j < i ==> is_name_char(#[trigger] name@[j]),
        decreases chars@.len() - i,
    {
        let c = chars[i];
        if !(c.is_alphanumeric() || c == '-' || c == '_') {
            assert(!is_name_char(name@[i as int]));
            return Err(
                String::from_str(
                    "Profile name can only contain alphanumeric characters, hyphens, and underscores",
                ),
            );
        }
        i += 1;
    }
    Ok(())
}

/// The profiles where `dirs` are the names of their directories: first the default profile, then
/// the others in order.
pub open spec fn is_profile_list(dirs: Seq<Seq<char>>, res: Seq<Seq<char>>) -> bool {
    &&& res.len() > 0
    &&& res[0] == "default"@
    &&& sorted(res.skip(1), false)
    &&& res.skip(1).to_multiset() == dirs.filter(not_default()).to_multiset()
}

/// The names other than that of the default profile.
pub open spec fn not_default() -> spec_fn(Seq<char>) -> bool {
    |name: Seq<char>| name != "default"@
}

/// The error of deleting a profile.
pub open spec fn delete_error(m: ManagerText, name: Seq<char>, exists_on_disk: bool) -> Option<Seq<char>> {
    if name == "default"@ {
        Some("Cannot delete the default profile"@)
    } else if name == m.current {
        Some("Cannot delete the active profile. Switch to another profile first"@)
    } else if !exists_on_disk {
        Some("Profile '"@ + name + "' does not exist"@)
    } else {
        None
    }
}

/// The error of renaming a profile.
pub open spec fn rename_error(
    old_name: Seq<char>,
    new_name: Seq<char>,
    old_exists: bool,
    new_exists: bool,
) -> Option<Seq<char>> {
    if old_name == "default"@ {
        Some("Cannot rename the default profile"@)
    } else if new_name == "default"@ {
        Some("Cannot rename to 'default' as it's a reserved profile name"@)
    } else if profile_name_error(new_name) is Some {
        profile_name_error(new_name)
    } else if !old_exists {
        Some("Profile '"@ + old_name + "' not found"@)
    } else if new_exists {
        Some("Profile '"@ + new_name + "' already exists"@)
    } else {
        None
    }
}

/// The manager after a switch to a profile, and the error that it came to. Where the name cannot
/// name a profile nothing changes. Otherwise what the hooks of the profile left is forgotten; a
/// profile other than the default one becomes the current one even if it cannot be read.
pub open spec fn switched(
    m: ManagerText,
    name: Seq<char>,
    exists_on_disk: bool,
    file: ConfigFile,
) -> (ManagerText, Option<Seq<char>>) {
    let fresh = ManagerText { profile_cache: Map::empty(), ..m };
    let loaded = loaded_config(file, empty_config());
    if profile_name_error(name) is Some {
        (m, profile_name_error(name))
    } else if name == "default"@ {
        match loaded {
            Err(e) => (fresh, Some(e)),
            Ok(c) => (ManagerText { current: name, profile: c, ..fresh }, None),
        }
    } else if !exists_on_disk {
        (fresh, Some("Profile '"@ + name + "' does not exist. Use 'create' to create it"@))
    } else {
        match loaded {
            Err(e) => (ManagerText { current: name, ..fresh }, Some(e)),
            Ok(c) => (ManagerText { current: name, profile: c, ..fresh }, None),
        }
    }
}

impl ContextManager {
    /// The profiles, where `dirs` are the names of the directories of profiles.
    pub fn list_profiles(&self, dirs: &Vec<String>) -> (res: Vec<String>)
        ensures
            is_profile_list(texts(dirs@), texts(res@)),
    {
        let ghost all = texts(dirs@);
        let ghost p = not_default();
        let mut others: Vec<String> = Vec::new();
        let mut i: usize = 0;
        proof {
            reveal(Seq::filter);
            assert(texts(others@) =~= all.take(0).filter(p));
        }
        while i < dirs.len()
            invariant
                i <= dirs@.len(),
                all == texts(dirs@),
                p == not_default(),
                texts(others@) == all.take(i as int).filter(p),
            decreases dirs@.len() - i,
        {
            proof {
                reveal(Seq::filter);
                assert(all.take(i as int + 1).drop_last() =~= all.take(i as int));
                assert(all.take(i as int + 1).last() == dirs@[i as int]@);
            }
            if !same_text(dirs[i].as_str(), "default") {
                let one = String::from_str(dirs[i].as_str());
                let ghost before = others@;
                others.push(one);
                proof {
                    lemma_texts_push(before, one);
                }
            }
            i += 1;
        }
        assert(all.take(i as int) =~= all);
        let tail = sort_list(&others, false);
        let mut res: Vec<String> = Vec::new();
        res.push(String::from_str("default"));
        crate::text::extend_list(&mut res, &tail);
        assert(texts(res@).skip(1) =~= texts(tail@));
        res
    }

    /// The configuration with which a new profile is saved.
    pub fn create_profile(&self, name: &str, exists_on_disk: bool) -> (res: Result<ContextConfig, String>)
        ensures
            config_result(res) == match profile_name_error(name@) {
                Some(e) => Err(e),
                None => if exists_on_disk {
                    Err("Profile '"@ + name@ + "' already exists"@)
                } else {
                    Ok(empty_config())
                },
            },
    {
        match validate_profile_name(name) {
            Err(e) => Err(e),
            Ok(_) => {
                if exists_on_disk {
                    Err(cat3("Profile '", name, "' already exists"))
                } else {
                    Ok(ContextConfig::default())
                }
            },
        }
    }

    /// Whether the directory of a profile may be deleted, and why not.
    pub fn delete_profile(&self, name: &str, exists_on_disk: bool) -> (res: Result<(), String>)
        ensures
            failure(res) == delete_error(self@, name@, exists_on_disk),
    {
        if same_text(name, "default") {
            return Err(String::from_str("Cannot delete the default profile"));
        }
        if same_text(name, self.current_profile.as_str()) {
            return Err(
                String::from_str("Cannot delete the active profile. Switch to another profile first"),
            );
        }
        if !exists_on_disk {
            return Err(cat3("Profile '", name, "' does not exist"));
        }
        Ok(())
    }

    /// Switches to a profile whose configuration file was found to be `file`.
    pub fn switch_profile(&mut self, name: &str, exists_on_disk: bool, file: ConfigFile) -> (res: Result<
        (),
        String,
    >)
        ensures
            (final(self)@, failure(res)) == switched(old(self)@, name@, exists_on_disk, file),
    {
        if let Err(e) = validate_profile_name(name) {
            return Err(e);
        }
        self.hook_executor.profile_cache = NameMap::new();
        if same_text(name, "default") {
            match load_profile_config(file) {
                Err(e) => {
                    return Err(e);
                },
                Ok(config) => {
                    self.current_profile = String::from_str(name);
                    self.profile_config = config;
                    return Ok(());
                },
            }
        }
        if !exists_on_disk {
            return Err(cat3("Profile '", name, "' does not exist. Use 'create' to create it"));
        }
        self.current_profile = String::from_str(name);
        match load_profile_config(file) {
            Err(e) => Err(e),
            Ok(config) => {
                self.profile_config = config;
                Ok(())
            },
        }
    }

    /// Whether the directory of a profile may be renamed, and why not.
    pub fn check_rename(&self, old_name: &str, new_name: &str, old_exists: bool, new_exists: bool) -> (res: Result<
        (),
        String,
    >)
        ensures
            failure(res) == rename_error(old_name@, new_name@, old_exists, new_exists),
    {
        if same_text(old_name, "default") {
            return Err(String::from_str("Cannot rename the default profile"));
        }
        if same_text(new_name, "default") {
            return Err(
                String::from_str("Cannot rename to 'default' as it's a reserved profile name"),
            );
        }
        if let Err(e) = validate_profile_name(new_name) {
            return Err(e);
        }
        if !old_exists {
            return Err(cat3("Profile '", old_name, "' not found"));
        }
        if new_exists {
            return Err(cat3("Profile '", new_name, "' already exists"));
        }
        Ok(())
    }

    /// Follows the renaming of a profile: the current one is known by its new name, and its
    /// configuration is taken from the file again.
    pub fn rename_profile(&mut self, old_name: &str, new_name: &str, file: ConfigFile) -> (res: Result<
        (),
        String,
    >)
        ensures
            (final(self)@, failure(res)) == if old(self)@.current == old_name@ {
                match loaded_config(file, empty_config()) {
                    Err(e) => ((ManagerText { current: new_name@, ..old(self)@ }), Some(e)),
                    Ok(c) => ((ManagerText { current: new_name@, profile: c, ..old(self)@ }), None),
                }
            } else {
                (old(self)@, None)
            },
    {
        if same_text(self.current_profile.as_str(), old_name) {
            self.current_profile = String::from_str(new_name);
            match load_profile_config(file) {
                Err(e) => {
                    return Err(e);
                },
                Ok(config) => {
                    self.profile_config = config;
                },
            }
        }
        Ok(())
    }
}

} // verus!
