//! Paths as text, with `/` between their parts.

use vstd::prelude::*;

use crate::text::{cat2, cat3, chars_of};

verus! {

/// The path `part` taken from `base`: an absolute `part` stands alone.
pub open spec fn joined(base: Seq<char>, part: Seq<char>) -> Seq<char> {
    if part.len() > 0 && part[0] == '/' {
        part
    } else if base.len() == 0 || base.last() == '/' {
        base + part
    } else {
        base + "/"@ + part
    }
}

/// The path `part` taken from `base`.
pub fn join_path(base: &str, part: &str) -> (res: String)
    ensures
        res@ == joined(base@, part@),
{
    let p = chars_of(part);
    if p.len() > 0 && p[0] == '/' {
        return String::from_str(part);
    }
    let b = chars_of(base);
    if b.len() == 0 || b[b.len() - 1] == '/' {
        cat2(base, part)
    } else {
        cat3(base, "/", part)
    }
}

/// The directory of a profile.
pub open spec fn profile_dir(profiles_dir: Seq<char>, name: Seq<char>) -> Seq<char> {
    joined(profiles_dir, name)
}

/// The directory of a profile.
pub fn profile_dir_path(profiles_dir: &str, profile_name: &str) -> (res: String)
    ensures
        res@ == profile_dir(profiles_dir@, profile_name@),
{
    join_path(profiles_dir, profile_name)
}

/// The file with the context configuration of a profile.
pub fn profile_context_path(profiles_dir: &str, profile_name: &str) -> (res: String)
    ensures
        res@ == joined(profile_dir(profiles_dir@, profile_name@), "context.json"@),
{
    let dir = join_path(profiles_dir, profile_name);
    join_path(dir.as_str(), "context.json")
}

} // verus!
