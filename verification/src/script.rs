//! Scripts of the chat.

use vstd::prelude::*;

use crate::split::{join, join_from, lines, lines_of};
use crate::text::{starts_with_text, str_starts_with, texts};

verus! {

/// The first line from `i` on that is no comment, or the number of lines.
pub open spec fn after_comments(all: Seq<Seq<char>>, i: int) -> int
    decreases all.len() - i,
{
    if i < all.len() && starts_with_text(all[i], "#"@) {
        after_comments(all, i + 1)
    } else {
        i
    }
}

/// Where the body of a script begins: after a first line that begins with `#!`, and the comments
/// that follow it.
pub open spec fn body_start(all: Seq<Seq<char>>) -> int {
    if all.len() > 0 && starts_with_text(all[0], "#!"@) {
        after_comments(all, 1)
    } else {
        0
    }
}

/// The body of a script.
pub open spec fn script_body(content: Seq<char>) -> Seq<char> {
    join(lines(content).skip(body_start(lines(content))), "\n"@)
}

/// The body of a script: its lines without a first one that begins with `#!` and the comments that
/// follow it.
pub fn read_q_script(content: &str) -> (res: String)
    ensures
        res@ == script_body(content@),
{
    let all = lines_of(content);
    let ghost ls = texts(all@);
    let mut i: usize = 0;
    if all.len() > 0 {
        assert(ls[0] == all@[0]@);
        if str_starts_with(all[0].as_str(), "#!") {
            i = 1;
            while i < all.len() && str_starts_with(all[i].as_str(), "#")
                invariant
                    1 <= i <= all@.len(),
                    ls == texts(all@),
                    after_comments(ls, 1) == after_comments(ls, i as int),
                decreases all@.len() - i,
            {
                i += 1;
            }
        }
    }
    join_from(&all, i, "\n")
}

/// Without a first line that begins with `#!` every line is kept.
pub proof fn law_no_shebang(content: Seq<char>)
    requires
        lines(content).len() == 0 || !starts_with_text(lines(content)[0], "#!"@),
    ensures
        script_body(content) == join(lines(content), "\n"@),
{
    assert(lines(content).skip(0) =~= lines(content));
}

/// After a first line that begins with `#!` the body does not begin with a comment.
pub proof fn law_body_has_no_header(all: Seq<Seq<char>>)
    requires
        all.len() > 0,
        starts_with_text(all[0], "#!"@),
    ensures
        1 <= body_start(all) <= all.len(),
        body_start(all) < all.len() ==> !starts_with_text(all[body_start(all)], "#"@),
        forall|i: int| 1 <= i < body_start(all) ==> starts_with_text(#[trigger] all[i], "#"@),
{
    lemma_after_comments(all, 1);
}

proof fn lemma_after_comments(all: Seq<Seq<char>>, i: int)
    requires
        0 <= i <= all.len(),
    ensures
        i <= after_comments(all, i) <= all.len(),
        after_comments(all, i) < all.len() ==> !starts_with_text(all[after_comments(all, i)], "#"@),
        forall|j: int| i <= j < after_comments(all, i) ==> starts_with_text(#[trigger] all[j], "#"@),
    decreases all.len() - i,
{
    if i < all.len() && starts_with_text(all[i], "#"@) {
        lemma_after_comments(all, i + 1);
    }
}

} // verus!
