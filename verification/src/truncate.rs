//! Cutting a text to a number of bytes without cutting a character.

use vstd::prelude::*;
use vstd::utf8::{encode_scalar, encode_utf8};

use crate::number::{byte_len, bytes_in};
use crate::text::{cat2, chars_of, string_from};

verus! {

/// The greatest number of characters of `s`, `n` at most, that take no more than `max` bytes.
pub open spec fn fitting(s: Seq<char>, max: nat, n: nat) -> nat
    decreases n,
{
    if n == 0 || byte_len(s.take(n as int)) <= max {
        n
    } else {
        fitting(s, max, (n - 1) as nat)
    }
}

/// The longest beginning of `s` that takes no more than `max` bytes.
pub open spec fn truncated(s: Seq<char>, max: nat) -> Seq<char> {
    s.take(fitting(s, max, s.len()) as int)
}

/// The number of bytes of one character.
pub open spec fn char_width(c: char) -> nat {
    encode_scalar(c as u32).len()
}

proof fn lemma_encode_push(s: Seq<char>, c: char)
    ensures
        encode_utf8(s.push(c)) == encode_utf8(s) + encode_scalar(c as u32),
    decreases s.len(),
{
    reveal_with_fuel(encode_utf8, 2);
    let t = s.push(c);
    if s.len() == 0 {
        assert(t.drop_first() =~= Seq::<char>::empty());
        assert(encode_utf8(t) =~= encode_utf8(s) + encode_scalar(c as u32));
    } else {
        lemma_encode_push(s.drop_first(), c);
        assert(t.drop_first() =~= s.drop_first().push(c));
        assert(encode_utf8(t) =~= encode_utf8(s) + encode_scalar(c as u32));
    }
}

/// One more character takes its own width more.
pub proof fn lemma_byte_len_step(s: Seq<char>, i: int)
    requires
        0 <= i < s.len(),
    ensures
        byte_len(s.take(i + 1)) == byte_len(s.take(i)) + char_width(s[i]),
{
    lemma_encode_push(s.take(i), s[i]);
    assert(s.take(i + 1) =~= s.take(i).push(s[i]));
}

/// More characters take no fewer bytes.
pub proof fn lemma_byte_len_grows(s: Seq<char>, i: int, j: int)
    requires
        0 <= i <= j <= s.len(),
    ensures
        byte_len(s.take(i)) <= byte_len(s.take(j)),
    decreases j - i,
{
    if i < j {
        lemma_byte_len_step(s, j - 1);
        lemma_byte_len_grows(s, i, j - 1);
    }
}

/// The number of bytes of one character.
fn width_of(c: char) -> (res: usize)
    ensures
        res == char_width(c),
        1 <= res <= 4,
{
    broadcast use vstd::utf8::char_is_scalar;

    let u: u32 = c as u32;
    if u < 0x80 {
        1
    } else if u < 0x800 {
        2
    } else if u < 0x10000 {
        3
    } else {
        4
    }
}

proof fn lemma_fitting(s: Seq<char>, max: nat, n: nat, top: nat)
    requires
        n <= top <= s.len(),
        n == 0 || byte_len(s.take(n as int)) <= max,
        n == s.len() || byte_len(s.take(n as int + 1)) > max,
    ensures
        fitting(s, max, top) == n,
    decreases top,
{
    if n < top {
        lemma_byte_len_grows(s, n as int + 1, top as int);
        lemma_fitting(s, max, n, (top - 1) as nat);
    }
}

/// The longest beginning of a text that takes no more than `max` bytes.
pub fn truncate_safe(s: &str, max: usize) -> (res: String)
    ensures
        res@ == truncated(s@, max as nat),
{
    let chars = chars_of(s);
    let mut used: usize = 0;
    let mut i: usize = 0;
    assert(s@.take(0) =~= Seq::<char>::empty());
    while i < chars.len()
        invariant
            chars@ == s@,
            i <= s@.len(),
            used == byte_len(s@.take(i as int)),
            used <= max,
        decreases s@.len() - i,
    {
        let w: usize = width_of(chars[i]);
        proof {
            lemma_byte_len_step(s@, i as int);
        }
        if w > max - used {
            proof {
                lemma_fitting(s@, max as nat, i as nat, s@.len());
            }
            return string_from(&chars, 0, i);
        }
        used += w;
        i += 1;
    }
    proof {
        lemma_fitting(s@, max as nat, i as nat, s@.len());
    }
    string_from(&chars, 0, i)
}

/// The output of a command cut to `max` bytes, with a note where something was cut.
pub open spec fn formatted_output(output: Seq<char>, max: nat) -> Seq<char> {
    truncated(output, max) + if byte_len(output) > max {
        " ... truncated"@
    } else {
        ""@
    }
}

/// The output of a command cut to `max_size` bytes, with a note where something was cut.
pub fn format_output(output: &str, max_size: usize) -> (res: String)
    ensures
        res@ == formatted_output(output@, max_size as nat),
{
    let kept = truncate_safe(output, max_size);
    if bytes_in(output) > max_size {
        cat2(kept.as_str(), " ... truncated")
    } else {
        cat2(kept.as_str(), "")
    }
}

/// What is kept is a beginning of the text and fits; a text that fits is kept whole.
pub proof fn law_truncated_fits(s: Seq<char>, max: nat)
    ensures
        byte_len(truncated(s, max)) <= max,
        truncated(s, max).is_prefix_of(s),
        byte_len(s) <= max ==> truncated(s, max) == s,
        truncated(s, max).len() < s.len() ==> byte_len(s.take(truncated(s, max).len() as int + 1)) > max,
{
    lemma_fitting_fits(s, max, s.len());
    assert(s.take(s.len() as int) =~= s);
}

proof fn lemma_fitting_fits(s: Seq<char>, max: nat, n: nat)
    requires
        n <= s.len(),
    ensures
        fitting(s, max, n) <= n,
        byte_len(s.take(fitting(s, max, n) as int)) <= max,
        fitting(s, max, n) < n ==> byte_len(s.take(fitting(s, max, n) as int + 1)) > max,
    decreases n,
{
    if n == 0 {
        assert(s.take(0) =~= Seq::<char>::empty());
    } else if byte_len(s.take(n as int)) > max {
        lemma_fitting_fits(s, max, (n - 1) as nat);
    }
}

} // verus!
