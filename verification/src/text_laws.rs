//! What the vocabulary on texts means: where texts stand in each other, and how they are cut up and
//! put together.

use vstd::prelude::*;

use crate::number::{decimal, digit_value, digits_value, number_value, signed_decimal};
use crate::order::{before, lemma_before_irreflexive, lemma_not_after_total, not_after, sorted_texts};
use crate::split::{
    find_char, find_white, is_white, join, lemma_find_char, lemma_find_white, lines, replace_all,
    split_char, strip_return, trim, trim_end, trim_start, words,
};
use crate::text::{contains_text, occurs_at, starts_with_text, with_missing};

verus! {

/// A text stands in another one exactly if that is made of it, something before it and
/// something after it.
pub proof fn law_contains(s: Seq<char>, pat: Seq<char>)
    ensures
        contains_text(s, pat) <==> exists|a: Seq<char>, b: Seq<char>| s == #[trigger] (a + pat + b),
{
    if contains_text(s, pat) {
        let i = choose|i: int| occurs_at(s, pat, i);
        let a = s.take(i);
        let b = s.skip(i + pat.len());
        assert(s =~= a + pat + b);
    }
    if exists|a: Seq<char>, b: Seq<char>| s == #[trigger] (a + pat + b) {
        let (a, b) = choose|a: Seq<char>, b: Seq<char>| s == #[trigger] (a + pat + b);
        assert(s.subrange(a.len() as int, a.len() as int + pat.len()) =~= pat);
        assert(occurs_at(s, pat, a.len() as int));
    }
}

/// A text begins with another one exactly if it is made of it and something after it.
pub proof fn law_starts_with(s: Seq<char>, pat: Seq<char>)
    ensures
        starts_with_text(s, pat) <==> exists|b: Seq<char>| s == #[trigger] (pat + b),
{
    if starts_with_text(s, pat) {
        assert(s =~= pat + s.skip(pat.len() as int));
    }
    if exists|b: Seq<char>| s == #[trigger] (pat + b) {
        let b = choose|b: Seq<char>| s == #[trigger] (pat + b);
        assert(s.subrange(0, pat.len() as int) =~= pat);
    }
}

/// A text without whitespace at either end is what trimming leaves of it, whatever whitespace
/// stands around it.
pub proof fn law_trim(before: Seq<char>, s: Seq<char>, after: Seq<char>)
    requires
        forall|i: int| 0 <= i < before.len() ==> is_white(#[trigger] before[i]),
        forall|i: int| 0 <= i < after.len() ==> is_white(#[trigger] after[i]),
        s.len() > 0 ==> !is_white(s[0]) && !is_white(s.last()),
    ensures
        trim(before + s + after) == s,
{
    lemma_skip_white(before, s + after);
    assert(before + (s + after) =~= before + s + after);
    if s.len() > 0 {
        assert((s + after)[0] == s[0]);
        assert(trim_start(s + after) == s + after);
        lemma_drop_white(s, after);
    } else {
        assert(s + after =~= after);
        assert(after + Seq::<char>::empty() =~= after);
        lemma_skip_white(after, seq![]);
        assert(trim(before + s + after) =~= s);
    }
}

proof fn lemma_skip_white(white: Seq<char>, rest: Seq<char>)
    requires
        forall|i: int| 0 <= i < white.len() ==> is_white(#[trigger] white[i]),
    ensures
        trim_start(white + rest) == trim_start(rest),
    decreases white.len(),
{
    if white.len() > 0 {
        assert((white + rest)[0] == white[0]);
        assert((white + rest).skip(1) =~= white.skip(1) + rest);
        lemma_skip_white(white.skip(1), rest);
    } else {
        assert(white + rest =~= rest);
    }
}

proof fn lemma_drop_white(s: Seq<char>, white: Seq<char>)
    requires
        s.len() > 0,
        !is_white(s.last()),
        forall|i: int| 0 <= i < white.len() ==> is_white(#[trigger] white[i]),
    ensures
        trim_end(s + white) == s,
    decreases white.len(),
{
    if white.len() > 0 {
        assert((s + white).last() == white.last());
        assert((s + white).drop_last() =~= s + white.drop_last());
        lemma_drop_white(s, white.drop_last());
    } else {
        assert(s + white =~= s);
    }
}

/// A text that ends in a line feed, with or without a carriage return before it, is its first
/// line; the lines of what follows are the other lines.
pub proof fn law_lines(line: Seq<char>, rest: Seq<char>)
    requires
        forall|i: int| 0 <= i < line.len() ==> #[trigger] line[i] != '\n',
        line.len() > 0 ==> line.last() != '\r',
    ensures
        lines(line + seq!['\n'] + rest) == seq![line] + lines(rest),
        lines(line + seq!['\r', '\n'] + rest) == seq![line] + lines(rest),
{
    let s = line + seq!['\n'] + rest;
    lemma_find(s, '\n', 0, line.len() as int);
    assert(s.take(line.len() as int) =~= line);
    assert(s.skip(line.len() as int + 1) =~= rest);
    let t = line + seq!['\r', '\n'] + rest;
    assert forall|i: int| 0 <= i < line.len() + 1 implies #[trigger] t[i] != '\n' by {
        if i < line.len() {
            assert(t[i] == line[i]);
        }
    }
    lemma_find(t, '\n', 0, line.len() as int + 1);
    assert(t.take(line.len() as int + 1) =~= line.push('\r'));
    assert(strip_return(line.push('\r')) =~= line);
    assert(t.skip(line.len() as int + 2) =~= rest);
}

/// What follows the last line feed is a line of its own, unless it is empty.
pub proof fn law_last_line(line: Seq<char>)
    requires
        forall|i: int| 0 <= i < line.len() ==> #[trigger] line[i] != '\n',
    ensures
        lines(line) == if line.len() == 0 {
            Seq::<Seq<char>>::empty()
        } else {
            seq![line]
        },
{
    lemma_find_char(line, '\n', 0);
}

proof fn lemma_find(s: Seq<char>, c: char, from: int, at: int)
    requires
        0 <= from <= at < s.len(),
        s[at] == c,
        forall|i: int| from <= i < at ==> #[trigger] s[i] != c,
    ensures
        find_char(s, c, from) == at,
    decreases at - from,
{
    if from < at {
        lemma_find(s, c, from + 1, at);
    }
}

/// Cutting a text up at a character: the first part ends where the character first stands, and the
/// rest is cut up in turn.
pub proof fn law_split(part: Seq<char>, c: char, rest: Seq<char>)
    requires
        forall|i: int| 0 <= i < part.len() ==> #[trigger] part[i] != c,
    ensures
        split_char(part, c) == seq![part],
        split_char(part + seq![c] + rest, c) == seq![part] + split_char(rest, c),
{
    lemma_find_char(part, c, 0);
    let s = part + seq![c] + rest;
    lemma_find(s, c, 0, part.len() as int);
    assert(s.take(part.len() as int) =~= part);
    assert(s.skip(part.len() as int + 1) =~= rest);
}

/// The words of a text are its stretches without whitespace, whatever whitespace stands before,
/// between and after them.
pub proof fn law_words(gap: Seq<char>, word: Seq<char>, rest: Seq<char>)
    requires
        forall|i: int| 0 <= i < gap.len() ==> is_white(#[trigger] gap[i]),
        word.len() > 0,
        forall|i: int| 0 <= i < word.len() ==> !is_white(#[trigger] word[i]),
        rest.len() > 0 ==> is_white(rest[0]),
    ensures
        words(gap) == Seq::<Seq<char>>::empty(),
        words(gap + word + rest) == seq![word] + words(rest),
{
    assert(gap + Seq::<char>::empty() =~= gap);
    lemma_skip_white(gap, seq![]);
    assert(trim_start(gap).len() == 0);
    let s = gap + word + rest;
    let t = word + rest;
    assert(s =~= gap + t);
    lemma_skip_white(gap, t);
    assert(t[0] == word[0]);
    assert(trim_start(s) == t);
    lemma_find_white(t, 0);
    assert forall|i: int| 0 <= i < word.len() implies !is_white(#[trigger] t[i]) by {
        assert(t[i] == word[i]);
    }
    if rest.len() > 0 {
        assert(t[word.len() as int] == rest[0]);
    }
    assert(find_white(t, 0) == word.len());
    assert(t.take(word.len() as int) =~= word);
    assert(t.skip(word.len() as int) =~= rest);
}

/// Joining: nothing around a single text, and the separator between each two.
pub proof fn law_join(v: Seq<Seq<char>>, one: Seq<char>, sep: Seq<char>)
    ensures
        join(seq![], sep) == Seq::<char>::empty(),
        join(seq![one], sep) == one,
        v.len() > 0 ==> join(v.push(one), sep) == join(v, sep) + sep + one,
{
    if v.len() > 0 {
        assert(v.push(one).drop_last() =~= v);
    }
}

/// Replacing: a text without the pattern stays as it is.
pub proof fn law_nothing_to_replace(s: Seq<char>, pat: Seq<char>, with: Seq<char>)
    requires
        !contains_text(s, pat),
    ensures
        replace_all(s, pat, with) == s,
    decreases s.len(),
{
    if pat.len() > 0 && s.len() > 0 {
        assert(!occurs_at(s, pat, 0));
        if contains_text(s.skip(1), pat) {
            let i = choose|i: int| occurs_at(s.skip(1), pat, i);
            assert(s.subrange(i + 1, i + 1 + pat.len()) =~= s.skip(1).subrange(i, i + pat.len()));
            assert(occurs_at(s, pat, i + 1));
        }
        law_nothing_to_replace(s.skip(1), pat, with);
        assert(seq![s[0]] + s.skip(1) =~= s);
    }
}

/// Replacing: the pattern at the beginning gives way, and what follows is treated in turn.
pub proof fn law_replace_first(pat: Seq<char>, rest: Seq<char>, with: Seq<char>)
    requires
        pat.len() > 0,
    ensures
        replace_all(pat + rest, pat, with) == with + replace_all(rest, pat, with),
{
    assert((pat + rest).subrange(0, pat.len() as int) =~= pat);
    assert((pat + rest).skip(pat.len() as int) =~= rest);
}

/// Adding what is missing: everything that was there stays, in order and at the front; what is new
/// is there afterwards, and nothing else; and nothing is there twice that was not.
pub proof fn law_with_missing(list: Seq<Seq<char>>, more: Seq<Seq<char>>, n: int, one: Seq<char>)
    requires
        0 <= n <= more.len(),
    ensures
        ({
            let all = with_missing(list, more, n);
            &&& all.len() >= list.len()
            &&& all.take(list.len() as int) == list
            &&& all.contains(one) <==> list.contains(one) || more.take(n).contains(one)
            &&& list.no_duplicates() ==> all.no_duplicates()
        }),
    decreases n,
{
    let all = with_missing(list, more, n);
    if n <= 0 {
        assert(all.take(list.len() as int) =~= list);
    } else {
        law_with_missing(list, more, n - 1, one);
        let rest = with_missing(list, more, n - 1);
        let last = more[n - 1];
        assert(all.take(list.len() as int) =~= rest.take(list.len() as int));
        let fewer = more.take(n - 1);
        let taken = more.take(n);
        if fewer.contains(one) {
            let i = choose|i: int| 0 <= i < fewer.len() && fewer[i] == one;
            assert(taken[i] == one);
        }
        if one == last {
            assert(taken[n - 1] == one);
            if !rest.contains(last) {
                assert(all[rest.len() as int] == one);
            }
        }
        if taken.contains(one) && one != last {
            let i = choose|i: int| 0 <= i < taken.len() && taken[i] == one;
            assert(fewer[i] == one);
        }
        if rest.contains(one) {
            let i = choose|i: int| 0 <= i < rest.len() && rest[i] == one;
            assert(all[i] == one);
        }
        if all.contains(one) && one != last {
            let i = choose|i: int| 0 <= i < all.len() && all[i] == one;
            assert(rest[i] == one);
        }
    }
}

/// Blanks, tabs and the ends of lines are whitespace; no visible character of ASCII is.
pub proof fn law_white(c: char)
    ensures
        c == ' ' || c == '\t' || c == '\n' || c == '\r' ==> is_white(c),
        '!' <= c && c <= '~' ==> !is_white(c),
{
}

/// A text comes before its continuations; and of two texts that part somewhere the one with the
/// smaller character there comes first, where in paths nothing is smaller than a slash.
pub proof fn law_order(start: Seq<char>, c: char, x: Seq<char>, d: char, y: Seq<char>, path: bool)
    requires
        c != d,
    ensures
        before(start, start + seq![c] + x, path),
        !before(start + seq![c] + x, start, path),
        !before(start, start, path),
        before(start + seq![c] + x, start + seq![d] + y, path) <==> if path && c == '/' {
            true
        } else if path && d == '/' {
            false
        } else {
            c < d
        },
    decreases start.len(),
{
    let a = start + seq![c] + x;
    let b = start + seq![d] + y;
    lemma_before_irreflexive(start, path);
    if start.len() > 0 {
        let rest = start.skip(1);
        law_order(rest, c, x, d, y, path);
        assert(a.skip(1) =~= rest + seq![c] + x);
        assert(b.skip(1) =~= rest + seq![d] + y);
        assert(a[0] == start[0]);
        assert(b[0] == start[0]);
    } else {
        assert(a[0] == c);
        assert(b[0] == d);
    }
}

/// Sorting keeps every text as often as it was there, and leaves none before one that comes
/// earlier in the order.
pub proof fn law_sorting(v: Seq<Seq<char>>, path: bool, i: int, j: int)
    ensures
        sorted_texts(v, path).to_multiset() == v.to_multiset(),
        0 <= i < j < sorted_texts(v, path).len() ==> !before(
            sorted_texts(v, path)[j],
            sorted_texts(v, path)[i],
            path,
        ),
{
    let leq = not_after(path);
    lemma_not_after_total(path);
    v.lemma_sort_by_ensures(leq);
    let res = sorted_texts(v, path);
    if 0 <= i < j < res.len() {
        assert(leq(res[i], res[j]));
    }
}

/// A number in decimal is read back as that number: its last digit counts ones, and what stands
/// before it counts tens.
pub proof fn law_decimal(n: nat)
    ensures
        n < 10 ==> decimal(n).len() == 1 && decimal(n)[0] as u32 == '0' as u32 + n,
        n >= 10 ==> decimal(n) == decimal(n / 10) + decimal(n % 10),
        n > 0 ==> signed_decimal(-(n as int)) == seq!['-'] + decimal(n),
        signed_decimal(n as int) == decimal(n),
{
    if n >= 10 {
        assert(decimal(n) =~= decimal(n / 10) + decimal(n % 10));
    }
}

/// Every number is read back from its decimals, with or without a plus sign before them.
pub proof fn law_numbers_are_read_back(n: nat)
    ensures
        number_value(decimal(n)) == Some(n),
        number_value(seq!['+'] + decimal(n)) == Some(n),
{
    lemma_digits_back(n);
    let d = decimal(n);
    assert((seq!['+'] + d).skip(1) =~= d);
}

proof fn lemma_digits_back(n: nat)
    ensures
        digits_value(decimal(n)) == Some(n),
        decimal(n).len() > 0,
        decimal(n)[0] != '+',
    decreases n,
{
    let d = decimal(n);
    if n >= 10 {
        lemma_digits_back(n / 10);
        assert(d.drop_last() =~= decimal(n / 10));
        assert(d.last() == crate::number::digit(n % 10));
        assert(digit_value(d.last()) == Some(n % 10));
        assert((n / 10) * 10 + n % 10 == n);
    } else {
        assert(d.drop_last() =~= seq![]);
        assert(digits_value(seq![]) == Some(0nat));
        assert(d.last() == crate::number::digit(n));
        assert(digit_value(d.last()) == Some(n));
    }
}

/// A text with anything but digits after the first character spells no number, and neither does an
/// empty one or a sign alone.
pub proof fn law_no_number(s: Seq<char>, i: int)
    requires
        0 <= i < s.len(),
        !('0' <= s[i] && s[i] <= '9'),
        i > 0 || s[0] != '+',
    ensures
        number_value(s) is None,
        number_value(seq![]) is None,
        number_value(seq!['+']) is None,
{
    let body = if s[0] == '+' {
        s.skip(1)
    } else {
        s
    };
    let k = if s[0] == '+' {
        i - 1
    } else {
        i
    };
    lemma_bad_digit(body, k);
    assert(seq!['+'].skip(1) =~= seq![]);
}

proof fn lemma_bad_digit(s: Seq<char>, i: int)
    requires
        0 <= i < s.len(),
        !('0' <= s[i] && s[i] <= '9'),
    ensures
        digits_value(s) is None,
    decreases s.len(),
{
    if i < s.len() - 1 {
        assert(s.drop_last()[i] == s[i]);
        lemma_bad_digit(s.drop_last(), i);
    }
}

} // verus!
