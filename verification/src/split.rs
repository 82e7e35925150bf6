//! Cutting text up and putting it together: whitespace, lines, words, separators, replacement.

use vstd::prelude::*;
use vstd::string::*;

use crate::text::{chars_of, string_from, occurs_at, texts, lemma_texts_push};

verus! {

/// The characters with the Unicode property `White_Space`.
pub open spec fn is_white(c: char) -> bool {
    let u = c as u32;
    ||| 0x9 <= u <= 0xd
    ||| u == 0x20
    ||| u == 0x85
    ||| u == 0xa0
    ||| u == 0x1680
    ||| 0x2000 <= u <= 0x200a
    ||| u == 0x2028
    ||| u == 0x2029
    ||| u == 0x202f
    ||| u == 0x205f
    ||| u == 0x3000
}

/// Whether `c` is whitespace.
pub fn white(c: char) -> (res: bool)
    ensures
        res == is_white(c),
{
    let u: u32 = c as u32;
    (0x9 <= u && u <= 0xd) || u == 0x20 || u == 0x85 || u == 0xa0 || u == 0x1680 || (0x2000 <= u
        && u <= 0x200a) || u == 0x2028 || u == 0x2029 || u == 0x202f || u == 0x205f || u == 0x3000
}

/// `s` without its leading whitespace.
pub open spec fn trim_start(s: Seq<char>) -> Seq<char>
    decreases s.len(),
{
    if s.len() > 0 && is_white(s[0]) {
        trim_start(s.skip(1))
    } else {
        s
    }
}

/// `s` without its trailing whitespace.
pub open spec fn trim_end(s: Seq<char>) -> Seq<char>
    decreases s.len(),
{
    if s.len() > 0 && is_white(s.last()) {
        trim_end(s.drop_last())
    } else {
        s
    }
}

/// `s` without whitespace at either end.
pub open spec fn trim(s: Seq<char>) -> Seq<char> {
    trim_end(trim_start(s))
}

/// The text of `s` without whitespace at either end.
pub fn trimmed(s: &str) -> (res: String)
    ensures
        res@ == trim(s@),
{
    let v = chars_of(s);
    let mut i: usize = 0;
    assert(s@.skip(0) =~= s@);
    while i < v.len() && white(v[i])
        invariant
            v@ == s@,
            i <= v@.len(),
            trim_start(s@.skip(i as int)) == trim_start(s@),
        decreases v@.len() - i,
    {
        assert(s@.skip(i as int).skip(1) =~= s@.skip(i + 1));
        i += 1;
    }
    let ghost t = s@.skip(i as int);
    assert(trim_start(s@) == t);
    let mut j: usize = v.len();
    assert(s@.subrange(i as int, j as int) =~= t);
    while j > i && white(v[j - 1])
        invariant
            v@ == s@,
            i <= j <= v@.len(),
            trim_end(s@.subrange(i as int, j as int)) == trim_end(t),
        decreases j,
    {
        assert(s@.subrange(i as int, j as int).drop_last() =~= s@.subrange(i as int, j - 1));
        j -= 1;
    }
    string_from(&v, i, j)
}

/// Whether `s` holds nothing but whitespace.
pub fn is_blank(s: &str) -> (res: bool)
    ensures
        res == (trim(s@).len() == 0),
{
    trimmed(s).as_str().is_empty()
}

/// The first position of `c` in `s` at or after `from`, or the length of `s`.
pub open spec fn find_char(s: Seq<char>, c: char, from: int) -> int
    decreases s.len() - from,
{
    if from >= s.len() {
        s.len() as int
    } else if s[from] == c {
        from
    } else {
        find_char(s, c, from + 1)
    }
}

/// `find_char` stays between where it starts and the end of the text.
pub proof fn lemma_find_char(s: Seq<char>, c: char, from: int)
    requires
        0 <= from <= s.len(),
    ensures
        from <= find_char(s, c, from) <= s.len(),
        find_char(s, c, from) < s.len() ==> s[find_char(s, c, from)] == c,
        forall|i: int| from <= i < find_char(s, c, from) ==> s[i] != c,
    decreases s.len() - from,
{
    if from < s.len() && s[from] != c {
        lemma_find_char(s, c, from + 1);
    }
}

/// The first position of `c` in `v` at or after `from`, or the length of `v`.
pub fn position_of(v: &Vec<char>, c: char, from: usize) -> (res: usize)
    requires
        from <= v@.len(),
    ensures
        res == find_char(v@, c, from as int),
        from <= res <= v@.len(),
        res < v@.len() ==> v@[res as int] == c,
{
    let mut i: usize = from;
    while i < v.len() && v[i] != c
        invariant
            from <= i <= v@.len(),
            find_char(v@, c, from as int) == find_char(v@, c, i as int),
        decreases v@.len() - i,
    {
        i += 1;
    }
    i
}

/// The parts of `s` between the occurrences of `c`; there is one more part than occurrences.
pub open spec fn split_char(s: Seq<char>, c: char) -> Seq<Seq<char>>
    decreases s.len(),
{
    let e = find_char(s, c, 0);
    if 0 <= e < s.len() {
        seq![s.take(e)] + split_char(s.skip(e + 1), c)
    } else {
        seq![s]
    }
}

/// Cutting off the first part of the rest of a text, in terms of the whole text.
proof fn lemma_find_char_skip(s: Seq<char>, c: char, i: int, from: int)
    requires
        0 <= i <= from <= s.len(),
    ensures
        find_char(s.skip(i), c, from - i) == find_char(s, c, from) - i,
    decreases s.len() - from,
{
    if from < s.len() && s[from] != c {
        lemma_find_char_skip(s, c, i, from + 1);
    }
}

/// The parts of `s` between the occurrences of `c`.
pub fn split_on(s: &str, c: char) -> (res: Vec<String>)
    ensures
        texts(res@) == split_char(s@, c),
{
    let v = chars_of(s);
    let mut out: Vec<String> = Vec::new();
    let mut i: usize = 0;
    assert(s@.skip(0) =~= s@);
    assert(texts(out@) + split_char(s@, c) =~= split_char(s@, c));
    loop
        invariant
            v@ == s@,
            i <= v@.len(),
            texts(out@) + split_char(s@.skip(i as int), c) == split_char(s@, c),
        decreases v@.len() - i,
    {
        let e: usize = position_of(&v, c, i);
        proof {
            lemma_find_char_skip(s@, c, i as int, i as int);
        }
        let ghost rest = s@.skip(i as int);
        let ghost before = out@;
        let part = string_from(&v, i, e);
        assert(part@ =~= rest.take(e - i));
        if e < v.len() {
            assert(rest.skip(e - i + 1) =~= s@.skip(e + 1));
            let ghost p = part;
            out.push(part);
            proof {
                lemma_texts_push(before, p);
                assert(texts(before) + (seq![p@] + split_char(s@.skip(e + 1), c)) =~= texts(before).push(
                    p@,
                ) + split_char(s@.skip(e + 1), c));
            }
            i = e + 1;
        } else {
            assert(rest.take(e - i) =~= rest);
            let ghost p = part;
            out.push(part);
            proof {
                lemma_texts_push(before, p);
                assert(texts(before) + seq![p@] =~= texts(before).push(p@));
            }
            return out;
        }
    }
}

/// A line without the carriage return that ends it, if one does.
pub open spec fn strip_return(s: Seq<char>) -> Seq<char> {
    if s.len() > 0 && s.last() == '\r' {
        s.drop_last()
    } else {
        s
    }
}

/// The lines of `s`: each ends at a line feed, with or without a carriage return before it, and
/// what follows the last line feed is a line unless it is empty.
pub open spec fn lines(s: Seq<char>) -> Seq<Seq<char>>
    decreases s.len(),
{
    let e = find_char(s, '\n', 0);
    if s.len() == 0 {
        seq![]
    } else if 0 <= e < s.len() {
        seq![strip_return(s.take(e))] + lines(s.skip(e + 1))
    } else {
        seq![s]
    }
}

/// The lines of `s`.
pub fn lines_of(s: &str) -> (res: Vec<String>)
    ensures
        texts(res@) == lines(s@),
{
    let v = chars_of(s);
    let mut out: Vec<String> = Vec::new();
    let mut i: usize = 0;
    assert(s@.skip(0) =~= s@);
    assert(texts(out@) + lines(s@) =~= lines(s@));
    while i < v.len()
        invariant
            v@ == s@,
            i <= v@.len(),
            texts(out@) + lines(s@.skip(i as int)) == lines(s@),
        decreases v@.len() - i,
    {
        let e: usize = position_of(&v, '\n', i);
        proof {
            lemma_find_char_skip(s@, '\n', i as int, i as int);
        }
        let ghost rest = s@.skip(i as int);
        let ghost before = out@;
        if e < v.len() {
            let stop: usize = if e > i && v[e - 1] == '\r' {
                e - 1
            } else {
                e
            };
            let part = string_from(&v, i, stop);
            let ghost p = part;
            assert(p@ =~= strip_return(rest.take(e - i)));
            assert(rest.skip(e - i + 1) =~= s@.skip(e + 1));
            out.push(part);
            proof {
                lemma_texts_push(before, p);
                assert(texts(before) + (seq![p@] + lines(s@.skip(e + 1))) =~= texts(before).push(p@)
                    + lines(s@.skip(e + 1)));
            }
            i = e + 1;
        } else {
            let part = string_from(&v, i, e);
            let ghost p = part;
            assert(p@ =~= rest);
            out.push(part);
            proof {
                lemma_texts_push(before, p);
                assert(texts(before) + seq![p@] =~= texts(before).push(p@));
                assert(lines(s@.skip(e as int)) =~= seq![]);
                assert(texts(out@) + lines(s@.skip(e as int)) =~= texts(out@));
            }
            i = e;
        }
    }
    assert(texts(out@) + lines(s@.skip(i as int)) =~= texts(out@));
    out
}

/// The first position of whitespace in `s` at or after `from`, or the length of `s`.
pub open spec fn find_white(s: Seq<char>, from: int) -> int
    decreases s.len() - from,
{
    if from >= s.len() {
        s.len() as int
    } else if is_white(s[from]) {
        from
    } else {
        find_white(s, from + 1)
    }
}

/// `find_white` stays between where it starts and the end of the text.
pub proof fn lemma_find_white(s: Seq<char>, from: int)
    requires
        0 <= from <= s.len(),
    ensures
        from <= find_white(s, from) <= s.len(),
        find_white(s, from) < s.len() ==> is_white(s[find_white(s, from)]),
        forall|i: int| from <= i < find_white(s, from) ==> !is_white(s[i]),
    decreases s.len() - from,
{
    if from < s.len() && !is_white(s[from]) {
        lemma_find_white(s, from + 1);
    }
}

/// Trimming never makes a text longer.
pub proof fn lemma_trim_start(s: Seq<char>)
    ensures
        trim_start(s).len() <= s.len(),
        trim_start(s).len() > 0 ==> !is_white(trim_start(s)[0]),
    decreases s.len(),
{
    if s.len() > 0 && is_white(s[0]) {
        lemma_trim_start(s.skip(1));
    }
}

/// The words of `s`: its longest stretches without whitespace.
pub open spec fn words(s: Seq<char>) -> Seq<Seq<char>>
    decreases s.len(),
{
    let t = trim_start(s);
    let e = find_white(t, 0);
    if t.len() == 0 || t.len() > s.len() || e <= 0 || e > t.len() {
        seq![]
    } else {
        seq![t.take(e)] + words(t.skip(e))
    }
}

proof fn lemma_find_white_skip(s: Seq<char>, i: int, from: int)
    requires
        0 <= i <= from <= s.len(),
    ensures
        find_white(s.skip(i), from - i) == find_white(s, from) - i,
    decreases s.len() - from,
{
    if from < s.len() && !is_white(s[from]) {
        lemma_find_white_skip(s, i, from + 1);
    }
}

/// The words of `s`.
pub fn words_of(s: &str) -> (res: Vec<String>)
    ensures
        texts(res@) == words(s@),
{
    let v = chars_of(s);
    let mut out: Vec<String> = Vec::new();
    let mut i: usize = 0;
    assert(s@.skip(0) =~= s@);
    assert(texts(out@) + words(s@) =~= words(s@));
    while i < v.len()
        invariant
            v@ == s@,
            i <= v@.len(),
            texts(out@) + words(s@.skip(i as int)) == words(s@),
        decreases v@.len() - i,
    {
        let ghost rest = s@.skip(i as int);
        if white(v[i]) {
            proof {
                assert(rest.skip(1) =~= s@.skip(i + 1));
                lemma_trim_start(rest.skip(1));
                assert(trim_start(rest) == trim_start(rest.skip(1)));
                assert(words(rest) == words(rest.skip(1)));
            }
            i += 1;
        } else {
            let mut e: usize = i;
            while e < v.len() && !white(v[e])
                invariant
                    v@ == s@,
                    i <= e <= v@.len(),
                    e > i || !is_white(v@[i as int]),
                    i < v@.len(),
                    find_white(s@, i as int) == find_white(s@, e as int),
                decreases v@.len() - e,
            {
                e += 1;
            }
            let ghost before = out@;
            let part = string_from(&v, i, e);
            let ghost p = part;
            out.push(part);
            proof {
                lemma_find_white_skip(s@, i as int, i as int);
                assert(trim_start(rest) == rest);
                assert(find_white(rest, 0) == e - i);
                assert(p@ =~= rest.take(e - i));
                assert(rest.skip(e - i) =~= s@.skip(e as int));
                assert(words(rest) == seq![p@] + words(s@.skip(e as int)));
                lemma_texts_push(before, p);
                assert(texts(before) + (seq![p@] + words(s@.skip(e as int))) =~= texts(before).push(p@)
                    + words(s@.skip(e as int)));
            }
            i = e;
        }
    }
    assert(words(s@.skip(i as int)) =~= seq![]);
    assert(texts(out@) + words(s@.skip(i as int)) =~= texts(out@));
    out
}

/// The texts of `v` with `sep` between each two of them.
pub open spec fn join(v: Seq<Seq<char>>, sep: Seq<char>) -> Seq<char>
    decreases v.len(),
{
    if v.len() == 0 {
        seq![]
    } else if v.len() == 1 {
        v[0]
    } else {
        join(v.drop_last(), sep) + sep + v.last()
    }
}

/// The strings of `v` from `from` on, with `sep` between each two of them.
pub fn join_from(v: &Vec<String>, from: usize, sep: &str) -> (res: String)
    requires
        from <= v@.len(),
    ensures
        res@ == join(texts(v@).skip(from as int), sep@),
{
    let mut out: String = String::new();
    let mut i: usize = from;
    let ghost all = texts(v@).skip(from as int);
    assert(all.take(0) =~= seq![]);
    while i < v.len()
        invariant
            from <= i <= v@.len(),
            all == texts(v@).skip(from as int),
            out@ == join(all.take(i - from), sep@),
        decreases v@.len() - i,
    {
        let ghost k = i - from;
        proof {
            assert(all.take(k + 1).drop_last() =~= all.take(k));
            assert(all.take(k + 1).last() == v@[i as int]@);
        }
        if i > from {
            out.append(sep);
        }
        out.append(v[i].as_str());
        proof {
            if k == 0 {
                assert(seq![] + v@[i as int]@ =~= v@[i as int]@);
            }
        }
        i += 1;
    }
    assert(all.take(v@.len() - from) =~= all);
    out
}

/// The strings of `v` with `sep` between each two of them.
pub fn join_list(v: &Vec<String>, sep: &str) -> (res: String)
    ensures
        res@ == join(texts(v@), sep@),
{
    assert(texts(v@).skip(0) =~= texts(v@));
    join_from(v, 0, sep)
}

/// `s` with each occurrence of `pat`, taken from the left without overlap, replaced by `with`.
pub open spec fn replace_all(s: Seq<char>, pat: Seq<char>, with: Seq<char>) -> Seq<char>
    decreases s.len(),
{
    if pat.len() == 0 || s.len() == 0 {
        s
    } else if occurs_at(s, pat, 0) {
        with + replace_all(s.skip(pat.len() as int), pat, with)
    } else {
        seq![s[0]] + replace_all(s.skip(1), pat, with)
    }
}

/// `s` with each occurrence of `pat`, taken from the left without overlap, replaced by `with`.
pub fn replaced(s: &str, pat: &str, with: &str) -> (res: String)
    requires
        pat@.len() > 0,
    ensures
        res@ == replace_all(s@, pat@, with@),
{
    let v = chars_of(s);
    let p = chars_of(pat);
    let mut out: String = String::new();
    let mut i: usize = 0;
    assert(s@.skip(0) =~= s@);
    assert(out@ + replace_all(s@, pat@, with@) =~= replace_all(s@, pat@, with@));
    while i < v.len()
        invariant
            v@ == s@,
            p@ == pat@,
            pat@.len() > 0,
            i <= v@.len(),
            out@ + replace_all(s@.skip(i as int), pat@, with@) == replace_all(s@, pat@, with@),
        decreases v@.len() - i,
    {
        let ghost rest = s@.skip(i as int);
        let ghost before = out@;
        if run_at(&v, i, &p) {
            out.append(with);
            proof {
                assert(rest.subrange(0, pat@.len() as int) =~= s@.subrange(i as int, i + pat@.len()));
                assert(rest.skip(pat@.len() as int) =~= s@.skip(i + pat@.len()));
                let tail = replace_all(s@.skip(i + pat@.len()), pat@, with@);
                assert(before + (with@ + tail) =~= before + with@ + tail);
            }
            i += p.len();
        } else {
            out.push(v[i]);
            proof {
                if occurs_at(rest, pat@, 0) {
                    assert(rest.subrange(0, pat@.len() as int) =~= s@.subrange(
                        i as int,
                        i + pat@.len(),
                    ));
                }
                assert(rest.skip(1) =~= s@.skip(i + 1));
                let tail = replace_all(s@.skip(i + 1), pat@, with@);
                assert(before + (seq![v@[i as int]] + tail) =~= before.push(v@[i as int]) + tail);
            }
            i += 1;
        }
    }
    assert(s@.skip(i as int) =~= seq![]);
    assert(out@ + seq![] =~= out@);
    out
}

/// Whether the characters of `b` stand in `a` at position `i`.
pub fn run_at(a: &Vec<char>, i: usize, b: &Vec<char>) -> (res: bool)
    ensures
        res == occurs_at(a@, b@, i as int),
{
    if b.len() > a.len() || i > a.len() - b.len() {
        return false;
    }
    crate::text::same_run(a, i, b)
}

} // verus!
