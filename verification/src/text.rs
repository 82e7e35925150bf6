//! Text as sequences of characters: the vocabulary that every other module states its contracts
//! in, and the executable functions that compute it.

use vstd::prelude::*;
use vstd::string::*;

verus! {

/// Appends one character; std documents `String::push` as exactly that.
pub assume_specification[ String::push ](s: &mut String, c: char)
    ensures
        final(s)@ == old(s)@.push(c),
;

/// The texts that a sequence of strings holds.
pub open spec fn texts(v: Seq<String>) -> Seq<Seq<char>> {
    Seq::new(v.len(), |i: int| v[i]@)
}

/// Whether `pat` stands in `s` at position `i`.
pub open spec fn occurs_at(s: Seq<char>, pat: Seq<char>, i: int) -> bool {
    &&& 0 <= i
    &&& i + pat.len() <= s.len()
    &&& s.subrange(i, i + pat.len()) == pat
}

/// Whether `pat` stands anywhere in `s`.
pub open spec fn contains_text(s: Seq<char>, pat: Seq<char>) -> bool {
    exists|i: int| occurs_at(s, pat, i)
}

/// Whether `s` begins with `pat`.
pub open spec fn starts_with_text(s: Seq<char>, pat: Seq<char>) -> bool {
    occurs_at(s, pat, 0)
}

/// The characters of a string.
pub fn chars_of(s: &str) -> (res: Vec<char>)
    ensures
        res@ == s@,
{
    let mut out: Vec<char> = Vec::new();
    for c in it: s.chars()
        invariant
            out@ == it.seq().take(it.index()),
            it.seq() == s@,
    {
        out.push(c);
    }
    assert(out@ =~= s@);
    out
}

/// The string of a range of characters.
pub fn string_from(v: &Vec<char>, from: usize, to: usize) -> (res: String)
    requires
        from <= to <= v@.len(),
    ensures
        res@ == v@.subrange(from as int, to as int),
{
    let mut out: String = String::new();
    let mut i: usize = from;
    while i < to
        invariant
            from <= i <= to <= v@.len(),
            out@ == v@.subrange(from as int, i as int),
        decreases to - i,
    {
        out.push(v[i]);
        i += 1;
        assert(v@.subrange(from as int, i as int) =~= v@.subrange(from as int, i - 1).push(v@[i - 1]));
    }
    out
}

/// Whether the characters of `b` stand in `a` at position `i`, which leaves room for them.
pub fn same_run(a: &Vec<char>, i: usize, b: &Vec<char>) -> (res: bool)
    requires
        i + b@.len() <= a@.len(),
    ensures
        res == occurs_at(a@, b@, i as int),
{
    let mut k: usize = 0;
    let size: usize = a.len();
    while k < b.len()
        invariant
            k <= b@.len(),
            size == a@.len(),
            i + b@.len() <= a@.len(),
            forall|j: int| 0 <= j < k ==> a@[i + j] == b@[j],
        decreases b@.len() - k,
    {
        if a[i + k] != b[k] {
            assert(a@.subrange(i as int, i + b@.len())[k as int] != b@[k as int]);
            return false;
        }
        k += 1;
    }
    assert(a@.subrange(i as int, i + b@.len()) =~= b@);
    true
}

/// Whether two strings hold the same text.
pub fn same_text(a: &str, b: &str) -> (res: bool)
    ensures
        res == (a@ == b@),
{
    let x = chars_of(a);
    let y = chars_of(b);
    if x.len() != y.len() {
        return false;
    }
    let res = same_run(&x, 0, &y);
    assert(x@.subrange(0, y@.len() as int) =~= x@);
    res
}


/// Whether `pat` stands anywhere in `s`.
pub fn str_contains(s: &str, pat: &str) -> (res: bool)
    ensures
        res == contains_text(s@, pat@),
{
    let x = chars_of(s);
    let y = chars_of(pat);
    if y.len() > x.len() {
        return false;
    }
    let last: usize = x.len() - y.len();
    let mut i: usize = 0;
    while i <= last
        invariant
            x@ == s@,
            y@ == pat@,
            y@.len() <= x@.len(),
            last == x@.len() - y@.len(),
            i <= last + 1,
            forall|j: int| 0 <= j < i ==> !occurs_at(s@, pat@, j),
        decreases last + 1 - i,
    {
        if same_run(&x, i, &y) {
            return true;
        }
        if i == last {
            return false;
        }
        i += 1;
    }
    false
}

/// Whether `s` begins with `pat`.
pub fn str_starts_with(s: &str, pat: &str) -> (res: bool)
    ensures
        res == starts_with_text(s@, pat@),
{
    let x = chars_of(s);
    let y = chars_of(pat);
    y.len() <= x.len() && same_run(&x, 0, &y)
}

/// Whether some element of `v` holds the text `s`.
pub fn list_contains(v: &Vec<String>, s: &str) -> (res: bool)
    ensures
        res == texts(v@).contains(s@),
{
    let mut i: usize = 0;
    while i < v.len()
        invariant
            i <= v@.len(),
            forall|j: int| 0 <= j < i ==> v@[j]@ != s@,
        decreases v@.len() - i,
    {
        if same_text(v[i].as_str(), s) {
            assert(texts(v@)[i as int] == s@);
            return true;
        }
        i += 1;
    }
    false
}

/// Two texts after each other.
pub fn cat2(a: &str, b: &str) -> (res: String)
    ensures
        res@ == a@ + b@,
{
    let mut s = String::from_str(a);
    s.append(b);
    s
}

/// Three texts after each other.
pub fn cat3(a: &str, b: &str, c: &str) -> (res: String)
    ensures
        res@ == a@ + b@ + c@,
{
    let mut s = cat2(a, b);
    s.append(c);
    s
}

/// Four texts after each other.
pub fn cat4(a: &str, b: &str, c: &str, d: &str) -> (res: String)
    ensures
        res@ == a@ + b@ + c@ + d@,
{
    let mut s = cat3(a, b, c);
    s.append(d);
    s
}

/// Five texts after each other.
pub fn cat5(a: &str, b: &str, c: &str, d: &str, e: &str) -> (res: String)
    ensures
        res@ == a@ + b@ + c@ + d@ + e@,
{
    let mut s = cat4(a, b, c, d);
    s.append(e);
    s
}

/// A copy of an optional string.
pub fn copy_option(s: &Option<String>) -> (res: Option<String>)
    ensures
        option_text(res) == option_text(*s),
{
    match s {
        Some(t) => Some(t.clone()),
        None => None,
    }
}

/// A copy of a list of strings.
pub fn copy_list(v: &Vec<String>) -> (res: Vec<String>)
    ensures
        texts(res@) == texts(v@),
{
    let mut out: Vec<String> = Vec::new();
    let mut i: usize = 0;
    while i < v.len()
        invariant
            i <= v@.len(),
            texts(out@) == texts(v@).take(i as int),
        decreases v@.len() - i,
    {
        let ghost before = out@;
        out.push(v[i].clone());
        proof {
            lemma_texts_push(before, out@[i as int]);
        }
        i += 1;
        assert(texts(v@).take(i as int) =~= texts(v@).take(i - 1).push(texts(v@)[i - 1]));
    }
    assert(texts(v@).take(v@.len() as int) =~= texts(v@));
    out
}

/// Appends copies of the strings of `more` to `v`.
pub fn extend_list(v: &mut Vec<String>, more: &Vec<String>)
    ensures
        texts(final(v)@) == texts(old(v)@) + texts(more@),
{
    let mut copied = copy_list(more);
    let ghost a = v@;
    let ghost b = copied@;
    v.append(&mut copied);
    assert(texts(a + b) =~= texts(a) + texts(b));
}

/// The texts of a list, and then the new ones among the first `n` of others.
pub open spec fn with_missing(list: Seq<Seq<char>>, more: Seq<Seq<char>>, n: int) -> Seq<Seq<char>>
    decreases n,
{
    if n <= 0 {
        list
    } else {
        let rest = with_missing(list, more, n - 1);
        if rest.contains(more[n - 1]) {
            rest
        } else {
            rest.push(more[n - 1])
        }
    }
}

/// Appends copies of those strings of `more` to `v` that are not there yet.
pub fn extend_missing(v: &mut Vec<String>, more: &Vec<String>)
    ensures
        texts(final(v)@) == with_missing(texts(old(v)@), texts(more@), more@.len() as int),
{
    let ghost was = texts(v@);
    let ghost others = texts(more@);
    let mut i: usize = 0;
    while i < more.len()
        invariant
            i <= more@.len(),
            others == texts(more@),
            texts(v@) == with_missing(was, others, i as int),
        decreases more@.len() - i,
    {
        assert(others[i as int] == more@[i as int]@);
        if !list_contains(v, more[i].as_str()) {
            let one = String::from_str(more[i].as_str());
            proof {
                lemma_texts_push(v@, one);
            }
            v.push(one);
        }
        i += 1;
    }
}

/// The texts of a list that may be absent.
pub open spec fn option_texts(v: Option<Vec<String>>) -> Option<Seq<Seq<char>>> {
    match v {
        Some(v) => Some(texts(v@)),
        None => None,
    }
}

/// The text of an optional string.
pub open spec fn option_text(s: Option<String>) -> Option<Seq<char>> {
    match s {
        Some(t) => Some(t@),
        None => None,
    }
}

/// Adding a string to a list adds its text to the texts.
pub proof fn lemma_texts_push(v: Seq<String>, s: String)
    ensures
        texts(v.push(s)) == texts(v).push(s@),
{
    assert(texts(v.push(s)) =~= texts(v).push(s@));
}

/// One character `n` times.
pub open spec fn repeated(c: char, n: nat) -> Seq<char> {
    Seq::new(n, |i: int| c)
}

/// One character `n` times.
pub fn repeat_char(c: char, n: usize) -> (res: String)
    ensures
        res@ == repeated(c, n as nat),
{
    proof {
        reveal_strlit("");
    }
    let mut out = String::from_str("");
    let mut i: usize = 0;
    assert(out@ =~= repeated(c, 0));
    while i < n
        invariant
            i <= n,
            out@ == repeated(c, i as nat),
        decreases n - i,
    {
        out.push(c);
        i += 1;
        assert(out@ =~= repeated(c, i as nat));
    }
    out
}

/// The items of a list that are, or are not, among others.
pub open spec fn among(others: Seq<Seq<char>>, wanted: bool) -> spec_fn(Seq<char>) -> bool {
    |s: Seq<char>| others.contains(s) == wanted
}

/// The items of a list that are, or are not, among others.
pub fn select(list: &Vec<String>, others: &Vec<String>, wanted: bool) -> (res: Vec<String>)
    ensures
        texts(res@) == texts(list@).filter(among(texts(others@), wanted)),
{
    let ghost all = texts(list@);
    let ghost p = among(texts(others@), wanted);
    let mut out: Vec<String> = Vec::new();
    let mut i: usize = 0;
    proof {
        reveal(Seq::filter);
        assert(texts(out@) =~= all.take(0).filter(p));
    }
    while i < list.len()
        invariant
            i <= list@.len(),
            all == texts(list@),
            p == among(texts(others@), wanted),
            texts(out@) == all.take(i as int).filter(p),
        decreases list@.len() - i,
    {
        proof {
            reveal(Seq::filter);
            assert(all.take(i as int + 1).drop_last() =~= all.take(i as int));
            assert(all.take(i as int + 1).last() == list@[i as int]@);
        }
        if list_contains(others, list[i].as_str()) == wanted {
            let one = String::from_str(list[i].as_str());
            let ghost before = out@;
            out.push(one);
            proof {
                lemma_texts_push(before, one);
            }
        }
        i += 1;
    }
    assert(all.take(i as int) =~= all);
    out
}

} // verus!
