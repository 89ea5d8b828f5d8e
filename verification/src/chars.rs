//! Strings as sequences of characters: reading, comparing, cutting.

use vstd::prelude::*;
use vstd::string::*;

verus! {

/// The parts of `s` between occurrences of `sep`, as `str::split` with a
/// character pattern gives them: one more part than there are separators.
pub open spec fn split_on(s: Seq<char>, sep: char) -> Seq<Seq<char>>
    decreases s.len(),
{
    if s.len() == 0 {
        seq![Seq::<char>::empty()]
    } else {
        let parts = split_on(s.drop_last(), sep);
        if s.last() == sep {
            parts.push(Seq::<char>::empty())
        } else {
            parts.update(parts.len() - 1, parts.last().push(s.last()))
        }
    }
}

/// Whether `s` begins with `prefix`.
pub open spec fn has_prefix(s: Seq<char>, prefix: Seq<char>) -> bool {
    prefix.len() <= s.len() && s.take(prefix.len() as int) == prefix
}

/// The characters of `s`, in order.
pub fn chars_of(s: &str) -> (v: Vec<char>)
    ensures
        v@ == s@,
{
    let n = s.unicode_len();
    let mut v: Vec<char> = Vec::new();
    let mut i: usize = 0;
    while i < n
        invariant
            n == s@.len(),
            i <= n,
            v@ == s@.take(i as int),
        decreases n - i,
    {
        v.push(s.get_char(i));
        i = i + 1;
        assert(v@ =~= s@.take(i as int));
    }
    assert(s@.take(n as int) =~= s@);
    v
}

/// Whether `a` and `b` hold the same characters.
pub fn same_chars(a: &Vec<char>, b: &Vec<char>) -> (res: bool)
    ensures
        res == (a@ == b@),
{
    if a.len() != b.len() {
        return false;
    }
    let mut i: usize = 0;
    while i < a.len()
        invariant
            a@.len() == b@.len(),
            i <= a@.len(),
            a@.take(i as int) == b@.take(i as int),
        decreases a.len() - i,
    {
        if a[i] != b[i] {
            assert(a@.take(i + 1)[i as int] != b@.take(i + 1)[i as int]);
            assert(a@ != b@ || a@.take(i + 1) == b@.take(i + 1));
            return false;
        }
        assert(a@.take(i + 1) =~= a@.take(i as int).push(a[i as int]));
        assert(b@.take(i + 1) =~= b@.take(i as int).push(b[i as int]));
        i = i + 1;
    }
    assert(a@.take(a@.len() as int) =~= a@);
    assert(b@.take(b@.len() as int) =~= b@);
    true
}

/// Whether `s` holds exactly the characters of `t`.
pub fn is_text(s: &Vec<char>, t: &str) -> (res: bool)
    ensures
        res == (s@ == t@),
{
    same_chars(s, &chars_of(t))
}

/// Whether `s` begins with the characters of `prefix`.
pub fn starts_with(s: &Vec<char>, prefix: &Vec<char>) -> (res: bool)
    ensures
        res == has_prefix(s@, prefix@),
{
    if prefix.len() > s.len() {
        return false;
    }
    let mut i: usize = 0;
    while i < prefix.len()
        invariant
            prefix@.len() <= s@.len(),
            i <= prefix@.len(),
            s@.take(i as int) == prefix@.take(i as int),
        decreases prefix.len() - i,
    {
        if s[i] != prefix[i] {
            assert(s@.take(prefix@.len() as int)[i as int] != prefix@[i as int]);
            return false;
        }
        assert(s@.take(i + 1) =~= s@.take(i as int).push(s[i as int]));
        assert(prefix@.take(i + 1) =~= prefix@.take(i as int).push(prefix[i as int]));
        i = i + 1;
    }
    assert(prefix@.take(prefix@.len() as int) =~= prefix@);
    true
}

/// The characters of `s` from position `from` on.
pub fn skip_chars(s: &Vec<char>, from: usize) -> (rest: Vec<char>)
    requires
        from <= s@.len(),
    ensures
        rest@ == s@.skip(from as int),
{
    let mut rest: Vec<char> = Vec::new();
    let mut i: usize = from;
    while i < s.len()
        invariant
            from <= i <= s@.len(),
            rest@ == s@.subrange(from as int, i as int),
        decreases s.len() - i,
    {
        rest.push(s[i]);
        i = i + 1;
        assert(rest@ =~= s@.subrange(from as int, i as int));
    }
    assert(rest@ =~= s@.skip(from as int));
    rest
}

/// Splits `s` at every occurrence of `sep`, as `str::split` does.
pub fn split_chars(s: &Vec<char>, sep: char) -> (parts: Vec<Vec<char>>)
    ensures
        parts.deep_view() == split_on(s@, sep),
{
    let mut done: Vec<Vec<char>> = Vec::new();
    let mut cur: Vec<char> = Vec::new();
    let mut i: usize = 0;
    assert(s@.take(0) =~= Seq::<char>::empty());
    assert(done.deep_view().push(cur@) =~= split_on(s@.take(0), sep));
    while i < s.len()
        invariant
            i <= s@.len(),
            done.deep_view().push(cur@) == split_on(s@.take(i as int), sep),
        decreases s.len() - i,
    {
        let c = s[i];
        let ghost before = done.deep_view();
        let ghost cur_before = cur@;
        assert(s@.take(i + 1).drop_last() =~= s@.take(i as int));
        if c == sep {
            done.push(cur);
            cur = Vec::new();
            assert(done@.last().deep_view() =~= cur_before);
            assert(done.deep_view() =~= before.push(cur_before));
        } else {
            cur.push(c);
        }
        i = i + 1;
        assert(done.deep_view().push(cur@) =~= split_on(s@.take(i as int), sep));
    }
    let ghost before = done.deep_view();
    let ghost cur_before = cur@;
    done.push(cur);
    assert(done@.last().deep_view() =~= cur_before);
    assert(done.deep_view() =~= before.push(cur_before));
    assert(s@.take(s@.len() as int) =~= s@);
    done
}

} // verus!
