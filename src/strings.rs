//! Character-level string helpers.
use vstd::prelude::*;
use vstd::string::*;

verus! {

/// Whether two strings hold the same characters.
pub fn str_eq(a: &str, b: &str) -> (r: bool)
    ensures
        r == (a@ == b@),
{
    let n = a.unicode_len();
    if n != b.unicode_len() {
        return false;
    }
    let mut i: usize = 0;
    while i < n
        invariant
            n == a@.len(),
            n == b@.len(),
            i <= n,
            forall|k: int| 0 <= k < i ==> a@[k] == b@[k],
        decreases n - i,
    {
        if a.get_char(i) != b.get_char(i) {
            return false;
        }
        i = i + 1;
    }
    assert(a@ =~= b@);
    true
}

/// Whether `s` starts with the character `c`.
pub fn starts_with_char(s: &str, c: char) -> (r: bool)
    ensures
        r == (s@.len() > 0 && s@[0] == c),
{
    if s.unicode_len() == 0 {
        false
    } else {
        s.get_char(0) == c
    }
}

/// Position of the last `c` in `s`, or -1 when there is none.
pub open spec fn last_index_of(s: Seq<char>, c: char) -> int
    decreases s.len(),
{
    if s.len() == 0 {
        -1
    } else if s.last() == c {
        s.len() - 1
    } else {
        last_index_of(s.drop_last(), c)
    }
}

pub proof fn lemma_last_index_bounds(s: Seq<char>, c: char)
    ensures
        -1 <= last_index_of(s, c) < s.len(),
        last_index_of(s, c) >= 0 ==> s[last_index_of(s, c)] == c,
    decreases s.len(),
{
    if s.len() > 0 && s.last() != c {
        lemma_last_index_bounds(s.drop_last(), c);
    }
}

/// The part of `s` before its last `c`; empty when `s` holds no `c`.
pub open spec fn prefix_before_last(s: Seq<char>, c: char) -> Seq<char> {
    let k = last_index_of(s, c);
    if k < 0 {
        Seq::empty()
    } else {
        s.subrange(0, k)
    }
}

/// Index of the last `c` in `s`, if any.
pub fn rfind(s: &str, c: char) -> (r: Option<usize>)
    ensures
        r.is_some() == (last_index_of(s@, c) >= 0),
        r.is_some() ==> r.unwrap() == last_index_of(s@, c),
{
    let n = s.unicode_len();
    let mut i: usize = n;
    assert(s@.subrange(0, n as int) =~= s@);
    while i > 0
        invariant
            n == s@.len(),
            i <= n,
            last_index_of(s@, c) == last_index_of(s@.subrange(0, i as int), c),
        decreases i,
    {
        let ghost t = s@.subrange(0, i as int);
        if s.get_char(i - 1) == c {
            return Some(i - 1);
        }
        proof {
            assert(t.drop_last() =~= s@.subrange(0, i - 1));
        }
        i = i - 1;
    }
    None
}

/// Whether the parts of `a` and `b` before their last `c` agree.
pub fn same_prefix_before_last(a: &str, b: &str, c: char) -> (r: bool)
    ensures
        r == (prefix_before_last(a@, c) == prefix_before_last(b@, c)),
{
    proof {
        lemma_last_index_bounds(a@, c);
        lemma_last_index_bounds(b@, c);
    }
    let ka = rfind(a, c);
    let kb = rfind(b, c);
    let la: usize = match ka {
        Some(k) => k,
        None => 0,
    };
    let lb: usize = match kb {
        Some(k) => k,
        None => 0,
    };
    assert(prefix_before_last(a@, c) =~= a@.subrange(0, la as int));
    assert(prefix_before_last(b@, c) =~= b@.subrange(0, lb as int));
    if la != lb {
        proof {
            if prefix_before_last(a@, c) == prefix_before_last(b@, c) {
                assert(prefix_before_last(a@, c).len() == la);
            }
        }
        return false;
    }
    let mut i: usize = 0;
    while i < la
        invariant
            la == lb,
            la <= a@.len(),
            lb <= b@.len(),
            prefix_before_last(a@, c) == a@.subrange(0, la as int),
            prefix_before_last(b@, c) == b@.subrange(0, lb as int),
            i <= la,
            forall|k: int| 0 <= k < i ==> a@[k] == b@[k],
        decreases la - i,
    {
        if a.get_char(i) != b.get_char(i) {
            proof {
                assert(prefix_before_last(a@, c)[i as int] == a@[i as int]);
                assert(prefix_before_last(b@, c)[i as int] == b@[i as int]);
            }
            return false;
        }
        i = i + 1;
    }
    assert(prefix_before_last(a@, c) =~= prefix_before_last(b@, c));
    true
}

/// `s` with every `from` replaced by `to`.
pub open spec fn replace_char(s: Seq<char>, from: char, to: char) -> Seq<char> {
    Seq::new(s.len(), |i: int| if s[i] == from { to } else { s[i] })
}

pub fn replace_all(s: &str, from: char, to: char) -> (r: String)
    ensures
        r@ == replace_char(s@, from, to),
{
    let n = s.unicode_len();
    let mut out = String::new();
    let mut i: usize = 0;
    while i < n
        invariant
            n == s@.len(),
            i <= n,
            out@ =~= replace_char(s@.subrange(0, i as int), from, to),
        decreases n - i,
    {
        let ch = s.get_char(i);
        crate::class_file::push_char(&mut out, if ch == from { to } else { ch });
        i = i + 1;
    }
    assert(s@.subrange(0, n as int) =~= s@);
    out
}

} // verus!
