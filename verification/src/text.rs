use vstd::prelude::*;
use vstd::std_specs::iter::IteratorSpec;

verus! {

/// Relies on `String::push` from std: it appends exactly the given character
/// to the end of the string.
pub assume_specification[ String::push ](s: &mut String, ch: char)
    ensures
        final(s)@ == old(s)@.push(ch),
;

/// Collects the characters of a string slice into a vector, one entry per
/// character, in order.
pub fn to_chars(s: &str) -> (r: Vec<char>)
    ensures
        r@ == s@,
{
    let mut it = s.chars();
    let mut r: Vec<char> = Vec::new();
    loop
        invariant
            r@ + it.remaining() == s@,
            it.decrease() is Some,
        ensures
            r@ == s@,
        decreases it.decrease().unwrap(),
    {
        match it.next() {
            Some(c) => {
                r.push(c);
                proof {
                    assert(r@ + it.remaining() =~= s@);
                }
            },
            None => {
                proof {
                    assert(r@ =~= s@);
                }
                break;
            },
        }
    }
    r
}

/// The least index `i >= from` with `t[i] == c`, if any.
pub open spec fn spec_find(t: Seq<char>, c: char, from: int) -> Option<int>
    decreases t.len() - from,
{
    if from < 0 || from >= t.len() {
        None
    } else if t[from] == c {
        Some(from)
    } else {
        spec_find(t, c, from + 1)
    }
}

/// The least index `i >= from` where `t[i]` is `<` or `>`, if any.
pub open spec fn spec_find_bracket(t: Seq<char>, from: int) -> Option<int>
    decreases t.len() - from,
{
    if from < 0 || from >= t.len() {
        None
    } else if t[from] == '<' || t[from] == '>' {
        Some(from)
    } else {
        spec_find_bracket(t, from + 1)
    }
}

/// A found index lies between `from` and the end of `t`, and carries `c`.
pub proof fn lemma_find_range(t: Seq<char>, c: char, from: int)
    ensures
        match spec_find(t, c, from) {
            Some(j) => from <= j < t.len() && t[j] == c,
            None => true,
        },
    decreases t.len() - from,
{
    if from < 0 || from >= t.len() {
    } else if t[from] == c {
    } else {
        lemma_find_range(t, c, from + 1);
    }
}

/// A found bracket index lies between `from` and the end of `t`.
pub proof fn lemma_find_bracket_range(t: Seq<char>, from: int)
    ensures
        match spec_find_bracket(t, from) {
            Some(j) => from <= j < t.len() && (t[j] == '<' || t[j] == '>'),
            None => true,
        },
    decreases t.len() - from,
{
    if from < 0 || from >= t.len() {
    } else if t[from] == '<' || t[from] == '>' {
    } else {
        lemma_find_bracket_range(t, from + 1);
    }
}

/// How many times `c` occurs in `t`.
pub open spec fn spec_count(t: Seq<char>, c: char) -> int
    decreases t.len(),
{
    if t.len() == 0 {
        0
    } else {
        (if t[0] == c {
            1int
        } else {
            0int
        }) + spec_count(t.drop_first(), c)
    }
}

/// Finds the first occurrence of `c` in `v` at or after index `from`.
pub fn find_char(v: &Vec<char>, c: char, from: usize) -> (r: Option<usize>)
    ensures
        match r {
            Some(j) => from <= j < v@.len() && spec_find(v@, c, from as int) == Some(j as int),
            None => spec_find(v@, c, from as int) is None,
        },
{
    let mut i: usize = from;
    while i < v.len()
        invariant
            from <= i,
            spec_find(v@, c, from as int) == spec_find(v@, c, i as int),
        decreases v@.len() - i,
    {
        if v[i] == c {
            return Some(i);
        }
        i = i + 1;
    }
    None
}

/// Finds the first `<` or `>` in `v` at or after index `from`.
pub fn find_bracket(v: &Vec<char>, from: usize) -> (r: Option<usize>)
    ensures
        match r {
            Some(j) => from <= j < v@.len() && spec_find_bracket(v@, from as int) == Some(j as int),
            None => spec_find_bracket(v@, from as int) is None,
        },
{
    let mut i: usize = from;
    while i < v.len()
        invariant
            from <= i,
            spec_find_bracket(v@, from as int) == spec_find_bracket(v@, i as int),
        decreases v@.len() - i,
    {
        if v[i] == '<' || v[i] == '>' {
            return Some(i);
        }
        i = i + 1;
    }
    None
}

/// Counts the occurrences of `c` in `v`.
pub fn count_char(v: &Vec<char>, c: char) -> (n: usize)
    ensures
        n == spec_count(v@, c),
{
    let mut n: usize = 0;
    let mut i: usize = 0;
    proof {
        assert(v@.skip(0) =~= v@);
    }
    while i < v.len()
        invariant
            i <= v@.len(),
            n <= i,
            spec_count(v@, c) == n + spec_count(v@.skip(i as int), c),
        decreases v@.len() - i,
    {
        proof {
            assert(v@.skip(i as int).drop_first() =~= v@.skip(i as int + 1));
            assert(v@.skip(i as int)[0] == v@[i as int]);
        }
        if v[i] == c {
            n = n + 1;
        }
        i = i + 1;
    }
    proof {
        assert(v@.skip(i as int) =~= Seq::<char>::empty());
    }
    n
}

/// Copies the characters `v[start..end]` into a fresh vector.
pub fn subrange_vec(v: &Vec<char>, start: usize, end: usize) -> (r: Vec<char>)
    requires
        start <= end,
        end <= v@.len(),
    ensures
        r@ == v@.subrange(start as int, end as int),
{
    let mut r: Vec<char> = Vec::new();
    let mut i: usize = start;
    proof {
        assert(r@ =~= v@.subrange(start as int, start as int));
    }
    while i < end
        invariant
            start <= i <= end,
            end <= v@.len(),
            r@ == v@.subrange(start as int, i as int),
        decreases end - i,
    {
        r.push(v[i]);
        i = i + 1;
        proof {
            assert(r@ =~= v@.subrange(start as int, i as int));
        }
    }
    r
}

/// Builds an owned string holding the characters `v[start..end]`.
pub fn chars_to_string(v: &Vec<char>, start: usize, end: usize) -> (r: String)
    requires
        start <= end,
        end <= v@.len(),
    ensures
        r@ == v@.subrange(start as int, end as int),
{
    let mut r = String::new();
    proof {
        assert(r@ =~= v@.subrange(start as int, start as int));
    }
    let mut i: usize = start;
    while i < end
        invariant
            start <= i <= end,
            end <= v@.len(),
            r@ == v@.subrange(start as int, i as int),
        decreases end - i,
    {
        r.push(v[i]);
        i = i + 1;
        proof {
            assert(r@ =~= v@.subrange(start as int, i as int));
        }
    }
    r
}

} // verus!
