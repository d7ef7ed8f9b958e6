//! Character-level text helpers with exact specifications: whitespace
//! trimming, line folding, decimal rendering and substring search.

use vstd::prelude::*;
use vstd::string::*;
use vstd::std_specs::iter::IteratorSpec;

verus! {

broadcast use vstd::string::group_string_axioms;

/// The characters with the Unicode `White_Space` property.
pub open spec fn is_space(c: char) -> bool {
    let u = c as u32;
    (0x9 <= u && u <= 0xd) || u == 0x20 || u == 0x85 || u == 0xa0 || u == 0x1680 || (0x2000 <= u
        && u <= 0x200a) || u == 0x2028 || u == 0x2029 || u == 0x202f || u == 0x205f || u == 0x3000
}

/// `s` without its leading whitespace.
pub open spec fn trim_start(s: Seq<char>) -> Seq<char>
    decreases s.len(),
{
    if s.len() > 0 && is_space(s[0]) {
        trim_start(s.drop_first())
    } else {
        s
    }
}

/// `s` without its trailing whitespace.
pub open spec fn trim_end(s: Seq<char>) -> Seq<char>
    decreases s.len(),
{
    if s.len() > 0 && is_space(s.last()) {
        trim_end(s.drop_last())
    } else {
        s
    }
}

/// `s` without leading and trailing whitespace.
pub open spec fn trim(s: Seq<char>) -> Seq<char> {
    trim_end(trim_start(s))
}

/// The lines of `s`: the pieces between newline characters (always at least one).
pub open spec fn lines_of(s: Seq<char>) -> Seq<Seq<char>>
    decreases s.len(),
{
    if s.len() == 0 {
        seq![seq![]]
    } else {
        let init = lines_of(s.drop_last());
        if s.last() == '\n' {
            init.push(seq![])
        } else {
            init.update(init.len() - 1, init.last().push(s.last()))
        }
    }
}

/// The trimmed lines of `ls`, separated by single spaces.
pub open spec fn join_trimmed(ls: Seq<Seq<char>>) -> Seq<char>
    decreases ls.len(),
{
    if ls.len() == 0 {
        seq![]
    } else if ls.len() == 1 {
        trim(ls[0])
    } else {
        join_trimmed(ls.drop_last()) + seq![' '] + trim(ls.last())
    }
}

/// `s` folded onto one line: each line trimmed, lines joined by a space.
pub open spec fn one_line(s: Seq<char>) -> Seq<char> {
    join_trimmed(lines_of(s))
}

/// The character of decimal digit `d`.
pub open spec fn digit(d: nat) -> char {
    if d == 0 {
        '0'
    } else if d == 1 {
        '1'
    } else if d == 2 {
        '2'
    } else if d == 3 {
        '3'
    } else if d == 4 {
        '4'
    } else if d == 5 {
        '5'
    } else if d == 6 {
        '6'
    } else if d == 7 {
        '7'
    } else if d == 8 {
        '8'
    } else {
        '9'
    }
}

/// The decimal notation of `n`, without leading zeros.
pub open spec fn decimal(n: nat) -> Seq<char>
    decreases n,
{
    if n < 10 {
        seq![digit(n)]
    } else {
        decimal(n / 10).push(digit(n % 10))
    }
}

/// Whether `needle` occurs in `hay` at some position.
pub open spec fn occurs_in(hay: Seq<char>, needle: Seq<char>) -> bool {
    exists|i: int| 0 <= i <= hay.len() - needle.len() && #[trigger] hay.subrange(i, i + needle.len()) == needle
}

proof fn lemma_lines_nonempty(s: Seq<char>)
    ensures
        lines_of(s).len() >= 1,
    decreases s.len(),
{
    if s.len() > 0 {
        lemma_lines_nonempty(s.drop_last());
    }
}

/// Whether `c` is whitespace (see `is_space`).
pub fn is_space_char(c: char) -> (r: bool)
    ensures
        r == is_space(c),
{
    let u = c as u32;
    (0x9 <= u && u <= 0xd) || u == 0x20 || u == 0x85 || u == 0xa0 || u == 0x1680 || (0x2000 <= u
        && u <= 0x200a) || u == 0x2028 || u == 0x2029 || u == 0x202f || u == 0x205f || u == 0x3000
}

/// The characters of `s`, one element each.
pub fn chars_of(s: &str) -> (v: Vec<char>)
    ensures
        v@ == s@,
{
    let mut it = s.chars();
    let mut v: Vec<char> = Vec::new();
    loop
        invariant
            v@ + it.remaining() == s@,
            it.obeys_prophetic_iter_laws(),
            it.decrease() is Some,
        decreases it.decrease()->0,
    {
        let ghost prev = it.remaining();
        match it.next() {
            Some(c) => {
                v.push(c);
                assert(v@ + it.remaining() =~= s@) by {
                    assert(prev =~= seq![c] + prev.drop_first());
                }
            },
            None => {
                assert(v@ =~= s@);
                return v;
            },
        }
    }
}

/// The bounds of `v[lo..hi]` with leading and trailing whitespace removed.
pub fn trim_range(v: &Vec<char>, lo: usize, hi: usize) -> (r: (usize, usize))
    requires
        lo <= hi <= v@.len(),
    ensures
        lo <= r.0 <= r.1 <= hi,
        v@.subrange(r.0 as int, r.1 as int) == trim(v@.subrange(lo as int, hi as int)),
{
    let mut a = lo;
    while a < hi && is_space_char(v[a])
        invariant
            lo <= a <= hi <= v@.len(),
            trim_start(v@.subrange(lo as int, hi as int)) == trim_start(
                v@.subrange(a as int, hi as int),
            ),
        decreases hi - a,
    {
        assert(v@.subrange(a as int, hi as int).drop_first() =~= v@.subrange(a + 1, hi as int));
        a = a + 1;
    }
    assert(trim_start(v@.subrange(a as int, hi as int)) == v@.subrange(a as int, hi as int));
    let mut b = hi;
    while b > a && is_space_char(v[b - 1])
        invariant
            lo <= a <= b <= hi <= v@.len(),
            trim_end(v@.subrange(a as int, hi as int)) == trim_end(v@.subrange(a as int, b as int)),
        decreases b - a,
    {
        assert(v@.subrange(a as int, b as int).drop_last() =~= v@.subrange(a as int, b - 1));
        b = b - 1;
    }
    (a, b)
}

proof fn lemma_join_push(ls: Seq<Seq<char>>, x: Seq<char>)
    ensures
        join_trimmed(ls.push(x)) == if ls.len() == 0 {
            trim(x)
        } else {
            join_trimmed(ls) + seq![' '] + trim(x)
        },
{
    assert(ls.push(x).drop_last() =~= ls);
}

/// The text of `code[lo..hi]` folded onto one line (see `one_line`).
pub fn one_line_of(code: &str, v: &Vec<char>, lo: usize, hi: usize) -> (r: String)
    requires
        v@ == code@,
        lo <= hi <= v@.len(),
    ensures
        r@ == one_line(v@.subrange(lo as int, hi as int)),
{
    let mut out = String::new();
    proof {
        reveal_strlit(" ");
        assert(" "@ =~= seq![' ']);
    }
    let mut ls = lo;
    let mut i = lo;
    let mut first_done = false;
    assert(v@.subrange(lo as int, lo as int) =~= Seq::<char>::empty());
    assert(lines_of(Seq::<char>::empty()) == seq![Seq::<char>::empty()]);
    let ghost mut done: Seq<Seq<char>> = seq![];
    while i < hi
        invariant
            first_done == (done.len() > 0),
            " "@ == seq![' '],
            v@ == code@,
            lo <= ls <= i <= hi <= v@.len(),
            lines_of(v@.subrange(lo as int, i as int)) == done.push(v@.subrange(ls as int, i as int)),
            out@ == join_trimmed(done),
        decreases hi - i,
    {
        let ghost sub = v@.subrange(lo as int, i + 1);
        assert(sub.drop_last() =~= v@.subrange(lo as int, i as int));
        assert(sub.last() == v@[i as int]);
        assert(lines_of(sub) == if v@[i as int] == '\n' {
            lines_of(sub.drop_last()).push(seq![])
        } else {
            let init = lines_of(sub.drop_last());
            init.update(init.len() - 1, init.last().push(v@[i as int]))
        });
        assert(v@.subrange(ls as int, i + 1) =~= v@.subrange(ls as int, i as int).push(v@[i as int]));
        if v[i] == '\n' {
            let (a, b) = trim_range(v, ls, i);
            proof {
                lemma_join_push(done, v@.subrange(ls as int, i as int));
            }
            if first_done {
                out.append(" ");
            }
            out.append(code.substring_char(a, b));
            proof {
                done = done.push(v@.subrange(ls as int, i as int));
                assert(v@.subrange(i + 1, i + 1) =~= Seq::<char>::empty());
                assert(lines_of(sub) =~= done.push(v@.subrange(i + 1, i + 1)));
            }
            ls = i + 1;
            first_done = true;
        } else {
            assert(lines_of(sub) =~= done.push(v@.subrange(ls as int, i + 1)));
        }
        i = i + 1;
    }
    let (a, b) = trim_range(v, ls, hi);
    proof {
        lemma_join_push(done, v@.subrange(ls as int, hi as int));
    }
    if first_done {
        out.append(" ");
    }
    out.append(code.substring_char(a, b));
    out
}

fn digit_str(d: usize) -> (r: &'static str)
    requires
        d < 10,
    ensures
        r@ == seq![digit(d as nat)],
{
    proof {
        reveal_strlit("0");
        reveal_strlit("1");
        reveal_strlit("2");
        reveal_strlit("3");
        reveal_strlit("4");
        reveal_strlit("5");
        reveal_strlit("6");
        reveal_strlit("7");
        reveal_strlit("8");
        reveal_strlit("9");
    }
    let r = if d == 0 {
        "0"
    } else if d == 1 {
        "1"
    } else if d == 2 {
        "2"
    } else if d == 3 {
        "3"
    } else if d == 4 {
        "4"
    } else if d == 5 {
        "5"
    } else if d == 6 {
        "6"
    } else if d == 7 {
        "7"
    } else if d == 8 {
        "8"
    } else {
        "9"
    };
    assert(r@ =~= seq![digit(d as nat)]);
    r
}

/// The decimal notation of `n`.
pub fn decimal_string(n: usize) -> (r: String)
    ensures
        r@ == decimal(n as nat),
    decreases n,
{
    if n < 10 {
        String::from_str(digit_str(n))
    } else {
        let mut r = decimal_string(n / 10);
        r.append(digit_str(n % 10));
        assert(r@ =~= decimal(n as nat));
        r
    }
}

/// Whether `v[lo..hi]` is exactly the text `t`.
pub fn range_is(v: &Vec<char>, lo: usize, hi: usize, t: &str) -> (r: bool)
    requires
        lo <= hi <= v@.len(),
    ensures
        r == (v@.subrange(lo as int, hi as int) == t@),
{
    let n = t.unicode_len();
    if hi - lo != n {
        return false;
    }
    let mut k: usize = 0;
    while k < n
        invariant
            n == t@.len(),
            hi - lo == n,
            lo <= hi <= v@.len(),
            k <= n,
            forall|j: int| 0 <= j < k ==> v@[lo + j] == t@[j],
        decreases n - k,
    {
        if v[lo + k] != t.get_char(k) {
            assert(v@.subrange(lo as int, hi as int)[k as int] != t@[k as int]);
            return false;
        }
        k = k + 1;
    }
    assert(v@.subrange(lo as int, hi as int) =~= t@);
    true
}

/// Whether `needle` occurs in `hay`.
pub fn contains(hay: &Vec<char>, needle: &str) -> (r: bool)
    ensures
        r == occurs_in(hay@, needle@),
{
    let m = needle.unicode_len();
    if m > hay.len() {
        assert forall|i: int| 0 <= i <= hay@.len() - needle@.len() implies #[trigger] hay@.subrange(
            i,
            i + needle@.len(),
        ) != needle@ by {}
        return false;
    }
    let mut i: usize = 0;
    while i <= hay.len() - m
        invariant
            m == needle@.len(),
            m <= hay@.len(),
            i <= hay@.len() - m + 1,
            forall|j: int| 0 <= j < i ==> #[trigger] hay@.subrange(j, j + m) != needle@,
        decreases hay.len() - m + 1 - i,
    {
        if range_is(hay, i, i + m, needle) {
            return true;
        }
        if i == hay.len() - m {
            return false;
        }
        i = i + 1;
    }
    false
}

} // verus!
