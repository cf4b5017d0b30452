//! Small verified operations on the characters of a string.
use vstd::prelude::*;
use vstd::string::StrSliceExecFns;

verus! {

/// `s` begins with `prefix`.
pub open spec fn has_prefix(s: Seq<char>, prefix: Seq<char>) -> bool {
    prefix.len() <= s.len() && s.subrange(0, prefix.len() as int) == prefix
}

/// Whether `s` begins with `prefix`.
pub fn starts_with(s: &str, prefix: &str) -> (r: bool)
    ensures
        r == has_prefix(s@, prefix@),
{
    let n = s.unicode_len();
    let m = prefix.unicode_len();
    if m > n {
        return false;
    }
    let mut i: usize = 0;
    while i < m
        invariant
            n == s@.len(),
            m == prefix@.len(),
            m <= n,
            i <= m,
            forall|j: int| 0 <= j < i ==> s@[j] == prefix@[j],
        decreases m - i,
    {
        if s.get_char(i) != prefix.get_char(i) {
            assert(s@.subrange(0, m as int)[i as int] != prefix@[i as int]);
            return false;
        }
        i = i + 1;
    }
    assert(s@.subrange(0, m as int) =~= prefix@);
    true
}


/// `i` is the index of the first `c` in `s`, or the length of `s` when `s`
/// holds no `c`.
pub open spec fn first_at(s: Seq<char>, c: char, i: int) -> bool {
    &&& 0 <= i <= s.len()
    &&& forall|j: int| 0 <= j < i ==> s[j] != c
    &&& (i == s.len() || s[i] == c)
}

/// The index of the first `c` in `s`, or its length.
pub open spec fn char_pos(s: Seq<char>, c: char) -> int {
    choose|i: int| first_at(s, c, i)
}

/// What precedes the first `c` (all of `s` when it holds none).
pub open spec fn before(s: Seq<char>, c: char) -> Seq<char> {
    s.subrange(0, char_pos(s, c))
}

/// What follows the first `c` (nothing when `s` holds none).
pub open spec fn after(s: Seq<char>, c: char) -> Seq<char> {
    if char_pos(s, c) < s.len() {
        s.subrange(char_pos(s, c) + 1, s.len() as int)
    } else {
        Seq::empty()
    }
}

pub proof fn lemma_first_at_unique(s: Seq<char>, c: char, i: int)
    requires
        first_at(s, c, i),
    ensures
        char_pos(s, c) == i,
{
    let k = char_pos(s, c);
    assert(first_at(s, c, k));
    if k < i {
        assert(s[k] != c);
    }
    if i < k {
        assert(s[i] != c);
    }
}

/// The index of the first `c` in `s`, or its length.
pub fn find_char(s: &str, c: char) -> (r: usize)
    ensures
        r == char_pos(s@, c),
        r <= s@.len(),
{
    let n = s.unicode_len();
    let mut i: usize = 0;
    while i < n && s.get_char(i) != c
        invariant
            n == s@.len(),
            i <= n,
            forall|j: int| 0 <= j < i ==> s@[j] != c,
        decreases n - i,
    {
        i = i + 1;
    }
    proof {
        lemma_first_at_unique(s@, c, i as int);
    }
    i
}

/// What precedes the first `c` in `s`.
pub fn before_char(s: &str, c: char) -> (r: &str)
    ensures
        r@ == before(s@, c),
{
    let p = find_char(s, c);
    s.substring_char(0, p)
}

/// What follows the first `c` in `s`.
pub fn after_char(s: &str, c: char) -> (r: &str)
    ensures
        r@ == after(s@, c),
{
    let p = find_char(s, c);
    let n = s.unicode_len();
    if p < n {
        s.substring_char(p + 1, n)
    } else {
        s.substring_char(n, n)
    }
}

/// Whether two strings hold the same characters.
pub fn same_text(a: &str, b: &str) -> (r: bool)
    ensures
        r == (a@ == b@),
{
    if a.unicode_len() != b.unicode_len() {
        return false;
    }
    let r = starts_with(a, b);
    assert(a@.subrange(0, a@.len() as int) =~= a@);
    r
}

/// `needle` occurs in `s`.
pub open spec fn contains_text(s: Seq<char>, needle: Seq<char>) -> bool {
    exists|i: int| 0 <= i <= s.len() - needle.len() && #[trigger] s.subrange(i, i + needle.len()) == needle
}

/// Whether `needle` occurs in `s`.
pub fn contains(s: &str, needle: &str) -> (r: bool)
    ensures
        r == contains_text(s@, needle@),
{
    let n = s.unicode_len();
    let m = needle.unicode_len();
    if m > n {
        return false;
    }
    if m == 0 {
        assert(s@.subrange(0, 0 + needle@.len() as int) =~= needle@);
        return true;
    }
    let mut i: usize = 0;
    while i <= n - m
        invariant
            n == s@.len(),
            m == needle@.len(),
            0 < m <= n,
            i <= n - m + 1,
            forall|j: int| 0 <= j < i ==> #[trigger] s@.subrange(j, j + m) != needle@,
        decreases n - m + 1 - i,
    {
        let rest = s.substring_char(i, n);
        if starts_with(rest, needle) {
            assert(rest@.subrange(0, m as int) =~= s@.subrange(i as int, i + m));
            return true;
        }
        assert(rest@.subrange(0, m as int) =~= s@.subrange(i as int, i + m));
        i = i + 1;
    }
    false
}

/// `k` starts the longest suffix of `s` whose characters all are `c` (when
/// `same`) or all differ from `c` (when not).
pub open spec fn run_start(s: Seq<char>, c: char, same: bool, k: int) -> bool {
    &&& 0 <= k <= s.len()
    &&& forall|j: int| k <= j < s.len() ==> (s[j] == c) == same
    &&& (k == 0 || (s[k - 1] == c) != same)
}

/// Where the longest suffix of characters equal to `c` (`same`) or unequal
/// to it (not `same`) starts.
pub open spec fn suffix_start(s: Seq<char>, c: char, same: bool) -> int {
    choose|k: int| run_start(s, c, same, k)
}

/// `s` without its trailing `c`s.
pub open spec fn trim_end(s: Seq<char>, c: char) -> Seq<char> {
    s.subrange(0, suffix_start(s, c, true))
}

/// What follows the last `c` in `s` (all of `s` when it holds none).
pub open spec fn last_segment(s: Seq<char>, c: char) -> Seq<char> {
    s.subrange(suffix_start(s, c, false), s.len() as int)
}

pub proof fn lemma_run_start_unique(s: Seq<char>, c: char, same: bool, k: int)
    requires
        run_start(s, c, same, k),
    ensures
        suffix_start(s, c, same) == k,
{
    let m = suffix_start(s, c, same);
    assert(run_start(s, c, same, m));
    if m < k {
        assert((s[k - 1] == c) == same);
    }
    if k < m {
        assert((s[m - 1] == c) == same);
    }
}

/// Where the longest suffix of `s` of characters equal to `c` (`same`) or
/// unequal to it (not `same`) starts.
pub fn find_suffix_start(s: &str, c: char, same: bool) -> (r: usize)
    ensures
        r == suffix_start(s@, c, same),
        r <= s@.len(),
{
    let mut k = s.unicode_len();
    while k > 0 && (s.get_char(k - 1) == c) == same
        invariant
            k <= s@.len(),
            forall|j: int| k <= j < s@.len() ==> (s@[j] == c) == same,
        decreases k,
    {
        k = k - 1;
    }
    proof {
        lemma_run_start_unique(s@, c, same, k as int);
    }
    k
}

/// The value of a digit in the given radix: 0-9, then a-z or A-Z from 10.
pub open spec fn digit_of(c: char, radix: nat) -> Option<nat> {
    let v: int = if '0' <= c <= '9' {
        c as int - '0' as int
    } else if 'a' <= c <= 'z' {
        c as int - 'a' as int + 10
    } else if 'A' <= c <= 'Z' {
        c as int - 'A' as int + 10
    } else {
        radix as int
    };
    if v < radix {
        Some(v as nat)
    } else {
        None
    }
}

pub open spec fn all_digits(s: Seq<char>, radix: nat) -> bool {
    forall|i: int| 0 <= i < s.len() ==> #[trigger] digit_of(s[i], radix) is Some
}

/// The number that a sequence of digits writes, most significant first.
pub open spec fn value_of(s: Seq<char>, radix: nat) -> nat
    decreases s.len(),
{
    if s.len() == 0 {
        0
    } else {
        value_of(s.drop_last(), radix) * radix + digit_of(s.last(), radix)->Some_0
    }
}

/// The number written by `s`: an optional `+`, then one digit or more.
pub open spec fn unsigned_of(s: Seq<char>, radix: nat) -> Option<nat> {
    let d = if s.len() > 0 && s[0] == '+' {
        s.drop_first()
    } else {
        s
    };
    if d.len() > 0 && all_digits(d, radix) {
        Some(value_of(d, radix))
    } else {
        None
    }
}

proof fn lemma_value_grows(s: Seq<char>, radix: nat, i: int)
    requires
        radix >= 1,
        0 <= i <= s.len(),
        all_digits(s, radix),
    ensures
        value_of(s, radix) >= value_of(s.subrange(0, i), radix),
    decreases s.len(),
{
    if i < s.len() {
        let t = s.drop_last();
        assert(all_digits(t, radix)) by {
            assert forall|j: int| 0 <= j < t.len() implies #[trigger] digit_of(t[j], radix) is Some by {
                assert(digit_of(s[j], radix) is Some);
            }
        }
        lemma_value_grows(t, radix, i);
        assert(t.subrange(0, i) =~= s.subrange(0, i));
        assert(value_of(t, radix) * radix >= value_of(t, radix)) by (nonlinear_arith)
            requires
                radix >= 1,
        ;
    } else {
        assert(s.subrange(0, i) =~= s);
    }
}

fn digit_value(c: char, radix: u32) -> (r: Option<u32>)
    requires
        2 <= radix <= 36,
    ensures
        r is Some <==> digit_of(c, radix as nat) is Some,
        r matches Some(v) ==> v == digit_of(c, radix as nat)->Some_0 && v < radix,
{
    let v: u32 = if '0' <= c && c <= '9' {
        (c as u32) - ('0' as u32)
    } else if 'a' <= c && c <= 'z' {
        (c as u32) - ('a' as u32) + 10
    } else if 'A' <= c && c <= 'Z' {
        (c as u32) - ('A' as u32) + 10
    } else {
        radix
    };
    if v < radix {
        Some(v)
    } else {
        None
    }
}

/// Parses an unsigned number in the given radix, as the standard library's
/// `from_str_radix` does for an unsigned type whose largest value is `max`.
pub fn parse_unsigned(s: &str, radix: u32, max: u64) -> (r: Option<u64>)
    requires
        2 <= radix <= 36,
    ensures
        r is Some <==> (unsigned_of(s@, radix as nat) matches Some(v) && v <= max),
        r matches Some(v) ==> unsigned_of(s@, radix as nat) == Some(v as nat),
{
    let n = s.unicode_len();
    let start: usize = if n > 0 && s.get_char(0) == '+' {
        1
    } else {
        0
    };
    let ghost d = s@.subrange(start as int, n as int);
    assert(d =~= (if s@.len() > 0 && s@[0] == '+' {
        s@.drop_first()
    } else {
        s@
    }));
    assert(unsigned_of(s@, radix as nat) == (if d.len() > 0 && all_digits(d, radix as nat) {
        Some(value_of(d, radix as nat))
    } else {
        None
    }));
    if start == n {
        return None;
    }
    let mut acc: u64 = 0;
    let mut i: usize = start;
    while i < n
        invariant
            n == s@.len(),
            start <= i <= n,
            2 <= radix <= 36,
            d == s@.subrange(start as int, n as int),
            d.len() > 0,
            unsigned_of(s@, radix as nat) == (if all_digits(d, radix as nat) {
                Some(value_of(d, radix as nat))
            } else {
                None
            }),
            acc == value_of(s@.subrange(start as int, i as int), radix as nat),
            acc <= max,
            all_digits(s@.subrange(start as int, i as int), radix as nat),
        decreases n - i,
    {
        let ghost prefix = s@.subrange(start as int, i as int);
        let ghost next = s@.subrange(start as int, i + 1);
        assert(next.drop_last() =~= prefix);
        assert(next.last() == s@[i as int]);
        let c = s.get_char(i);
        let v = match digit_value(c, radix) {
            Some(v) => v,
            None => {
                proof {
                    assert(d[i - start] == c);
                    assert(!all_digits(d, radix as nat));
                }
                return None;
            },
        };
        assert(all_digits(next, radix as nat)) by {
            assert forall|j: int| 0 <= j < next.len() implies #[trigger] digit_of(next[j], radix as nat) is Some by {
                if j < prefix.len() {
                    assert(next[j] == prefix[j]);
                }
            }
        }
        if (v as u64) > max || acc > (max - v as u64) / (radix as u64) {
            proof {
                let q: int = (max - v) / (radix as int);
                if v <= max {
                    assert(acc * radix + v > max) by (nonlinear_arith)
                        requires
                            acc > q,
                            q == (max - v) / (radix as int),
                            radix >= 2,
                    ;
                } else {
                    assert(acc * radix >= 0) by (nonlinear_arith)
                        requires
                            acc >= 0,
                            radix >= 2,
                    ;
                }
                assert(value_of(next, radix as nat) == acc * radix + v);
                if all_digits(d, radix as nat) {
                    lemma_value_grows(d, radix as nat, i + 1 - start);
                    assert(d.subrange(0, i + 1 - start) =~= next);
                    assert(value_of(d, radix as nat) > max);
                }
            }
            return None;
        }
        assert(acc * radix + v <= max) by (nonlinear_arith)
            requires
                acc <= (max - v) / (radix as int),
                v <= max,
                radix >= 2,
        ;
        acc = acc * (radix as u64) + v as u64;
        i = i + 1;
    }
    assert(s@.subrange(start as int, n as int) =~= d);
    Some(acc)
}

} // verus!
