//! Character-level helpers on strings, stated over `Seq<char>`.
use vstd::prelude::*;
use vstd::string::*;

verus! {

/// The characters that carry Unicode's `White_Space` property.
pub open spec fn is_space(c: char) -> bool {
    let u = c as u32;
    (0x09 <= u && u <= 0x0D) || u == 0x20 || u == 0x85 || u == 0xA0 || u == 0x1680 || (0x2000
        <= u && u <= 0x200A) || u == 0x2028 || u == 0x2029 || u == 0x202F || u == 0x205F || u
        == 0x3000
}

/// Every character of `s` is white space (the empty text included).
pub open spec fn is_blank(s: Seq<char>) -> bool {
    forall|i: int| 0 <= i < s.len() ==> is_space(#[trigger] s[i])
}

/// `p` stands at the start of `t`, compared character by character.
pub open spec fn is_prefix_of(p: Seq<char>, t: Seq<char>) -> bool {
    p.len() <= t.len() && t.subrange(0, p.len() as int) == p
}

/// `m` occurs somewhere inside `t`.
pub open spec fn contains_seq(t: Seq<char>, m: Seq<char>) -> bool {
    exists|i: int| 0 <= i && i + m.len() <= t.len() && #[trigger] t.subrange(i, i + m.len()) == m
}

pub open spec fn trim_start(s: Seq<char>) -> Seq<char>
    decreases s.len(),
{
    if s.len() > 0 && is_space(s[0]) {
        trim_start(s.drop_first())
    } else {
        s
    }
}

pub open spec fn trim_end(s: Seq<char>) -> Seq<char>
    decreases s.len(),
{
    if s.len() > 0 && is_space(s.last()) {
        trim_end(s.drop_last())
    } else {
        s
    }
}

/// `s` without its leading and trailing white space.
pub open spec fn trim(s: Seq<char>) -> Seq<char> {
    trim_end(trim_start(s))
}

pub fn is_space_char(c: char) -> (r: bool)
    ensures
        r == is_space(c),
{
    let u = c as u32;
    (0x09 <= u && u <= 0x0D) || u == 0x20 || u == 0x85 || u == 0xA0 || u == 0x1680 || (0x2000
        <= u && u <= 0x200A) || u == 0x2028 || u == 0x2029 || u == 0x202F || u == 0x205F || u
        == 0x3000
}

/// Whether the text holds nothing but white space.
pub fn is_blank_str(s: &str) -> (r: bool)
    ensures
        r == is_blank(s@),
{
    let n = s.unicode_len();
    let mut i: usize = 0;
    while i < n
        invariant
            n == s@.len(),
            i <= n,
            forall|j: int| 0 <= j < i ==> is_space(#[trigger] s@[j]),
        decreases n - i,
    {
        if !is_space_char(s.get_char(i)) {
            return false;
        }
        i = i + 1;
    }
    true
}

/// Whether `p` stands at the start of `t`.
pub fn starts_with_chars(t: &str, p: &str) -> (r: bool)
    ensures
        r == is_prefix_of(p@, t@),
{
    let n = t.unicode_len();
    let m = p.unicode_len();
    if m > n {
        return false;
    }
    let mut i: usize = 0;
    while i < m
        invariant
            n == t@.len(),
            m == p@.len(),
            m <= n,
            i <= m,
            forall|j: int| 0 <= j < i ==> t@[j] == p@[j],
        decreases m - i,
    {
        if t.get_char(i) != p.get_char(i) {
            assert(t@.subrange(0, m as int)[i as int] != p@[i as int]);
            return false;
        }
        i = i + 1;
    }
    assert(t@.subrange(0, m as int) =~= p@);
    true
}

/// Whether `m` occurs in `t` starting at character `at`.
fn occurs_at(t: &str, m: &str, at: usize) -> (r: bool)
    requires
        at + m@.len() <= t@.len(),
        t@.len() <= usize::MAX,
    ensures
        r == (t@.subrange(at as int, at + m@.len()) == m@),
{
    let k = m.unicode_len();
    let mut i: usize = 0;
    while i < k
        invariant
            k == m@.len(),
            at + k <= t@.len(),
            t@.len() <= usize::MAX,
            i <= k,
            forall|j: int| 0 <= j < i ==> t@[at + j] == m@[j],
        decreases k - i,
    {
        if t.get_char(at + i) != m.get_char(i) {
            assert(t@.subrange(at as int, at + k)[i as int] != m@[i as int]);
            return false;
        }
        i = i + 1;
    }
    assert(t@.subrange(at as int, at + k) =~= m@);
    true
}

/// Whether `m` occurs anywhere in `t`.
pub fn contains_chars(t: &str, m: &str) -> (r: bool)
    ensures
        r == contains_seq(t@, m@),
{
    let n = t.unicode_len();
    let k = m.unicode_len();
    if k > n {
        return false;
    }
    if k == 0 {
        assert(t@.subrange(0, 0 + m@.len() as int) =~= m@);
        return true;
    }
    let mut i: usize = 0;
    while i <= n - k
        invariant
            n == t@.len(),
            k == m@.len(),
            0 < k <= n,
            i <= n - k + 1,
            forall|j: int| 0 <= j < i ==> #[trigger] t@.subrange(j, j + k) != m@,
        decreases n - k + 1 - i,
    {
        if occurs_at(t, m, i) {
            return true;
        }
        i = i + 1;
    }
    false
}

/// Whether the two texts hold the same characters.
pub fn same_chars(a: &str, b: &str) -> (r: bool)
    ensures
        r == (a@ == b@),
{
    if a.unicode_len() != b.unicode_len() {
        return false;
    }
    let r = starts_with_chars(a, b);
    assert(a@ =~= a@.subrange(0, b@.len() as int));
    r
}

proof fn lemma_trim_start_step(s: Seq<char>, a: int)
    requires
        0 <= a < s.len(),
        is_space(s[a]),
    ensures
        trim_start(s.subrange(a, s.len() as int)) == trim_start(s.subrange(a + 1, s.len() as int)),
{
    let t = s.subrange(a, s.len() as int);
    assert(t.drop_first() =~= s.subrange(a + 1, s.len() as int));
}

proof fn lemma_trim_end_step(s: Seq<char>, a: int, b: int)
    requires
        0 <= a < b <= s.len(),
        is_space(s[b - 1]),
    ensures
        trim_end(s.subrange(a, b)) == trim_end(s.subrange(a, b - 1)),
{
    let t = s.subrange(a, b);
    assert(t.drop_last() =~= s.subrange(a, b - 1));
}

/// `s` without its leading and trailing white space.
pub fn trim_str(s: &str) -> (r: String)
    ensures
        r@ == trim(s@),
{
    let n = s.unicode_len();
    let mut a: usize = 0;
    assert(s@.subrange(0, n as int) =~= s@);
    while a < n && is_space_char(s.get_char(a))
        invariant
            n == s@.len(),
            a <= n,
            trim_start(s@) == trim_start(s@.subrange(a as int, n as int)),
        decreases n - a,
    {
        proof {
            lemma_trim_start_step(s@, a as int);
        }
        a = a + 1;
    }
    let ghost rest = s@.subrange(a as int, n as int);
    assert(trim_start(rest) == rest);
    let mut b: usize = n;
    while b > a && is_space_char(s.get_char(b - 1))
        invariant
            n == s@.len(),
            a <= b <= n,
            rest == s@.subrange(a as int, n as int),
            trim_end(rest) == trim_end(s@.subrange(a as int, b as int)),
        decreases b - a,
    {
        proof {
            lemma_trim_end_step(s@, a as int, b as int);
        }
        b = b - 1;
    }
    let part = s.substring_char(a, b);
    proof {
        let t = s@.subrange(a as int, b as int);
        if t.len() > 0 {
            assert(t.last() == s@[b - 1]);
        }
        assert(trim_end(t) == t);
    }
    String::from_str(part)
}

} // verus!
