//! Character-level helpers the rest of the library reads text through.
use vstd::prelude::*;
use vstd::string::*;

verus! {

/// The characters of a string, one per element.
pub fn chars_of(s: &str) -> (v: Vec<char>)
    ensures
        v@ == s@,
{
    let n: usize = s.unicode_len();
    let mut v: Vec<char> = Vec::new();
    let mut i: usize = 0;
    while i < n
        invariant
            n == s@.len(),
            i <= n,
            v@ == s@.subrange(0, i as int),
        decreases n - i,
    {
        let c = s.get_char(i);
        v.push(c);
        i = i + 1;
        assert(v@ == s@.subrange(0, i as int));
    }
    assert(v@ == s@);
    v
}

/// Whether two strings hold the same characters.
pub fn str_eq(a: &str, b: &str) -> (r: bool)
    ensures
        r == (a@ == b@),
{
    let n: usize = a.unicode_len();
    let m: usize = b.unicode_len();
    if n != m {
        return false;
    }
    let mut i: usize = 0;
    while i < n
        invariant
            n == a@.len(),
            m == b@.len(),
            n == m,
            i <= n,
            a@.subrange(0, i as int) == b@.subrange(0, i as int),
        decreases n - i,
    {
        if a.get_char(i) != b.get_char(i) {
            assert(a@[i as int] != b@[i as int]);
            return false;
        }
        assert(a@.subrange(0, (i + 1) as int) =~= a@.subrange(0, i as int).push(a@[i as int]));
        assert(b@.subrange(0, (i + 1) as int) =~= b@.subrange(0, i as int).push(b@[i as int]));
        i = i + 1;
    }
    assert(a@ =~= a@.subrange(0, n as int));
    assert(b@ =~= b@.subrange(0, n as int));
    true
}

/// `s` begins with `p`.
pub open spec fn has_prefix(s: Seq<char>, p: Seq<char>) -> bool {
    p.len() <= s.len() && s.subrange(0, p.len() as int) == p
}

/// Whether `s` begins with `p`.
pub fn starts_with(s: &str, p: &str) -> (r: bool)
    ensures
        r == has_prefix(s@, p@),
{
    let n: usize = s.unicode_len();
    let m: usize = p.unicode_len();
    if m > n {
        return false;
    }
    let mut i: usize = 0;
    while i < m
        invariant
            n == s@.len(),
            m == p@.len(),
            m <= n,
            i <= m,
            s@.subrange(0, i as int) == p@.subrange(0, i as int),
        decreases m - i,
    {
        if s.get_char(i) != p.get_char(i) {
            assert(s@.subrange(0, m as int)[i as int] != p@[i as int]);
            return false;
        }
        assert(s@.subrange(0, (i + 1) as int) =~= s@.subrange(0, i as int).push(s@[i as int]));
        assert(p@.subrange(0, (i + 1) as int) =~= p@.subrange(0, i as int).push(p@[i as int]));
        i = i + 1;
    }
    assert(p@ =~= p@.subrange(0, m as int));
    true
}

/// Strict lexicographic order on characters, by code point: the order in
/// which `String`'s `Ord` sorts UTF-8 text.
pub open spec fn seq_lt(a: Seq<char>, b: Seq<char>) -> bool
    decreases a.len(),
{
    if b.len() == 0 {
        false
    } else if a.len() == 0 {
        true
    } else if a[0] != b[0] {
        (a[0] as int) < (b[0] as int)
    } else {
        seq_lt(a.drop_first(), b.drop_first())
    }
}

/// Whether `a` sorts strictly before `b`.
pub fn str_lt(a: &str, b: &str) -> (r: bool)
    ensures
        r == seq_lt(a@, b@),
{
    let n: usize = a.unicode_len();
    let m: usize = b.unicode_len();
    let mut i: usize = 0;
    assert(a@.subrange(0, n as int) =~= a@);
    assert(b@.subrange(0, m as int) =~= b@);
    while i < n && i < m
        invariant
            n == a@.len(),
            m == b@.len(),
            i <= n,
            i <= m,
            a@.subrange(0, i as int) == b@.subrange(0, i as int),
            seq_lt(a@, b@) == seq_lt(a@.subrange(i as int, n as int), b@.subrange(i as int, m as int)),
        decreases n - i,
    {
        let x = a.get_char(i);
        let y = b.get_char(i);
        if x != y {
            return (x as u32) < (y as u32);
        }
        assert(a@.subrange(i as int, n as int).drop_first() =~= a@.subrange(i + 1, n as int));
        assert(b@.subrange(i as int, m as int).drop_first() =~= b@.subrange(i + 1, m as int));
        assert(a@.subrange(0, (i + 1) as int) =~= a@.subrange(0, i as int).push(a@[i as int]));
        assert(b@.subrange(0, (i + 1) as int) =~= b@.subrange(0, i as int).push(b@[i as int]));
        i = i + 1;
    }
    i < m
}

/// The position of the first `c` in `s`.
pub open spec fn index_of(s: Seq<char>, c: char) -> Option<int>
    decreases s.len(),
{
    if s.len() == 0 {
        None
    } else if s[0] == c {
        Some(0)
    } else {
        match index_of(s.drop_first(), c) {
            Some(i) => Some(i + 1),
            None => None,
        }
    }
}

pub proof fn lemma_index_of(s: Seq<char>, c: char)
    ensures
        index_of(s, c) matches Some(i) ==> 0 <= i < s.len() && s[i] == c && forall|k: int|
            0 <= k < i ==> s[k] != c,
        index_of(s, c) is None ==> forall|k: int| 0 <= k < s.len() ==> s[k] != c,
    decreases s.len(),
{
    if s.len() > 0 {
        lemma_index_of(s.drop_first(), c);
        if s[0] != c {
            assert forall|k: int| 1 <= k < s.len() implies s[k] == s.drop_first()[k - 1] by {}
        }
    }
}

/// The position of the first `c` in `s`, when it has one.
pub fn find_char(s: &str, c: char) -> (r: Option<usize>)
    ensures
        r matches Some(i) ==> index_of(s@, c) == Some(i as int),
        r is None ==> index_of(s@, c) is None,
{
    proof {
        lemma_index_of(s@, c);
    }
    let n: usize = s.unicode_len();
    let mut i: usize = 0;
    while i < n
        invariant
            n == s@.len(),
            i <= n,
            forall|k: int| 0 <= k < i ==> s@[k] != c,
        decreases n - i,
    {
        if s.get_char(i) == c {
            proof {
                lemma_index_first(s@, c, i as int);
            }
            return Some(i);
        }
        i = i + 1;
    }
    None
}

pub proof fn lemma_index_first(s: Seq<char>, c: char, i: int)
    requires
        0 <= i < s.len(),
        s[i] == c,
        forall|k: int| 0 <= k < i ==> s[k] != c,
    ensures
        index_of(s, c) == Some(i),
    decreases i,
{
    if i > 0 {
        assert forall|k: int| 0 <= k < i - 1 implies s.drop_first()[k] != c by {
            assert(s.drop_first()[k] == s[k + 1]);
        }
        lemma_index_first(s.drop_first(), c, i - 1);
    }
}

/// The first `c` in `a + b`, where `a` holds none, is the first in `b`,
/// moved past `a`.
pub proof fn lemma_index_of_append(a: Seq<char>, b: Seq<char>, c: char)
    requires
        !a.contains(c),
    ensures
        index_of(a + b, c) == match index_of(b, c) {
            Some(i) => Some(i + a.len()),
            None => None,
        },
    decreases a.len(),
{
    if a.len() == 0 {
        assert(a + b =~= b);
    } else {
        assert(a[0] != c);
        assert((a + b)[0] == a[0]);
        assert((a + b).drop_first() =~= a.drop_first() + b);
        assert(!a.drop_first().contains(c)) by {
            if a.drop_first().contains(c) {
                let k = choose|k: int| 0 <= k < a.drop_first().len() && a.drop_first()[k] == c;
                assert(a[k + 1] == c);
            }
        }
        lemma_index_of_append(a.drop_first(), b, c);
    }
}

/// `s` without every trailing `c`.
pub open spec fn trim_end_char(s: Seq<char>, c: char) -> Seq<char>
    decreases s.len(),
{
    if s.len() > 0 && s.last() == c {
        trim_end_char(s.drop_last(), c)
    } else {
        s
    }
}

/// Unicode `White_Space`: what `char::is_whitespace` tests.
pub open spec fn is_ws(c: char) -> bool {
    let x = c as int;
    (0x9 <= x <= 0xD) || x == 0x20 || x == 0x85 || x == 0xA0 || x == 0x1680 || (0x2000 <= x
        <= 0x200A) || x == 0x2028 || x == 0x2029 || x == 0x202F || x == 0x205F || x == 0x3000
}

/// Whether `c` is white space.
pub fn char_is_ws(c: char) -> (r: bool)
    ensures
        r == is_ws(c),
{
    let x: u32 = c as u32;
    (0x9 <= x && x <= 0xD) || x == 0x20 || x == 0x85 || x == 0xA0 || x == 0x1680 || (0x2000
        <= x && x <= 0x200A) || x == 0x2028 || x == 0x2029 || x == 0x202F || x == 0x205F || x
        == 0x3000
}

/// `s` without leading white space.
pub open spec fn trim_start(s: Seq<char>) -> Seq<char>
    decreases s.len(),
{
    if s.len() > 0 && is_ws(s[0]) {
        trim_start(s.drop_first())
    } else {
        s
    }
}

/// `s` without trailing white space.
pub open spec fn trim_end(s: Seq<char>) -> Seq<char>
    decreases s.len(),
{
    if s.len() > 0 && is_ws(s.last()) {
        trim_end(s.drop_last())
    } else {
        s
    }
}

/// `s` without white space at either end: what `str::trim` leaves.
pub open spec fn trim(s: Seq<char>) -> Seq<char> {
    trim_end(trim_start(s))
}

/// The slice of `s` from `a` up to `b`, as an owned string.
pub fn slice(s: &str, a: usize, b: usize) -> (r: String)
    requires
        a <= b <= s@.len(),
    ensures
        r@ == s@.subrange(a as int, b as int),
{
    String::from_str(s.substring_char(a, b))
}

/// Where the text of `s.subrange(a, b)` ends once trailing `c` are removed.
pub fn trim_end_char_at(s: &str, a: usize, b: usize, c: char) -> (e: usize)
    requires
        a <= b <= s@.len(),
    ensures
        a <= e <= b,
        s@.subrange(a as int, e as int) == trim_end_char(s@.subrange(a as int, b as int), c),
{
    let mut e: usize = b;
    while e > a && s.get_char(e - 1) == c
        invariant
            a <= e <= b <= s@.len(),
            trim_end_char(s@.subrange(a as int, b as int), c) == trim_end_char(
                s@.subrange(a as int, e as int),
                c,
            ),
        decreases e,
    {
        assert(s@.subrange(a as int, e as int).drop_last() =~= s@.subrange(a as int, e - 1));
        e = e - 1;
    }
    e
}

/// The bounds of `s.subrange(a, b)` once white space is removed from both ends.
pub fn trim_bounds(s: &str, a: usize, b: usize) -> (r: (usize, usize))
    requires
        a <= b <= s@.len(),
    ensures
        a <= r.0 <= r.1 <= b,
        s@.subrange(r.0 as int, r.1 as int) == trim(s@.subrange(a as int, b as int)),
{
    let mut x: usize = a;
    while x < b && char_is_ws(s.get_char(x))
        invariant
            a <= x <= b <= s@.len(),
            trim_start(s@.subrange(a as int, b as int)) == trim_start(s@.subrange(x as int, b as int)),
        decreases b - x,
    {
        assert(s@.subrange(x as int, b as int).drop_first() =~= s@.subrange(x + 1, b as int));
        x = x + 1;
    }
    let mut y: usize = b;
    while y > x && char_is_ws(s.get_char(y - 1))
        invariant
            a <= x <= y <= b <= s@.len(),
            trim_end(s@.subrange(x as int, b as int)) == trim_end(s@.subrange(x as int, y as int)),
        decreases y,
    {
        assert(s@.subrange(x as int, y as int).drop_last() =~= s@.subrange(x as int, y - 1));
        y = y - 1;
    }
    proof {
        let t = s@.subrange(x as int, b as int);
        if x < b {
            assert(!is_ws(t[0]));
        }
        lemma_trim_start_stops(t);
    }
    (x, y)
}

proof fn lemma_trim_start_stops(t: Seq<char>)
    requires
        t.len() > 0 ==> !is_ws(t[0]),
    ensures
        trim_start(t) == t,
{
}

/// `s` without white space at either end.
pub fn trimmed(s: &str) -> (r: String)
    ensures
        r@ == trim(s@),
{
    let n: usize = s.unicode_len();
    let (x, y) = trim_bounds(s, 0, n);
    assert(s@.subrange(0, n as int) =~= s@);
    slice(s, x, y)
}

/// `s` without every trailing `c`.
pub fn trimmed_end_char(s: &str, c: char) -> (r: String)
    ensures
        r@ == trim_end_char(s@, c),
{
    let n: usize = s.unicode_len();
    let e: usize = trim_end_char_at(s, 0, n, c);
    assert(s@.subrange(0, n as int) =~= s@);
    slice(s, 0, e)
}

/// `s` without every leading `c`.
pub open spec fn trim_start_char(s: Seq<char>, c: char) -> Seq<char>
    decreases s.len(),
{
    if s.len() > 0 && s[0] == c {
        trim_start_char(s.drop_first(), c)
    } else {
        s
    }
}

/// `s` without `c` at either end: what `str::trim_matches` with one
/// character leaves.
pub open spec fn trim_char(s: Seq<char>, c: char) -> Seq<char> {
    trim_end_char(trim_start_char(s, c), c)
}

/// `s` without `c` at either end.
pub fn trimmed_char(s: &str, c: char) -> (r: String)
    ensures
        r@ == trim_char(s@, c),
{
    let n: usize = s.unicode_len();
    let mut x: usize = 0;
    assert(s@.subrange(0, n as int) =~= s@);
    while x < n && s.get_char(x) == c
        invariant
            x <= n,
            n == s@.len(),
            trim_start_char(s@, c) == trim_start_char(s@.subrange(x as int, n as int), c),
        decreases n - x,
    {
        assert(s@.subrange(x as int, n as int).drop_first() =~= s@.subrange(x + 1, n as int));
        x = x + 1;
    }
    assert(trim_start_char(s@.subrange(x as int, n as int), c) == s@.subrange(x as int, n as int));
    let e: usize = trim_end_char_at(s, x, n, c);
    slice(s, x, e)
}

} // verus!
