//! Text helpers: joining paths and splitting denominations at `/`.
use vstd::prelude::*;

verus! {

/// `a/b`.
pub open spec fn spec_join_path(a: Seq<char>, b: Seq<char>) -> Seq<char> {
    a + seq!['/'] + b
}

/// Builds `a` followed by `sep` and `b`.
pub fn join_with(a: &str, sep: &str, b: &str) -> (r: String)
    ensures
        r@ == a@ + sep@ + b@,
{
    let mut s = String::from_str(a);
    s.append(sep);
    s.append(b);
    s
}

/// Whether `s` begins with `prefix`.
pub open spec fn spec_starts_with(s: Seq<char>, prefix: Seq<char>) -> bool {
    prefix.len() <= s.len() && s.subrange(0, prefix.len() as int) == prefix
}

pub fn starts_with(s: &str, prefix: &str) -> (r: bool)
    ensures
        r == spec_starts_with(s@, prefix@),
{
    let n = prefix.unicode_len();
    let m = s.unicode_len();
    if n > m {
        return false;
    }
    let mut i: usize = 0;
    while i < n
        invariant
            n == prefix@.len(),
            m == s@.len(),
            n <= m,
            i <= n,
            forall|k: int| 0 <= k < i ==> s@[k] == prefix@[k],
        decreases n - i,
    {
        if s.get_char(i) != prefix.get_char(i) {
            proof {
                assert(s@.subrange(0, n as int)[i as int] != prefix@[i as int]);
            }
            return false;
        }
        i = i + 1;
    }
    proof {
        assert(s@.subrange(0, n as int) =~= prefix@);
    }
    true
}

/// The position of the first `/` of `s` at or after `from`.
pub open spec fn spec_slash_from(s: Seq<char>, from: int) -> Option<int>
    decreases s.len() - from,
{
    if from < 0 || from >= s.len() {
        None
    } else if s[from] == '/' {
        Some(from)
    } else {
        spec_slash_from(s, from + 1)
    }
}

proof fn lemma_slash_from(s: Seq<char>, from: int)
    requires
        0 <= from,
    ensures
        spec_slash_from(s, from) matches Some(k) ==> from <= k < s.len() && s[k] == '/'
            && forall|j: int| from <= j < k ==> s[j] != '/',
        spec_slash_from(s, from) is None ==> forall|j: int| from <= j < s.len() ==> s[j] != '/',
    decreases s.len() - from,
{
    if from < s.len() && s[from] != '/' {
        lemma_slash_from(s, from + 1);
    }
}

fn slash_from(s: &str, n: usize, from: usize) -> (r: Option<usize>)
    requires
        n == s@.len(),
    ensures
        r matches Some(k) ==> spec_slash_from(s@, from as int) == Some(k as int),
        r is None ==> spec_slash_from(s@, from as int) is None,
{
    let mut i = from;
    while i < n
        invariant
            n == s@.len(),
            from <= i,
            spec_slash_from(s@, from as int) == spec_slash_from(s@, i as int),
        decreases n - i,
    {
        if s.get_char(i) == '/' {
            return Some(i);
        }
        i = i + 1;
    }
    None
}

/// The three parts of `s.splitn(3, '/')` when it has at least two `/`: up to
/// the first, between the first two, and the rest; `None` when fewer parts.
pub open spec fn spec_split3(s: Seq<char>) -> Option<(Seq<char>, Seq<char>, Seq<char>)> {
    match spec_slash_from(s, 0) {
        Some(i) => match spec_slash_from(s, i + 1) {
            Some(j) => Some((s.subrange(0, i), s.subrange(i + 1, j), s.subrange(j + 1, s.len() as int))),
            None => None,
        },
        None => None,
    }
}

proof fn lemma_slash_at(s: Seq<char>, from: int, k: int)
    requires
        0 <= from <= k < s.len(),
        s[k] == '/',
        forall|j: int| from <= j < k ==> s[j] != '/',
    ensures
        spec_slash_from(s, from) == Some(k),
    decreases k - from,
{
    if from < k {
        lemma_slash_at(s, from + 1, k);
    }
}

/// Joining `a/b/c` and splitting it at its first two slashes gives back
/// `a`, `b` and `c` when neither `a` nor `b` holds a slash (`c` may); and
/// the joined text begins with `a/b`. So the key of a remote denomination,
/// `port/channel/denom`, splits back into its port, channel and denom.
pub proof fn lemma_split_joined_path(a: Seq<char>, b: Seq<char>, c: Seq<char>)
    requires
        !a.contains('/'),
        !b.contains('/'),
    ensures
        spec_split3(spec_join_path(spec_join_path(a, b), c)) == Some((a, b, c)),
        spec_starts_with(spec_join_path(spec_join_path(a, b), c), spec_join_path(a, b)),
{
    let p = spec_join_path(a, b);
    let s = spec_join_path(p, c);
    let i = a.len() as int;
    let j = i + 1 + b.len();
    assert forall|k: int| 0 <= k < i implies s[k] != '/' by {
        assert(s[k] == a[k]);
        if a[k] == '/' {
            assert(a.contains('/'));
        }
    }
    assert(s[i] == '/');
    lemma_slash_at(s, 0, i);
    assert forall|k: int| i + 1 <= k < j implies s[k] != '/' by {
        assert(s[k] == b[k - i - 1]);
        if b[k - i - 1] == '/' {
            assert(b.contains('/'));
        }
    }
    assert(s[j] == '/');
    lemma_slash_at(s, i + 1, j);
    assert(s.subrange(0, i) =~= a);
    assert(s.subrange(i + 1, j) =~= b);
    assert(s.subrange(j + 1, s.len() as int) =~= c);
    assert(s.subrange(0, p.len() as int) =~= p);
}

pub fn split3(s: &str) -> (r: Option<(String, String, String)>)
    ensures
        r matches Some((a, b, c)) ==> spec_split3(s@) == Some((a@, b@, c@)),
        r is None ==> spec_split3(s@) is None,
{
    let n = s.unicode_len();
    match slash_from(s, n, 0) {
        Some(i) => {
            proof { lemma_slash_from(s@, 0); }
            match slash_from(s, n, i + 1) {
                Some(j) => {
                    proof { lemma_slash_from(s@, i + 1); }
                    let a = String::from_str(s.substring_char(0, i));
                    let b = String::from_str(s.substring_char(i + 1, j));
                    let c = String::from_str(s.substring_char(j + 1, n));
                    Some((a, b, c))
                },
                None => None,
            }
        },
        None => None,
    }
}

/// Whether two texts are equal.
pub fn text_eq(a: &str, b: &str) -> (r: bool)
    ensures
        r == (a@ == b@),
{
    let n = a.unicode_len();
    let m = b.unicode_len();
    if n != m {
        return false;
    }
    let mut i: usize = 0;
    while i < n
        invariant
            n == a@.len(),
            m == b@.len(),
            n == m,
            i <= n,
            forall|k: int| 0 <= k < i ==> a@[k] == b@[k],
        decreases n - i,
    {
        if a.get_char(i) != b.get_char(i) {
            return false;
        }
        i = i + 1;
    }
    proof {
        assert(a@ =~= b@);
    }
    true
}

/// Whether `a` comes before `b` in lexicographic order of characters, which
/// is also the order of their UTF-8 bytes.
pub open spec fn seq_lt(a: Seq<char>, b: Seq<char>) -> bool
    decreases a.len(),
{
    if a.len() == 0 {
        b.len() > 0
    } else if b.len() == 0 {
        false
    } else if a[0] != b[0] {
        (a[0] as u32) < (b[0] as u32)
    } else {
        seq_lt(a.drop_first(), b.drop_first())
    }
}

proof fn lemma_seq_lt_skip(a: Seq<char>, b: Seq<char>, i: int)
    requires
        0 <= i,
        i <= a.len(),
        i <= b.len(),
        forall|k: int| 0 <= k < i ==> a[k] == b[k],
    ensures
        seq_lt(a, b) == seq_lt(a.subrange(i, a.len() as int), b.subrange(i, b.len() as int)),
    decreases i,
{
    if i > 0 {
        assert(a.len() > 0 && b.len() > 0);
        assert(a[0] == b[0]);
        let a1 = a.drop_first();
        let b1 = b.drop_first();
        assert forall|k: int| 0 <= k < i - 1 implies a1[k] == b1[k] by {
            assert(a1[k] == a[k + 1]);
            assert(b1[k] == b[k + 1]);
        }
        lemma_seq_lt_skip(a1, b1, i - 1);
        assert(a1.subrange(i - 1, a1.len() as int) =~= a.subrange(i, a.len() as int));
        assert(b1.subrange(i - 1, b1.len() as int) =~= b.subrange(i, b.len() as int));
    } else {
        assert(a.subrange(0, a.len() as int) =~= a);
        assert(b.subrange(0, b.len() as int) =~= b);
    }
}

/// Whether `a` sorts before `b`.
pub fn text_lt(a: &str, b: &str) -> (r: bool)
    ensures
        r == seq_lt(a@, b@),
{
    let n = a.unicode_len();
    let m = b.unicode_len();
    let mut i: usize = 0;
    while i < n && i < m
        invariant
            n == a@.len(),
            m == b@.len(),
            i <= n,
            i <= m,
            forall|k: int| 0 <= k < i ==> a@[k] == b@[k],
        decreases n - i,
    {
        let x = a.get_char(i);
        let y = b.get_char(i);
        if x != y {
            proof {
                lemma_seq_lt_skip(a@, b@, i as int);
                let sa = a@.subrange(i as int, n as int);
                let sb = b@.subrange(i as int, m as int);
                assert(sa[0] == x && sb[0] == y);
            }
            return (x as u32) < (y as u32);
        }
        i = i + 1;
    }
    proof {
        lemma_seq_lt_skip(a@, b@, i as int);
        let sa = a@.subrange(i as int, n as int);
        let sb = b@.subrange(i as int, m as int);
        assert(sa.len() == n - i);
        assert(sb.len() == m - i);
    }
    i < m
}

} // verus!
