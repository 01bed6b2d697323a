//! Verified helpers over strings viewed as sequences of characters.

use vstd::prelude::*;

verus! {

/// `p` is a prefix of `s`.
pub open spec fn is_prefix_of(p: Seq<char>, s: Seq<char>) -> bool {
    p.len() <= s.len() && s.take(p.len() as int) == p
}

/// Character-by-character prefix test.
pub fn str_starts_with(s: &str, prefix: &str) -> (r: bool)
    ensures
        r == is_prefix_of(prefix@, s@),
{
    let n: usize = prefix.unicode_len();
    if n > s.unicode_len() {
        assert(!is_prefix_of(prefix@, s@));
        return false;
    }
    let mut i: usize = 0;
    while i < n
        invariant
            i <= n,
            n == prefix@.len(),
            n <= s@.len(),
            forall|k: int| 0 <= k < i ==> s@[k] == prefix@[k],
        decreases n - i,
    {
        if s.get_char(i) != prefix.get_char(i) {
            assert(s@.take(n as int)[i as int] != prefix@[i as int]);
            return false;
        }
        i = i + 1;
    }
    assert(s@.take(n as int) =~= prefix@);
    true
}

/// The lines of `s`, split at `'\n'`. Splitting the empty sequence yields one
/// empty line; every text has one more line than it has newline characters.
pub open spec fn split_lines_spec(s: Seq<char>) -> Seq<Seq<char>>
    decreases s.len(),
{
    if s.len() == 0 {
        seq![Seq::<char>::empty()]
    } else if s[0] == '\n' {
        seq![Seq::<char>::empty()] + split_lines_spec(s.drop_first())
    } else {
        let rest = split_lines_spec(s.drop_first());
        seq![seq![s[0]] + rest[0]] + rest.drop_first()
    }
}

pub proof fn lemma_split_lines_len(s: Seq<char>)
    ensures
        split_lines_spec(s).len() >= 1,
    decreases s.len(),
{
    if s.len() > 0 {
        lemma_split_lines_len(s.drop_first());
    }
}

/// A text without newlines is one single line.
pub proof fn lemma_split_no_newline(s: Seq<char>)
    requires
        forall|j: int| 0 <= j < s.len() ==> s[j] != '\n',
    ensures
        split_lines_spec(s) == seq![s],
    decreases s.len(),
{
    if s.len() == 0 {
        assert(split_lines_spec(s) =~~= seq![s]);
    } else {
        lemma_split_no_newline(s.drop_first());
        let rest = split_lines_spec(s.drop_first());
        assert(rest == seq![s.drop_first()]);
        assert(seq![s[0]] + rest[0] =~= s);
        assert(split_lines_spec(s) =~~= seq![s]);
    }
}

/// Splitting at the first newline peels off the first line.
pub proof fn lemma_split_at_first_newline(s: Seq<char>, k: int)
    requires
        0 <= k < s.len(),
        s[k] == '\n',
        forall|j: int| 0 <= j < k ==> s[j] != '\n',
    ensures
        split_lines_spec(s) == seq![s.take(k)] + split_lines_spec(s.skip(k + 1)),
    decreases k,
{
    if k == 0 {
        assert(s.take(0) =~= Seq::<char>::empty());
        assert(s.drop_first() =~= s.skip(1));
        assert(split_lines_spec(s) =~~= seq![s.take(0)] + split_lines_spec(s.skip(1)));
    } else {
        let t = s.drop_first();
        assert(t[k - 1] == '\n');
        assert(forall|j: int| 0 <= j < k - 1 ==> t[j] != '\n');
        lemma_split_at_first_newline(t, k - 1);
        let rest = split_lines_spec(t);
        lemma_split_lines_len(t.skip(k));
        assert(rest[0] == t.take(k - 1));
        assert(seq![s[0]] + t.take(k - 1) =~= s.take(k));
        assert(rest.drop_first() =~= split_lines_spec(t.skip(k)));
        assert(t.skip(k) =~= s.skip(k + 1));
        assert(split_lines_spec(s) =~~= seq![s.take(k)] + split_lines_spec(s.skip(k + 1)));
    }
}

/// Splits a text into its lines at `'\n'`.
pub fn split_lines(s: &str) -> (lines: Vec<String>)
    ensures
        lines.deep_view() == split_lines_spec(s@),
        lines.len() >= 1,
{
    let n: usize = s.unicode_len();
    let mut done: Vec<String> = Vec::new();
    let mut line_start: usize = 0;
    let mut i: usize = 0;
    proof {
        assert(s@.skip(0) =~= s@);
        assert(done.deep_view() =~~= Seq::<Seq<char>>::empty());
        assert(Seq::<Seq<char>>::empty() + split_lines_spec(s@) =~~= split_lines_spec(s@));
    }
    while i < n
        invariant
            line_start <= i <= n,
            n == s@.len(),
            forall|j: int| line_start <= j < i ==> s@[j] != '\n',
            split_lines_spec(s@) == done.deep_view() + split_lines_spec(
                s@.skip(line_start as int),
            ),
        decreases n - i,
    {
        if s.get_char(i) == '\n' {
            let piece = s.substring_char(line_start, i).to_owned();
            proof {
                let u = s@.skip(line_start as int);
                assert(u[i - line_start] == '\n');
                assert(forall|j: int| 0 <= j < i - line_start ==> u[j] != '\n');
                lemma_split_at_first_newline(u, i - line_start);
                assert(u.take(i - line_start) =~= s@.subrange(line_start as int, i as int));
                assert(u.skip(i - line_start + 1) =~= s@.skip(i + 1));
            }
            let ghost old_done = done.deep_view();
            done.push(piece);
            proof {
                assert(done.deep_view() =~~= old_done + seq![piece@]);
                assert(old_done + seq![piece@] + split_lines_spec(s@.skip(i + 1)) =~~= old_done
                    + (seq![piece@] + split_lines_spec(s@.skip(i + 1))));
            }
            line_start = i + 1;
        }
        i = i + 1;
    }
    let piece = s.substring_char(line_start, n).to_owned();
    proof {
        let u = s@.skip(line_start as int);
        assert(forall|j: int| 0 <= j < u.len() ==> u[j] != '\n');
        lemma_split_no_newline(u);
        assert(u =~= s@.subrange(line_start as int, n as int));
    }
    let ghost old_done = done.deep_view();
    done.push(piece);
    proof {
        assert(done.deep_view() =~~= old_done + seq![piece@]);
    }
    done
}

/// Index of the first occurrence of `c` in `s`, or `-1` when absent.
pub open spec fn find_char_spec(s: Seq<char>, c: char) -> int
    decreases s.len(),
{
    if s.len() == 0 {
        -1
    } else if s[0] == c {
        0
    } else {
        let r = find_char_spec(s.drop_first(), c);
        if r < 0 {
            -1
        } else {
            r + 1
        }
    }
}

pub proof fn lemma_find_char_at(s: Seq<char>, c: char, k: int)
    requires
        0 <= k < s.len(),
        s[k] == c,
        forall|j: int| 0 <= j < k ==> s[j] != c,
    ensures
        find_char_spec(s, c) == k,
    decreases k,
{
    if k > 0 {
        lemma_find_char_at(s.drop_first(), c, k - 1);
    }
}

pub proof fn lemma_find_char_none(s: Seq<char>, c: char)
    requires
        forall|j: int| 0 <= j < s.len() ==> s[j] != c,
    ensures
        find_char_spec(s, c) == -1,
    decreases s.len(),
{
    if s.len() > 0 {
        lemma_find_char_none(s.drop_first(), c);
    }
}

/// First position of `c` in `s`.
pub fn find_char(s: &str, c: char) -> (r: Option<usize>)
    ensures
        match r {
            Some(i) => i == find_char_spec(s@, c) && i < s@.len() && s@[i as int] == c,
            None => find_char_spec(s@, c) == -1,
        },
{
    let n: usize = s.unicode_len();
    let mut i: usize = 0;
    while i < n
        invariant
            i <= n,
            n == s@.len(),
            forall|j: int| 0 <= j < i ==> s@[j] != c,
        decreases n - i,
    {
        if s.get_char(i) == c {
            proof {
                lemma_find_char_at(s@, c, i as int);
            }
            return Some(i);
        }
        i = i + 1;
    }
    proof {
        lemma_find_char_none(s@, c);
    }
    None
}

/// Character-by-character string equality.
pub fn str_eq(a: &str, b: &str) -> (r: bool)
    ensures
        r == (a@ == b@),
{
    if a.unicode_len() != b.unicode_len() {
        return false;
    }
    assert(a@.take(b@.len() as int) =~= a@);
    str_starts_with(a, b)
}


/// An ASCII whitespace character.
pub open spec fn is_space_char(c: char) -> bool {
    c == ' ' || c == '\t' || c == '\r' || c == '\n'
}

/// `s` without its leading whitespace.
pub open spec fn trim_start_spec(s: Seq<char>) -> Seq<char>
    decreases s.len(),
{
    if s.len() > 0 && is_space_char(s[0]) {
        trim_start_spec(s.drop_first())
    } else {
        s
    }
}

/// `s` without its trailing whitespace.
pub open spec fn trim_end_spec(s: Seq<char>) -> Seq<char>
    decreases s.len(),
{
    if s.len() > 0 && is_space_char(s.last()) {
        trim_end_spec(s.drop_last())
    } else {
        s
    }
}

/// `s` without leading and trailing whitespace.
pub open spec fn trim_spec(s: Seq<char>) -> Seq<char> {
    trim_end_spec(trim_start_spec(s))
}

/// Strips leading and trailing ASCII whitespace.
pub fn trim_ascii_space(s: &str) -> (r: String)
    ensures
        r@ == trim_spec(s@),
{
    let n: usize = s.unicode_len();
    let mut a: usize = 0;
    proof {
        assert(s@.skip(0) =~= s@);
    }
    while a < n && (s.get_char(a) == ' ' || s.get_char(a) == '\t' || s.get_char(a) == '\r'
        || s.get_char(a) == '\n')
        invariant
            a <= n,
            n == s@.len(),
            trim_start_spec(s@) == trim_start_spec(s@.skip(a as int)),
        decreases n - a,
    {
        proof {
            assert(s@.skip(a as int)[0] == s@[a as int]);
            assert(s@.skip(a as int).drop_first() =~= s@.skip(a + 1));
        }
        a = a + 1;
    }
    proof {
        assert(trim_start_spec(s@) == s@.skip(a as int));
    }
    let ghost u = s@.skip(a as int);
    let mut b: usize = n;
    proof {
        assert(u.take(n - a) =~= u);
    }
    while b > a && (s.get_char(b - 1) == ' ' || s.get_char(b - 1) == '\t' || s.get_char(b - 1)
        == '\r' || s.get_char(b - 1) == '\n')
        invariant
            a <= b <= n,
            n == s@.len(),
            u == s@.skip(a as int),
            trim_end_spec(u) == trim_end_spec(u.take(b - a)),
        decreases b,
    {
        proof {
            assert(u.take(b - a).last() == s@[b - 1]);
            assert(u.take(b - a).drop_last() =~= u.take(b - 1 - a));
        }
        b = b - 1;
    }
    proof {
        if b > a {
            assert(u.take(b - a).last() == s@[b - 1]);
        }
        assert(trim_end_spec(u) == u.take(b - a));
    }
    let r = s.substring_char(a, b).to_owned();
    proof {
        assert(r@ =~= u.take(b - a));
    }
    r
}


/// An ASCII decimal digit.
pub open spec fn is_digit_char(c: char) -> bool {
    '0' <= c && c <= '9'
}

/// The value of a digit string, most significant digit first.
pub open spec fn digits_val(s: Seq<char>) -> int
    decreases s.len(),
{
    if s.len() == 0 {
        0
    } else {
        digits_val(s.drop_last()) * 10 + (s.last() as int - '0' as int)
    }
}

pub proof fn lemma_digits_val_prefix(s: Seq<char>, k: int)
    requires
        forall|i: int| 0 <= i < s.len() ==> is_digit_char(s[i]),
        0 <= k <= s.len(),
    ensures
        0 <= digits_val(s.take(k)) <= digits_val(s),
    decreases s.len(),
{
    if s.len() == 0 {
        assert(s.take(k) =~= s);
    } else if k == s.len() {
        assert(s.take(k) =~= s);
        lemma_digits_val_prefix(s.drop_last(), s.len() - 1);
        assert(s.drop_last().take(s.len() - 1) =~= s.drop_last());
    } else {
        let q = s.drop_last();
        assert(forall|i: int| 0 <= i < q.len() ==> is_digit_char(#[trigger] q[i]));
        assert(q.take(k) =~= s.take(k));
        lemma_digits_val_prefix(q, k);
        assert(digits_val(s) == digits_val(q) * 10 + (s.last() as int - '0' as int));
        assert(is_digit_char(s.last()));
        assert(digits_val(q) <= digits_val(q) * 10) by {
            lemma_digits_val_prefix(q, q.len() as int);
            assert(q.take(q.len() as int) =~= q);
        }
    }
}

/// A non-empty, all-digit string whose value fits a `u64`.
pub open spec fn parse_u64_spec(s: Seq<char>) -> Option<u64> {
    if s.len() > 0 && (forall|i: int| 0 <= i < s.len() ==> is_digit_char(s[i])) && digits_val(s)
        <= u64::MAX {
        Some(digits_val(s) as u64)
    } else {
        None
    }
}

/// Parses a decimal `u64`; `None` on anything else, overflow included.
pub fn parse_u64(s: &str) -> (r: Option<u64>)
    ensures
        match r {
            Some(v) => parse_u64_spec(s@) == Some(v),
            None => parse_u64_spec(s@) is None,
        },
{
    let n: usize = s.unicode_len();
    if n == 0 {
        return None;
    }
    let mut v: u64 = 0;
    let mut i: usize = 0;
    proof {
        assert(s@.take(0) =~= Seq::<char>::empty());
    }
    while i < n
        invariant
            i <= n,
            n == s@.len(),
            forall|j: int| 0 <= j < i ==> is_digit_char(s@[j]),
            v == digits_val(s@.take(i as int)),
        decreases n - i,
    {
        let c = s.get_char(i);
        if !('0' <= c && c <= '9') {
            return None;
        }
        let d: u64 = (c as u32 - 48) as u64;
        proof {
            assert(d == c as int - '0' as int);
            assert(s@.take(i + 1).drop_last() =~= s@.take(i as int));
            assert(s@.take(i + 1).last() == s@[i as int]);
        }
        if v > 1844674407370955161 || (v == 1844674407370955161 && d > 5) {
            proof {
                assert(digits_val(s@.take(i + 1)) > u64::MAX);
                if forall|j: int| 0 <= j < s@.len() ==> is_digit_char(s@[j]) {
                    lemma_digits_val_prefix(s@, i + 1);
                }
            }
            return None;
        }
        v = v * 10 + d;
        i = i + 1;
    }
    proof {
        assert(s@.take(n as int) =~= s@);
    }
    Some(v)
}

} // verus!
