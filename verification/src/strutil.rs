//! Character classes, string comparison and small parsing helpers shared by
//! the validators, the parser and the query engine.

use vstd::prelude::*;

verus! {

/// ASCII whitespace, as the command line tokenizer understands it.
pub open spec fn is_space_char(c: char) -> bool {
    c == ' ' || c == '\t' || c == '\n' || c == '\r' || c == '\x0c'
}

pub open spec fn is_digit_char(c: char) -> bool {
    '0' <= c && c <= '9'
}

pub open spec fn is_hex_char(c: char) -> bool {
    is_digit_char(c) || ('a' <= c && c <= 'f') || ('A' <= c && c <= 'F')
}

pub open spec fn all_digits(s: Seq<char>) -> bool {
    forall|i: int| 0 <= i < s.len() ==> is_digit_char(#[trigger] s[i])
}

pub open spec fn all_hex(s: Seq<char>) -> bool {
    forall|i: int| 0 <= i < s.len() ==> is_hex_char(#[trigger] s[i])
}

pub open spec fn digit_val(c: char) -> int {
    c as int - '0' as int
}

/// Value of a decimal digit string, most significant digit first.
pub open spec fn digits_val(s: Seq<char>) -> int
    decreases s.len(),
{
    if s.len() == 0 {
        0
    } else {
        digits_val(s.drop_last()) * 10 + digit_val(s.last())
    }
}

pub fn is_space(c: char) -> (r: bool)
    ensures
        r == is_space_char(c),
{
    c == ' ' || c == '\t' || c == '\n' || c == '\r' || c == '\x0c'
}

pub fn is_digit(c: char) -> (r: bool)
    ensures
        r == is_digit_char(c),
{
    '0' <= c && c <= '9'
}

pub fn is_hex(c: char) -> (r: bool)
    ensures
        r == is_hex_char(c),
{
    is_digit(c) || ('a' <= c && c <= 'f') || ('A' <= c && c <= 'F')
}

/// Character-wise string equality; `==` on `&str` carries no specification.
pub fn str_eq(a: &str, b: &str) -> (r: bool)
    ensures
        r == (a@ == b@),
{
    let na = a.unicode_len();
    let nb = b.unicode_len();
    if na != nb {
        assert(a@ != b@) by {
            assert(a@.len() != b@.len());
        }
        return false;
    }
    let mut i: usize = 0;
    while i < na
        invariant
            i <= na,
            na == a@.len(),
            na == b@.len(),
            forall|j: int| 0 <= j < i ==> a@[j] == b@[j],
        decreases na - i,
    {
        if a.get_char(i) != b.get_char(i) {
            return false;
        }
        i = i + 1;
    }
    assert(a@ =~= b@);
    true
}

/// Equality of a `String` against a literal or borrowed string.
pub fn string_eq_str(a: &String, b: &str) -> (r: bool)
    ensures
        r == (a@ == b@),
{
    str_eq(a.as_str(), b)
}

/// First position of `c` in `s`, if any.
pub open spec fn first_index_of(s: Seq<char>, c: char) -> Option<int>
    decreases s.len(),
{
    if s.len() == 0 {
        None
    } else if s[0] == c {
        Some(0int)
    } else {
        match first_index_of(s.drop_first(), c) {
            Some(i) => Some(i + 1),
            None => None,
        }
    }
}

pub proof fn lemma_first_index_of_at(s: Seq<char>, c: char, i: int)
    requires
        0 <= i < s.len(),
        s[i] == c,
        forall|j: int| 0 <= j < i ==> s[j] != c,
    ensures
        first_index_of(s, c) == Some(i),
    decreases i,
{
    if i > 0 {
        lemma_first_index_of_at(s.drop_first(), c, i - 1);
    }
}

pub proof fn lemma_first_index_of_none(s: Seq<char>, c: char)
    requires
        forall|j: int| 0 <= j < s.len() ==> s[j] != c,
    ensures
        first_index_of(s, c) is None,
    decreases s.len(),
{
    if s.len() > 0 {
        lemma_first_index_of_none(s.drop_first(), c);
    }
}

pub proof fn lemma_first_index_of_props(s: Seq<char>, c: char)
    ensures
        match first_index_of(s, c) {
            Some(i) => 0 <= i < s.len() && s[i] == c && forall|j: int| 0 <= j < i ==> s[j] != c,
            None => forall|j: int| 0 <= j < s.len() ==> s[j] != c,
        },
    decreases s.len(),
{
    if s.len() > 0 && s[0] != c {
        let t = s.drop_first();
        lemma_first_index_of_props(t, c);
        match first_index_of(t, c) {
            Some(i) => {
                assert(s[i + 1] == t[i]);
                assert forall|j: int| 0 <= j < i + 1 implies s[j] != c by {
                    if j > 0 {
                        assert(t[j - 1] == s[j]);
                    }
                }
            },
            None => {
                assert forall|j: int| 0 <= j < s.len() implies s[j] != c by {
                    if j > 0 {
                        assert(t[j - 1] == s[j]);
                    }
                }
            },
        }
    }
}

/// First position of `c` in `s`, by a left-to-right scan.
pub fn find_char(s: &str, c: char) -> (r: Option<usize>)
    ensures
        match r {
            Some(i) => first_index_of(s@, c) == Some(i as int),
            None => first_index_of(s@, c) is None,
        },
{
    let n = s.unicode_len();
    let mut i: usize = 0;
    while i < n
        invariant
            i <= n,
            n == s@.len(),
            forall|j: int| 0 <= j < i ==> s@[j] != c,
        decreases n - i,
    {
        if s.get_char(i) == c {
            proof {
                lemma_first_index_of_at(s@, c, i as int);
            }
            return Some(i);
        }
        i = i + 1;
    }
    proof {
        lemma_first_index_of_none(s@, c);
    }
    None
}

/// Splitting on a separator character; every separator produces a boundary,
/// so empty parts are kept, and the result always has at least one part.
pub open spec fn split_char(s: Seq<char>, c: char) -> Seq<Seq<char>>
    decreases s.len(),
{
    if s.len() == 0 {
        seq![Seq::<char>::empty()]
    } else if s[0] == c {
        seq![Seq::<char>::empty()] + split_char(s.drop_first(), c)
    } else {
        let rest = split_char(s.drop_first(), c);
        seq![seq![s[0]] + rest[0]] + rest.skip(1)
    }
}

pub proof fn lemma_split_char_len(s: Seq<char>, c: char)
    ensures
        split_char(s, c).len() >= 1,
    decreases s.len(),
{
    if s.len() > 0 {
        lemma_split_char_len(s.drop_first(), c);
    }
}

/// A separator-free run `[i, j)` ending at a separator or at the end of the
/// string is exactly the first part of the split of the suffix at `i`.
pub proof fn lemma_split_char_run(s: Seq<char>, c: char, i: int, j: int)
    requires
        0 <= i <= j <= s.len(),
        forall|k: int| i <= k < j ==> s[k] != c,
        j == s.len() || s[j] == c,
    ensures
        j == s.len() ==> split_char(s.skip(i), c) == seq![s.subrange(i, j)],
        j < s.len() ==> split_char(s.skip(i), c) == seq![s.subrange(i, j)] + split_char(
            s.skip(j + 1),
            c,
        ),
    decreases j - i,
{
    lemma_split_char_len(s.skip(i + 1), c);
    if i == j {
        if j == s.len() {
            assert(s.skip(i) =~= Seq::<char>::empty());
            assert(s.subrange(i, j) =~= Seq::<char>::empty());
            assert(split_char(s.skip(i), c) =~= seq![s.subrange(i, j)]);
        } else {
            assert(s.skip(i)[0] == c);
            assert(s.skip(i).drop_first() =~= s.skip(i + 1));
            assert(s.subrange(i, j) =~= Seq::<char>::empty());
            assert(split_char(s.skip(i), c) =~= seq![s.subrange(i, j)] + split_char(
                s.skip(j + 1),
                c,
            ));
        }
    } else {
        assert(s.skip(i)[0] == s[i]);
        assert(s[i] != c);
        assert(s.skip(i).drop_first() =~= s.skip(i + 1));
        lemma_split_char_run(s, c, i + 1, j);
        let rest = split_char(s.skip(i + 1), c);
        if j == s.len() {
            assert(rest == seq![s.subrange(i + 1, j)]);
            assert(seq![s[i]] + rest[0] =~= s.subrange(i, j));
            assert(rest.skip(1) =~= Seq::<Seq<char>>::empty());
            assert(split_char(s.skip(i), c) =~= seq![s.subrange(i, j)]);
        } else {
            assert(rest == seq![s.subrange(i + 1, j)] + split_char(s.skip(j + 1), c));
            assert(rest[0] == s.subrange(i + 1, j));
            assert(seq![s[i]] + rest[0] =~= s.subrange(i, j));
            assert(rest.skip(1) =~= split_char(s.skip(j + 1), c));
            assert(split_char(s.skip(i), c) =~= seq![s.subrange(i, j)] + split_char(
                s.skip(j + 1),
                c,
            ));
        }
    }
}

/// Splits `s` at every occurrence of `c`, keeping empty parts.
pub fn split_str<'a>(s: &'a str, c: char) -> (parts: Vec<&'a str>)
    ensures
        parts.deep_view() == split_char(s@, c),
{
    let n = s.unicode_len();
    let mut parts: Vec<&str> = Vec::new();
    let mut start: usize = 0;
    let mut i: usize = 0;
    proof {
        assert(s@.skip(0) =~= s@);
        assert(parts.deep_view() =~= Seq::<Seq<char>>::empty());
        assert(parts.deep_view() + split_char(s@, c) =~= split_char(s@, c));
    }
    while i < n
        invariant
            start <= i <= n,
            n == s@.len(),
            split_char(s@, c) == parts.deep_view() + split_char(s@.skip(start as int), c),
            forall|k: int| start <= k < i ==> s@[k] != c,
        decreases n - i,
    {
        if s.get_char(i) == c {
            let part = s.substring_char(start, i);
            proof {
                lemma_split_char_run(s@, c, start as int, i as int);
            }
            parts.push(part);
            proof {
                assert(parts.deep_view() + split_char(s@.skip(i + 1), c) =~= split_char(s@, c));
            }
            start = i + 1;
        }
        i = i + 1;
    }
    let last = s.substring_char(start, n);
    proof {
        lemma_split_char_run(s@, c, start as int, n as int);
    }
    parts.push(last);
    proof {
        assert(parts.deep_view() =~= split_char(s@, c));
    }
    parts
}

/// First position where `pat` occurs as a contiguous subsequence of `s`.
pub open spec fn first_match(s: Seq<char>, pat: Seq<char>) -> Option<int>
    decreases s.len(),
{
    if pat.len() > s.len() {
        None
    } else if s.take(pat.len() as int) == pat {
        Some(0int)
    } else if s.len() == 0 {
        None
    } else {
        match first_match(s.drop_first(), pat) {
            Some(i) => Some(i + 1),
            None => None,
        }
    }
}

/// Whether `pat` occurs in `s` at position `j`.
pub open spec fn match_at(s: Seq<char>, pat: Seq<char>, j: int) -> bool {
    0 <= j && j + pat.len() <= s.len() && s.subrange(j, j + pat.len()) == pat
}

pub proof fn lemma_first_match_at(s: Seq<char>, pat: Seq<char>, i: int)
    requires
        match_at(s, pat, i),
        forall|j: int| 0 <= j < i ==> !match_at(s, pat, j),
    ensures
        first_match(s, pat) == Some(i),
    decreases i,
{
    if i == 0 {
        assert(s.take(pat.len() as int) =~= s.subrange(0, 0 + pat.len() as int));
    } else {
        assert(!match_at(s, pat, 0));
        assert(s.take(pat.len() as int) =~= s.subrange(0, 0 + pat.len() as int));
        let t = s.drop_first();
        assert forall|j: int| 0 <= j < i - 1 implies !match_at(t, pat, j) by {
            assert(!match_at(s, pat, j + 1));
            assert(t.subrange(j, j + pat.len()) =~= s.subrange(j + 1, j + 1 + pat.len()));
        }
        assert(t.subrange(i - 1, i - 1 + pat.len()) =~= s.subrange(i, i + pat.len()));
        assert(match_at(t, pat, i - 1));
        lemma_first_match_at(t, pat, i - 1);
    }
}

pub proof fn lemma_first_match_none(s: Seq<char>, pat: Seq<char>)
    requires
        forall|j: int| !match_at(s, pat, j),
    ensures
        first_match(s, pat) is None,
    decreases s.len(),
{
    if pat.len() > s.len() {
    } else {
        assert(!match_at(s, pat, 0));
        assert(s.take(pat.len() as int) =~= s.subrange(0, 0 + pat.len() as int));
        if s.len() > 0 {
            let t = s.drop_first();
            assert forall|j: int| !match_at(t, pat, j) by {
                if 0 <= j && j + pat.len() <= t.len() {
                    assert(!match_at(s, pat, j + 1));
                    assert(t.subrange(j, j + pat.len()) =~= s.subrange(j + 1, j + 1 + pat.len()));
                }
            }
            lemma_first_match_none(t, pat);
        }
    }
}

/// First occurrence of `pat` as a substring of `s`, by scanning.
pub fn find_sub(s: &str, pat: &str) -> (r: Option<usize>)
    ensures
        match r {
            Some(i) => first_match(s@, pat@) == Some(i as int) && i + pat@.len() <= s@.len(),
            None => first_match(s@, pat@) is None,
        },
{
    let n = s.unicode_len();
    let m = pat.unicode_len();
    if m > n {
        proof {
            assert forall|j: int| !match_at(s@, pat@, j) by {}
            lemma_first_match_none(s@, pat@);
        }
        return None;
    }
    let limit: usize = n - m;
    let mut i: usize = 0;
    loop
        invariant
            i <= limit,
            limit == n - m,
            m <= n,
            n == s@.len(),
            m == pat@.len(),
            forall|j: int| 0 <= j < i ==> !match_at(s@, pat@, j),
        decreases limit - i,
    {
        let piece = s.substring_char(i, i + m);
        if str_eq(piece, pat) {
            proof {
                assert(s@.subrange(i as int, i + m) == pat@);
                assert(match_at(s@, pat@, i as int));
                lemma_first_match_at(s@, pat@, i as int);
            }
            return Some(i);
        }
        proof {
            assert(s@.subrange(i as int, i + m) != pat@);
            assert(!match_at(s@, pat@, i as int));
        }
        if i == limit {
            proof {
                assert forall|j: int| !match_at(s@, pat@, j) by {
                    if 0 <= j && j + pat@.len() <= s@.len() {
                        assert(j <= limit);
                    }
                }
                lemma_first_match_none(s@, pat@);
            }
            return None;
        }
        i = i + 1;
    }
}

/// Leading and trailing ASCII whitespace removed.
pub open spec fn trim_start_spec(s: Seq<char>) -> Seq<char>
    decreases s.len(),
{
    if s.len() > 0 && is_space_char(s[0]) {
        trim_start_spec(s.drop_first())
    } else {
        s
    }
}

pub open spec fn trim_end_spec(s: Seq<char>) -> Seq<char>
    decreases s.len(),
{
    if s.len() > 0 && is_space_char(s.last()) {
        trim_end_spec(s.drop_last())
    } else {
        s
    }
}

pub open spec fn trim_spec(s: Seq<char>) -> Seq<char> {
    trim_end_spec(trim_start_spec(s))
}

proof fn lemma_trim_start_run(s: Seq<char>, lo: int)
    requires
        0 <= lo <= s.len(),
        forall|k: int| 0 <= k < lo ==> is_space_char(s[k]),
        lo == s.len() || !is_space_char(s[lo]),
    ensures
        trim_start_spec(s) == s.skip(lo),
    decreases lo,
{
    if lo == 0 {
        assert(s.skip(0) =~= s);
    } else {
        assert(is_space_char(s[0]));
        let t = s.drop_first();
        assert forall|k: int| 0 <= k < lo - 1 implies is_space_char(t[k]) by {
            assert(t[k] == s[k + 1]);
        }
        lemma_trim_start_run(t, lo - 1);
        assert(t.skip(lo - 1) =~= s.skip(lo));
    }
}

proof fn lemma_trim_end_run(s: Seq<char>, hi: int)
    requires
        0 <= hi <= s.len(),
        forall|k: int| hi <= k < s.len() ==> is_space_char(s[k]),
        hi == 0 || !is_space_char(s[hi - 1]),
    ensures
        trim_end_spec(s) == s.take(hi),
    decreases s.len() - hi,
{
    if hi == s.len() {
        assert(s.take(hi) =~= s);
    } else {
        assert(is_space_char(s.last()));
        let t = s.drop_last();
        lemma_trim_end_run(t, hi);
        assert(t.take(hi) =~= s.take(hi));
    }
}

/// `s` with leading and trailing ASCII whitespace removed.
pub fn trim_str<'a>(s: &'a str) -> (r: &'a str)
    ensures
        r@ == trim_spec(s@),
{
    let n = s.unicode_len();
    let mut lo: usize = 0;
    while lo < n && is_space(s.get_char(lo))
        invariant
            lo <= n,
            n == s@.len(),
            forall|k: int| 0 <= k < lo ==> is_space_char(s@[k]),
        decreases n - lo,
    {
        lo = lo + 1;
    }
    proof {
        lemma_trim_start_run(s@, lo as int);
    }
    let mut hi: usize = n;
    while hi > lo && is_space(s.get_char(hi - 1))
        invariant
            lo <= hi <= n,
            n == s@.len(),
            forall|k: int| hi <= k < n ==> is_space_char(s@[k]),
        decreases hi,
    {
        hi = hi - 1;
    }
    proof {
        let t = s@.skip(lo as int);
        assert forall|k: int| hi - lo <= k < t.len() implies is_space_char(t[k]) by {
            assert(t[k] == s@[k + lo]);
        }
        if hi > lo {
            assert(t[hi - lo - 1] == s@[hi - 1]);
        }
        lemma_trim_end_run(t, hi - lo);
        assert(t.take(hi - lo) =~= s@.subrange(lo as int, hi as int));
    }
    s.substring_char(lo, hi)
}

/// Whether `p` is a prefix of `s`.
pub fn str_has_prefix(s: &str, p: &str) -> (r: bool)
    ensures
        r == (s@.len() >= p@.len() && s@.take(p@.len() as int) == p@),
{
    let n = s.unicode_len();
    let m = p.unicode_len();
    if m > n {
        return false;
    }
    let head = s.substring_char(0, m);
    assert(head@ =~= s@.take(p@.len() as int));
    str_eq(head, p)
}

/// Whether `p` is a suffix of `s`.
pub fn str_has_suffix(s: &str, p: &str) -> (r: bool)
    ensures
        r == (s@.len() >= p@.len() && s@.skip(s@.len() - p@.len()) == p@),
{
    let n = s.unicode_len();
    let m = p.unicode_len();
    if m > n {
        return false;
    }
    let tail = s.substring_char(n - m, n);
    assert(tail@ =~= s@.skip(s@.len() - p@.len()));
    str_eq(tail, p)
}

/// Digit strings are never negative.
pub proof fn lemma_digits_val_nonneg(s: Seq<char>)
    requires
        all_digits(s),
    ensures
        digits_val(s) >= 0,
    decreases s.len(),
{
    if s.len() > 0 {
        assert(all_digits(s.drop_last()));
        lemma_digits_val_nonneg(s.drop_last());
    }
}

/// Extending a digit string never lowers its value.
pub proof fn lemma_digits_val_prefix(s: Seq<char>, j: int)
    requires
        all_digits(s),
        0 <= j <= s.len(),
    ensures
        digits_val(s) >= digits_val(s.take(j)),
    decreases s.len() - j,
{
    if j < s.len() {
        assert(all_digits(s.take(j + 1)));
        assert(s.take(j + 1).drop_last() =~= s.take(j));
        assert(s.take(j + 1).last() == s[j]);
        assert(all_digits(s.take(j)));
        lemma_digits_val_nonneg(s.take(j));
        assert(digits_val(s.take(j + 1)) >= digits_val(s.take(j)));
        lemma_digits_val_prefix(s, j + 1);
    } else {
        assert(s.take(j) =~= s);
    }
}

/// Parses an unsigned decimal digit string; `None` when empty, when a
/// character is not a digit, or when the value exceeds `u64::MAX`.
pub fn parse_dec_u64(s: &str) -> (r: Option<u64>)
    ensures
        match r {
            Some(x) => s@.len() > 0 && all_digits(s@) && digits_val(s@) == x as int,
            None => !(s@.len() > 0 && all_digits(s@) && digits_val(s@) <= u64::MAX),
        },
{
    let n = s.unicode_len();
    if n == 0 {
        return None;
    }
    let mut acc: u64 = 0;
    let mut i: usize = 0;
    while i < n
        invariant
            i <= n,
            n == s@.len(),
            all_digits(s@.take(i as int)),
            acc as int == digits_val(s@.take(i as int)),
        decreases n - i,
    {
        let c = s.get_char(i);
        if !is_digit(c) {
            return None;
        }
        let d: u64 = (c as u32 as u64) - ('0' as u32 as u64);
        assert(d <= 9) by {
            assert(is_digit_char(c));
        }
        if acc > (u64::MAX - d) / 10 {
            proof {
                assert(s@.take(i + 1).drop_last() =~= s@.take(i as int));
                assert(s@.take(i + 1).last() == s@[i as int]);
                assert(all_digits(s@.take(i + 1)));
                assert(digits_val(s@.take(i + 1)) == acc as int * 10 + d as int);
                assert(acc as int * 10 + d as int > u64::MAX as int) by {
                    let q = ((u64::MAX - d) / 10) as int;
                    assert(acc as int >= q + 1);
                    assert(q * 10 <= u64::MAX - d < (q + 1) * 10) by {
                        assert((u64::MAX - d) as int / 10 == q);
                    }
                }
                if all_digits(s@) {
                    lemma_digits_val_prefix(s@, i + 1);
                }
            }
            return None;
        }
        proof {
            let q = ((u64::MAX - d) / 10) as int;
            assert(q * 10 <= u64::MAX - d) by {
                assert((u64::MAX - d) as int / 10 == q);
            }
            assert(acc as int * 10 + d as int <= u64::MAX as int);
        }
        acc = acc * 10 + d;
        proof {
            assert(s@.take(i + 1).drop_last() =~= s@.take(i as int));
            assert(s@.take(i + 1).last() == s@[i as int]);
            assert(digit_val(s@[i as int]) == d as int);
        }
        i = i + 1;
    }
    assert(s@.take(n as int) =~= s@);
    Some(acc)
}

pub open spec fn hex_val(c: char) -> int {
    if is_digit_char(c) {
        c as int - '0' as int
    } else if 'a' <= c && c <= 'f' {
        c as int - 'a' as int + 10
    } else {
        c as int - 'A' as int + 10
    }
}

/// Value of a hexadecimal digit string, most significant digit first.
pub open spec fn hex_digits_val(s: Seq<char>) -> int
    decreases s.len(),
{
    if s.len() == 0 {
        0
    } else {
        hex_digits_val(s.drop_last()) * 16 + hex_val(s.last())
    }
}

pub proof fn lemma_hex_digits_val_nonneg(s: Seq<char>)
    requires
        all_hex(s),
    ensures
        hex_digits_val(s) >= 0,
    decreases s.len(),
{
    if s.len() > 0 {
        assert(all_hex(s.drop_last()));
        lemma_hex_digits_val_nonneg(s.drop_last());
    }
}

pub proof fn lemma_hex_digits_val_prefix(s: Seq<char>, j: int)
    requires
        all_hex(s),
        0 <= j <= s.len(),
    ensures
        hex_digits_val(s) >= hex_digits_val(s.take(j)),
    decreases s.len() - j,
{
    if j < s.len() {
        assert(all_hex(s.take(j + 1)));
        assert(s.take(j + 1).drop_last() =~= s.take(j));
        assert(s.take(j + 1).last() == s[j]);
        assert(all_hex(s.take(j)));
        lemma_hex_digits_val_nonneg(s.take(j));
        assert(hex_digits_val(s.take(j + 1)) >= hex_digits_val(s.take(j)));
        lemma_hex_digits_val_prefix(s, j + 1);
    } else {
        assert(s.take(j) =~= s);
    }
}

/// Parses an unsigned hexadecimal digit string (no `0x` prefix); `None` when
/// empty, when a character is not a hex digit, or when the value exceeds
/// `u64::MAX`.
pub fn parse_hex_u64(s: &str) -> (r: Option<u64>)
    ensures
        match r {
            Some(x) => s@.len() > 0 && all_hex(s@) && hex_digits_val(s@) == x as int,
            None => !(s@.len() > 0 && all_hex(s@) && hex_digits_val(s@) <= u64::MAX),
        },
{
    let n = s.unicode_len();
    if n == 0 {
        return None;
    }
    let mut acc: u64 = 0;
    let mut i: usize = 0;
    while i < n
        invariant
            i <= n,
            n == s@.len(),
            all_hex(s@.take(i as int)),
            acc as int == hex_digits_val(s@.take(i as int)),
        decreases n - i,
    {
        let c = s.get_char(i);
        if !is_hex(c) {
            return None;
        }
        let d: u64 = if is_digit(c) {
            (c as u32 as u64) - ('0' as u32 as u64)
        } else if 'a' <= c && c <= 'f' {
            (c as u32 as u64) - ('a' as u32 as u64) + 10
        } else {
            (c as u32 as u64) - ('A' as u32 as u64) + 10
        };
        assert(d <= 15 && d as int == hex_val(c)) by {
            assert(is_hex_char(c));
        }
        if acc > (u64::MAX - d) / 16 {
            proof {
                assert(s@.take(i + 1).drop_last() =~= s@.take(i as int));
                assert(s@.take(i + 1).last() == s@[i as int]);
                assert(all_hex(s@.take(i + 1)));
                assert(hex_digits_val(s@.take(i + 1)) == acc as int * 16 + d as int);
                assert(acc as int * 16 + d as int > u64::MAX as int) by {
                    let q = ((u64::MAX - d) / 16) as int;
                    assert(acc as int >= q + 1);
                    assert(q * 16 <= u64::MAX - d < (q + 1) * 16) by {
                        assert((u64::MAX - d) as int / 16 == q);
                    }
                }
                if all_hex(s@) {
                    lemma_hex_digits_val_prefix(s@, i + 1);
                }
            }
            return None;
        }
        proof {
            let q = ((u64::MAX - d) / 16) as int;
            assert(q * 16 <= u64::MAX - d) by {
                assert((u64::MAX - d) as int / 16 == q);
            }
            assert(acc as int * 16 + d as int <= u64::MAX as int);
        }
        acc = acc * 16 + d;
        proof {
            assert(s@.take(i + 1).drop_last() =~= s@.take(i as int));
            assert(s@.take(i + 1).last() == s@[i as int]);
        }
        i = i + 1;
    }
    assert(s@.take(n as int) =~= s@);
    Some(acc)
}

/// What `value.parse::<i64>()` accepts: an optional sign, then at least one
/// digit, with the signed value in the range of a 64-bit integer.
pub open spec fn i64_parse(s: Seq<char>) -> Option<int> {
    let neg = s.len() > 0 && s[0] == '-';
    let ds = if s.len() > 0 && (s[0] == '+' || s[0] == '-') {
        s.drop_first()
    } else {
        s
    };
    if ds.len() > 0 && all_digits(ds) {
        let v = if neg {
            -digits_val(ds)
        } else {
            digits_val(ds)
        };
        if i64::MIN <= v <= i64::MAX {
            Some(v)
        } else {
            None
        }
    } else {
        None
    }
}

/// Parses a signed decimal integer exactly as `i64` parsing does.
pub fn parse_i64_str(s: &str) -> (r: Option<i64>)
    ensures
        match r {
            Some(x) => i64_parse(s@) == Some(x as int),
            None => i64_parse(s@) is None,
        },
{
    let n = s.unicode_len();
    let (neg, rest) = if n > 0 && (s.get_char(0) == '+' || s.get_char(0) == '-') {
        let neg = s.get_char(0) == '-';
        (neg, s.substring_char(1, n))
    } else {
        (false, s.substring_char(0, n))
    };
    proof {
        if n > 0 && (s@[0] == '+' || s@[0] == '-') {
            assert(rest@ =~= s@.drop_first());
        } else {
            assert(rest@ =~= s@);
        }
    }
    match parse_dec_u64(rest) {
        None => {
            proof {
                if rest@.len() > 0 && all_digits(rest@) {
                    lemma_digits_val_nonneg(rest@);
                }
            }
            None
        },
        Some(mag) => {
            if neg {
                if mag <= 0x7fff_ffff_ffff_ffff {
                    Some(-(mag as i64))
                } else if mag == 0x8000_0000_0000_0000 {
                    Some(i64::MIN)
                } else {
                    None
                }
            } else {
                if mag <= 0x7fff_ffff_ffff_ffff {
                    Some(mag as i64)
                } else {
                    None
                }
            }
        },
    }
}

pub open spec fn dec_digit_char(k: int) -> char {
    if k == 0 {
        '0'
    } else if k == 1 {
        '1'
    } else if k == 2 {
        '2'
    } else if k == 3 {
        '3'
    } else if k == 4 {
        '4'
    } else if k == 5 {
        '5'
    } else if k == 6 {
        '6'
    } else if k == 7 {
        '7'
    } else if k == 8 {
        '8'
    } else {
        '9'
    }
}

/// The decimal digit string of a non-negative number, without leading
/// zeros.
pub open spec fn dec_seq(n: int) -> Seq<char>
    decreases n,
    when n >= 0
{
    if n < 10 {
        seq![dec_digit_char(n)]
    } else {
        dec_seq(n / 10).push(dec_digit_char(n % 10))
    }
}

/// The decimal digit string of a signed number, with a leading `-` when
/// negative.
pub open spec fn dec_seq_signed(n: int) -> Seq<char> {
    if n < 0 {
        seq!['-'] + dec_seq(-n)
    } else {
        dec_seq(n)
    }
}

fn dec_digit_str(k: u64) -> (r: &'static str)
    requires
        k < 10,
    ensures
        r@ == seq![dec_digit_char(k as int)],
{
    proof {
        reveal_strlit("0");
        reveal_strlit("1");
        reveal_strlit("2");
        reveal_strlit("3");
        reveal_strlit("4");
        reveal_strlit("5");
        reveal_strlit("6");
        reveal_strlit("7");
        reveal_strlit("8");
        reveal_strlit("9");
    }
    if k == 0 {
        "0"
    } else if k == 1 {
        "1"
    } else if k == 2 {
        "2"
    } else if k == 3 {
        "3"
    } else if k == 4 {
        "4"
    } else if k == 5 {
        "5"
    } else if k == 6 {
        "6"
    } else if k == 7 {
        "7"
    } else if k == 8 {
        "8"
    } else {
        "9"
    }
}

/// Formats a number in decimal.
pub fn u64_to_string(n: u64) -> (r: String)
    ensures
        r@ == dec_seq(n as int),
    decreases n,
{
    if n < 10 {
        dec_digit_str(n).to_owned()
    } else {
        let mut s = u64_to_string(n / 10);
        s.append(dec_digit_str(n % 10));
        proof {
            assert(s@ =~= dec_seq((n / 10) as int).push(dec_digit_char((n % 10) as int)));
        }
        s
    }
}

/// Formats a signed number in decimal.
pub fn i64_to_string(n: i64) -> (r: String)
    ensures
        r@ == dec_seq_signed(n as int),
{
    if n >= 0 {
        u64_to_string(n as u64)
    } else {
        let mag: u64 = if n == i64::MIN {
            9223372036854775808
        } else {
            (-n) as u64
        };
        let mut s = "-".to_owned();
        proof {
            reveal_strlit("-");
        }
        let digits = u64_to_string(mag);
        s.append(digits.as_str());
        proof {
            assert(s@ =~= seq!['-'] + dec_seq(mag as int));
        }
        s
    }
}

/// The parts joined with a comma between neighbours.
pub open spec fn join_comma(parts: Seq<Seq<char>>) -> Seq<char>
    decreases parts.len(),
{
    if parts.len() == 0 {
        Seq::<char>::empty()
    } else if parts.len() == 1 {
        parts[0]
    } else {
        join_comma(parts.drop_last()) + seq![','] + parts.last()
    }
}

/// Joins strings with commas.
#[verifier::loop_isolation(false)]
pub fn join_comma_strings(parts: &Vec<String>) -> (r: String)
    ensures
        r@ == join_comma(parts.deep_view()),
{
    proof {
        reveal_strlit(",");
    }
    let mut s = String::new();
    let mut i: usize = 0;
    proof {
        assert(s@ =~= join_comma(parts.deep_view().take(0)));
    }
    while i < parts.len()
        invariant
            i <= parts@.len(),
            s@ == join_comma(parts.deep_view().take(i as int)),
        decreases parts@.len() - i,
    {
        proof {
            assert(parts.deep_view().take(i + 1).drop_last() =~= parts.deep_view().take(i as int));
            assert(parts.deep_view().take(i + 1).last() == parts.deep_view()[i as int]);
            assert(parts.deep_view()[i as int] == parts@[i as int]@);
        }
        if i > 0 {
            s.append(",");
        }
        s.append(parts[i].as_str());
        proof {
            assert(s@ =~= join_comma(parts.deep_view().take(i + 1)));
        }
        i = i + 1;
    }
    proof {
        assert(parts.deep_view().take(parts@.len() as int) =~= parts.deep_view());
    }
    s
}

/// The numeric value of one version component: a decimal number where the
/// component is one, zero otherwise.
pub open spec fn ver_comp_val(c: Seq<char>) -> int {
    if c.len() > 0 && all_digits(c) && digits_val(c) <= u64::MAX {
        digits_val(c)
    } else {
        0
    }
}

/// Componentwise comparison from position `i`, with missing components
/// read as zero.
pub open spec fn intseq_le_from(x: Seq<int>, y: Seq<int>, i: int) -> bool
    decreases x.len() + y.len() - i,
    when 0 <= i <= x.len() + y.len()
{
    if i >= x.len() && i >= y.len() {
        true
    } else {
        let xh = if i < x.len() {
            x[i]
        } else {
            0
        };
        let yh = if i < y.len() {
            y[i]
        } else {
            0
        };
        if xh < yh {
            true
        } else if xh > yh {
            false
        } else {
            intseq_le_from(x, y, i + 1)
        }
    }
}

/// Whether version `a` precedes or equals version `b`: dot-separated
/// components compared numerically, missing components read as zero.
pub open spec fn version_le(a: Seq<char>, b: Seq<char>) -> bool {
    intseq_le_from(
        split_char(a, '.').map_values(|c: Seq<char>| ver_comp_val(c)),
        split_char(b, '.').map_values(|c: Seq<char>| ver_comp_val(c)),
        0,
    )
}

fn version_component_val(s: &str) -> (r: u64)
    ensures
        r as int == ver_comp_val(s@),
{
    match parse_dec_u64(s) {
        Some(x) => x,
        None => 0,
    }
}

/// Compares two dotted version strings.
#[verifier::loop_isolation(false)]
pub fn version_le_str(a: &str, b: &str) -> (r: bool)
    ensures
        r == version_le(a@, b@),
{
    let pa = split_str(a, '.');
    let pb = split_str(b, '.');
    let ghost xs = split_char(a@, '.').map_values(|c: Seq<char>| ver_comp_val(c));
    let ghost ys = split_char(b@, '.').map_values(|c: Seq<char>| ver_comp_val(c));
    let mut i: usize = 0;
    while i < pa.len() || i < pb.len()
        invariant
            i <= pa@.len() || i <= pb@.len(),
            pa.deep_view() == split_char(a@, '.'),
            pb.deep_view() == split_char(b@, '.'),
            xs.len() == pa@.len(),
            ys.len() == pb@.len(),
            i <= xs.len() + ys.len(),
            version_le(a@, b@) == intseq_le_from(xs, ys, i as int),
        decreases xs.len() + ys.len() - i,
    {
        let xv: u64 = if i < pa.len() {
            assert(pa.deep_view()[i as int] == pa@[i as int]@);
            version_component_val(pa[i])
        } else {
            0
        };
        let yv: u64 = if i < pb.len() {
            assert(pb.deep_view()[i as int] == pb@[i as int]@);
            version_component_val(pb[i])
        } else {
            0
        };
        proof {
            if i < pa.len() {
                assert(xs[i as int] == ver_comp_val(pa.deep_view()[i as int]));
            }
            if i < pb.len() {
                assert(ys[i as int] == ver_comp_val(pb.deep_view()[i as int]));
            }
        }
        if xv < yv {
            return true;
        }
        if xv > yv {
            return false;
        }
        i = i + 1;
    }
    true
}

/// Whether some element of `l` equals `x`.
pub open spec fn seq_contains_str(l: Seq<Seq<char>>, x: Seq<char>) -> bool {
    exists|i: int| 0 <= i < l.len() && l[i] == x
}

pub fn list_contains_str(l: &Vec<String>, x: &str) -> (r: bool)
    ensures
        r == seq_contains_str(l.deep_view(), x@),
{
    let mut i: usize = 0;
    while i < l.len()
        invariant
            i <= l@.len(),
            forall|j: int| 0 <= j < i ==> l.deep_view()[j] != x@,
        decreases l@.len() - i,
    {
        if string_eq_str(&l[i], x) {
            assert(l.deep_view()[i as int] == x@);
            return true;
        }
        assert(l.deep_view()[i as int] != x@);
        i = i + 1;
    }
    false
}

/// A fresh copy of a vector of strings, element for element.
pub fn clone_vec_string(v: &Vec<String>) -> (r: Vec<String>)
    ensures
        r@ == v@,
{
    let mut r: Vec<String> = Vec::new();
    let mut i: usize = 0;
    while i < v.len()
        invariant
            i <= v.len(),
            r@ == v@.take(i as int),
        decreases v.len() - i,
    {
        r.push(v[i].clone());
        i = i + 1;
        assert(r@ =~= v@.take(i as int));
    }
    assert(r@ =~= v@);
    r
}

} // verus!
