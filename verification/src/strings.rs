//! Verified text helpers for the command surfaces: ASCII-whitespace
//! trimming, first-token splitting, line splitting, and case-insensitive
//! substring search (case folding itself is delegated to the standard
//! library behind a named result).
use vstd::prelude::*;

verus! {

/// ASCII whitespace.
pub open spec fn is_space(c: char) -> bool {
    c == ' ' || c == '\t' || c == '\n' || c == '\r'
}

/// `s` without leading whitespace.
pub open spec fn trim_front(s: Seq<char>) -> Seq<char>
    decreases s.len(),
{
    if s.len() > 0 && is_space(s[0]) {
        trim_front(s.drop_first())
    } else {
        s
    }
}

/// `s` without trailing whitespace.
pub open spec fn trim_back(s: Seq<char>) -> Seq<char>
    decreases s.len(),
{
    if s.len() > 0 && is_space(s.last()) {
        trim_back(s.drop_last())
    } else {
        s
    }
}

/// `s` without leading and trailing whitespace.
pub open spec fn spec_trim(s: Seq<char>) -> Seq<char> {
    trim_back(trim_front(s))
}

/// Index of the first whitespace character (the length if there is none).
pub open spec fn first_space_at(s: Seq<char>, i: int) -> int
    decreases s.len() - i,
{
    if i < 0 || i >= s.len() {
        s.len() as int
    } else if is_space(s[i]) {
        i
    } else {
        first_space_at(s, i + 1)
    }
}

/// The first whitespace-delimited token of `s`.
pub open spec fn first_token(s: Seq<char>) -> Seq<char> {
    s.take(first_space_at(s, 0))
}

/// What follows the first whitespace character (empty if there is none).
pub open spec fn after_first_space(s: Seq<char>) -> Seq<char> {
    if first_space_at(s, 0) == s.len() {
        Seq::empty()
    } else {
        s.skip(first_space_at(s, 0) + 1)
    }
}

proof fn lemma_trim_front_skip(s: Seq<char>, i: int)
    requires
        0 <= i <= s.len(),
        forall|k: int| 0 <= k < i ==> is_space(#[trigger] s[k]),
        i < s.len() ==> !is_space(s[i]),
    ensures
        trim_front(s) == s.skip(i),
    decreases i,
{
    if i == 0 {
        assert(s.skip(0) =~= s);
    } else {
        lemma_trim_front_skip(s.drop_first(), i - 1);
        assert(s.drop_first().skip(i - 1) =~= s.skip(i));
    }
}

proof fn lemma_trim_back_take(s: Seq<char>, j: int)
    requires
        0 <= j <= s.len(),
        forall|k: int| j <= k < s.len() ==> is_space(#[trigger] s[k]),
        j > 0 ==> !is_space(s[j - 1]),
    ensures
        trim_back(s) == s.take(j),
    decreases s.len() - j,
{
    if j == s.len() {
        assert(s.take(j) =~= s);
    } else {
        lemma_trim_back_take(s.drop_last(), j);
        assert(s.drop_last().take(j) =~= s.take(j));
    }
}

proof fn lemma_first_space_from(s: Seq<char>, i: int, idx: int)
    requires
        0 <= i <= idx <= s.len(),
        forall|k: int| i <= k < idx ==> !is_space(#[trigger] s[k]),
        idx < s.len() ==> is_space(s[idx]),
    ensures
        first_space_at(s, i) == idx,
    decreases idx - i,
{
    if i < idx {
        lemma_first_space_from(s, i + 1, idx);
    }
}

/// The characters of `s`, as a vector.
pub fn chars_of(s: &str) -> (v: Vec<char>)
    ensures
        v@ == s@,
{
    let n: usize = s.unicode_len();
    let mut v: Vec<char> = Vec::new();
    let mut i: usize = 0;
    while i < n
        invariant
            n == s@.len(),
            0 <= i <= n,
            v@ == s@.take(i as int),
        decreases n - i,
    {
        let c: char = s.get_char(i);
        v.push(c);
        proof {
            assert(v@ =~= s@.take(i + 1));
        }
        i = i + 1;
    }
    proof {
        assert(s@.take(n as int) =~= s@);
    }
    v
}

/// Whether two string slices hold the same characters.
pub fn str_eq(a: &str, b: &str) -> (r: bool)
    ensures
        r == (a@ == b@),
{
    let na: usize = a.unicode_len();
    let nb: usize = b.unicode_len();
    if na != nb {
        return false;
    }
    let mut i: usize = 0;
    while i < na
        invariant
            na == a@.len(),
            na == b@.len(),
            0 <= i <= na,
            forall|k: int| 0 <= k < i ==> a@[k] == b@[k],
        decreases na - i,
    {
        if a.get_char(i) != b.get_char(i) {
            return false;
        }
        i = i + 1;
    }
    proof {
        assert(a@ =~= b@);
    }
    true
}

/// `s` without leading and trailing ASCII whitespace.
pub fn trim_str(s: &str) -> (r: String)
    ensures
        r@ == spec_trim(s@),
{
    let n: usize = s.unicode_len();
    let mut i: usize = 0;
    while i < n && is_space_char(s.get_char(i))
        invariant
            n == s@.len(),
            0 <= i <= n,
            forall|k: int| 0 <= k < i ==> is_space(#[trigger] s@[k]),
        decreases n - i,
    {
        i = i + 1;
    }
    proof {
        lemma_trim_front_skip(s@, i as int);
    }
    if i == n {
        proof {
            assert(trim_back(Seq::<char>::empty()) =~= Seq::<char>::empty());
            assert(s@.skip(n as int) =~= Seq::<char>::empty());
        }
        return String::new();
    }
    let mut j: usize = n;
    while j > i && is_space_char(s.get_char(j - 1))
        invariant
            n == s@.len(),
            0 <= i <= j <= n,
            i < n,
            !is_space(s@[i as int]),
            forall|k: int| j <= k < n ==> is_space(#[trigger] s@[k]),
        decreases j,
    {
        j = j - 1;
    }
    proof {
        let t = s@.skip(i as int);
        assert(forall|k: int|
            j - i <= k < t.len() ==> is_space(#[trigger] t[k]) && t[k] == s@[k + i]);
        assert(t[j - i - 1] == s@[j - 1]);
        lemma_trim_back_take(t, j - i);
        assert(t.take(j - i) =~= s@.subrange(i as int, j as int));
    }
    let sub: &str = s.substring_char(i, j);
    sub.to_owned()
}

/// Executable form of `is_space`.
pub fn is_space_char(c: char) -> (r: bool)
    ensures
        r == is_space(c),
{
    c == ' ' || c == '\t' || c == '\n' || c == '\r'
}

/// Split `s` at its first whitespace character: the leading token, and what
/// follows the whitespace (`None` if there is none).
pub fn split_first_token(s: &str) -> (r: (String, Option<String>))
    ensures
        r.0@ == first_token(s@),
        match r.1 {
            Some(rest) => first_space_at(s@, 0) < s@.len() && rest@ == after_first_space(s@),
            None => first_space_at(s@, 0) == s@.len(),
        },
{
    let n: usize = s.unicode_len();
    let mut i: usize = 0;
    while i < n && !is_space_char(s.get_char(i))
        invariant
            n == s@.len(),
            0 <= i <= n,
            forall|k: int| 0 <= k < i ==> !is_space(#[trigger] s@[k]),
        decreases n - i,
    {
        i = i + 1;
    }
    proof {
        lemma_first_space_from(s@, 0, i as int);
        assert(s@.subrange(0, i as int) =~= s@.take(i as int));
    }
    let token: String = s.substring_char(0, i).to_owned();
    if i == n {
        (token, None)
    } else {
        proof {
            assert(s@.subrange(i + 1, n as int) =~= s@.skip(i + 1));
        }
        let rest: String = s.substring_char(i + 1, n).to_owned();
        (token, Some(rest))
    }
}

/// The views of a vector of strings.
pub open spec fn views(ls: Seq<String>) -> Seq<Seq<char>> {
    ls.map_values(|l: String| l@)
}

/// The members of `ls` joined with single newlines.
pub open spec fn join_nl(ls: Seq<Seq<char>>) -> Seq<char>
    decreases ls.len(),
{
    if ls.len() == 0 {
        Seq::empty()
    } else if ls.len() == 1 {
        ls[0]
    } else {
        ls[0] + seq!['\n'] + join_nl(ls.drop_first())
    }
}

pub proof fn lemma_join_push(ls: Seq<Seq<char>>, x: Seq<char>)
    ensures
        ls.len() == 0 ==> join_nl(ls.push(x)) == x,
        ls.len() > 0 ==> join_nl(ls.push(x)) == join_nl(ls) + seq!['\n'] + x,
    decreases ls.len(),
{
    if ls.len() == 0 {
        assert(ls.push(x)[0] =~= x);
    } else if ls.len() == 1 {
        assert(ls.push(x).drop_first() =~~= ls.drop_first().push(x));
        assert(ls.drop_first().push(x)[0] == x);
        assert(join_nl(ls.push(x).drop_first()) == x);
        assert(join_nl(ls.push(x)) =~= ls[0] + seq!['\n'] + x);
    } else {
        lemma_join_push(ls.drop_first(), x);
        assert(ls.push(x).drop_first() =~~= ls.drop_first().push(x));
        assert((ls[0] + seq!['\n']) + (join_nl(ls.drop_first()) + seq!['\n'] + x) =~= (ls[0]
            + seq!['\n'] + join_nl(ls.drop_first())) + seq!['\n'] + x);
    }
}

/// Split `s` into its newline-separated lines: the unique newline-free
/// decomposition whose members, joined with newlines, give back `s`.
pub fn split_lines(s: &str) -> (lines: Vec<String>)
    ensures
        lines@.len() >= 1,
        join_nl(views(lines@)) == s@,
        forall|li: int, k: int|
            0 <= li < lines@.len() && 0 <= k < lines@[li]@.len() ==> #[trigger] lines@[li]@[k]
                != '\n',
{
    let n: usize = s.unicode_len();
    let mut lines: Vec<String> = Vec::new();
    let mut start: usize = 0;
    let mut i: usize = 0;
    while i < n
        invariant
            n == s@.len(),
            0 <= start <= i <= n,
            join_nl(views(lines@).push(s@.subrange(start as int, i as int))) == s@.take(i as int),
            forall|k: int| start <= k < i ==> #[trigger] s@[k] != '\n',
            forall|li: int, k: int|
                0 <= li < lines@.len() && 0 <= k < lines@[li]@.len() ==> #[trigger] lines@[li]@[k]
                    != '\n',
        decreases n - i,
    {
        let c: char = s.get_char(i);
        if c == '\n' {
            proof {
                assert(s@.subrange(0, i as int) =~= s@.take(i as int));
            }
            let line: String = s.substring_char(start, i).to_owned();
            let ghost old_views = views(lines@);
            let ghost cur = s@.subrange(start as int, i as int);
            lines.push(line);
            proof {
                assert(views(lines@) =~~= old_views.push(cur));
                lemma_join_push(old_views, cur);
                lemma_join_push(views(lines@), s@.subrange(i + 1, i + 1));
                assert(s@.subrange(i + 1, i + 1) =~= Seq::<char>::empty());
                if old_views.len() == 0 {
                    assert(join_nl(views(lines@).push(s@.subrange(i + 1, i + 1))) =~= s@.take(
                        i + 1,
                    ));
                } else {
                    assert(join_nl(views(lines@).push(s@.subrange(i + 1, i + 1))) =~= s@.take(
                        i + 1,
                    ));
                }
            }
            start = i + 1;
        } else {
            proof {
                let pre = s@.subrange(start as int, i as int);
                let post = s@.subrange(start as int, i + 1);
                assert(post =~= pre.push(s@[i as int]));
                lemma_join_push(views(lines@), pre);
                lemma_join_push(views(lines@), post);
                assert(s@.take(i + 1) =~= s@.take(i as int).push(s@[i as int]));
                if views(lines@).len() == 0 {
                    assert(join_nl(views(lines@).push(pre)) == pre);
                    assert(join_nl(views(lines@).push(post)) == post);
                    assert(join_nl(views(lines@).push(post)) =~= s@.take(i + 1));
                } else {
                    assert(join_nl(views(lines@).push(pre)) == join_nl(views(lines@)) + seq![
                        '\n',
                    ] + pre);
                    assert(join_nl(views(lines@).push(post)) == join_nl(views(lines@)) + seq![
                        '\n',
                    ] + post);
                    assert(join_nl(views(lines@)) + seq!['\n'] + post =~= (join_nl(
                        views(lines@),
                    ) + seq!['\n'] + pre).push(s@[i as int]));
                    assert(join_nl(views(lines@).push(post)) =~= s@.take(i + 1));
                }
            }
        }
        i = i + 1;
    }
    proof {
        assert(s@.subrange(0, n as int) =~= s@.take(n as int));
    }
    let line: String = s.substring_char(start, n).to_owned();
    let ghost old_views = views(lines@);
    let ghost cur = s@.subrange(start as int, n as int);
    lines.push(line);
    proof {
        assert(views(lines@) =~~= old_views.push(cur));
        assert(s@.take(n as int) =~= s@);
    }
    lines
}

/// Whether `needle` occurs contiguously inside `hay`.
pub open spec fn contains_sub(hay: Seq<char>, needle: Seq<char>) -> bool {
    exists|k: int|
        0 <= k <= hay.len() - needle.len() && #[trigger] hay.subrange(k, k + needle.len())
            == needle
}

/// Substring search by direct comparison at every offset.
pub fn contains_chars(hay: &Vec<char>, needle: &Vec<char>) -> (r: bool)
    ensures
        r == contains_sub(hay@, needle@),
{
    let nh: usize = hay.len();
    let nn: usize = needle.len();
    if nn > nh {
        proof {
            assert(!contains_sub(hay@, needle@));
        }
        return false;
    }
    let mut k: usize = 0;
    while k <= nh - nn
        invariant
            nh == hay@.len(),
            nn == needle@.len(),
            nn <= nh,
            0 <= k <= nh - nn + 1,
            forall|k2: int|
                0 <= k2 < k ==> #[trigger] hay@.subrange(k2, k2 + needle@.len()) != needle@,
        decreases nh - nn + 1 - k,
    {
        let mut m: usize = 0;
        let mut all_eq: bool = true;
        while m < nn
            invariant
                nh == hay@.len(),
                nn == needle@.len(),
                0 <= k <= nh - nn,
                0 <= m <= nn,
                all_eq == (forall|m2: int|
                    0 <= m2 < m ==> hay@[k + m2] == needle@[m2]),
            decreases nn - m,
        {
            if hay[k + m] != needle[m] {
                all_eq = false;
                m = nn;
            } else {
                proof {
                    assert(all_eq == (forall|m2: int|
                        0 <= m2 < m + 1 ==> hay@[k + m2] == needle@[m2]));
                }
                m = m + 1;
            }
        }
        if all_eq {
            proof {
                assert(hay@.subrange(k as int, k + needle@.len()) =~= needle@);
            }
            return true;
        }
        proof {
            assert(hay@.subrange(k as int, k + needle@.len()) != needle@);
        }
        k = k + 1;
    }
    false
}

/// The least offset at or past `k` where `needle` occurs in `hay`
/// (`hay.len() + 1` if there is none).
pub open spec fn sub_match_from(hay: Seq<char>, needle: Seq<char>, k: int) -> int
    decreases hay.len() + 1 - k,
{
    if k < 0 || k > hay.len() - needle.len() {
        hay.len() as int + 1
    } else if hay.subrange(k, k + needle.len()) == needle {
        k
    } else {
        sub_match_from(hay, needle, k + 1)
    }
}

proof fn lemma_sub_match_from(hay: Seq<char>, needle: Seq<char>, k: int, idx: int)
    requires
        0 <= k <= idx,
        idx + needle.len() <= hay.len(),
        hay.subrange(idx, idx + needle.len()) == needle,
        forall|j: int|
            k <= j < idx ==> #[trigger] hay.subrange(j, j + needle.len()) != needle,
    ensures
        sub_match_from(hay, needle, k) == idx,
    decreases idx - k,
{
    if k < idx {
        lemma_sub_match_from(hay, needle, k + 1, idx);
    }
}

/// Find the first occurrence of `needle` in `hay`.
pub fn find_chars(hay: &Vec<char>, needle: &Vec<char>) -> (r: Option<usize>)
    ensures
        match r {
            Some(k) => k == sub_match_from(hay@, needle@, 0) && k + needle@.len() <= hay@.len()
                && hay@.subrange(k as int, k + needle@.len()) == needle@,
            None => !contains_sub(hay@, needle@),
        },
{
    let nh: usize = hay.len();
    let nn: usize = needle.len();
    if nn > nh {
        proof {
            assert(!contains_sub(hay@, needle@));
        }
        return None;
    }
    let mut k: usize = 0;
    while k <= nh - nn
        invariant
            nh == hay@.len(),
            nn == needle@.len(),
            nn <= nh,
            0 <= k <= nh - nn + 1,
            forall|k2: int|
                0 <= k2 < k ==> #[trigger] hay@.subrange(k2, k2 + needle@.len()) != needle@,
        decreases nh - nn + 1 - k,
    {
        let mut m: usize = 0;
        let mut all_eq: bool = true;
        while m < nn
            invariant
                nh == hay@.len(),
                nn == needle@.len(),
                0 <= k <= nh - nn,
                0 <= m <= nn,
                all_eq == (forall|m2: int|
                    0 <= m2 < m ==> hay@[k + m2] == needle@[m2]),
            decreases nn - m,
        {
            if hay[k + m] != needle[m] {
                all_eq = false;
                m = nn;
            } else {
                proof {
                    assert(all_eq == (forall|m2: int|
                        0 <= m2 < m + 1 ==> hay@[k + m2] == needle@[m2]));
                }
                m = m + 1;
            }
        }
        if all_eq {
            proof {
                assert(hay@.subrange(k as int, k + needle@.len()) =~= needle@);
                lemma_sub_match_from(hay@, needle@, 0, k as int);
            }
            return Some(k);
        }
        proof {
            assert(hay@.subrange(k as int, k + needle@.len()) != needle@);
        }
        k = k + 1;
    }
    None
}

/// Name for what `str::to_lowercase` returns: a pure function of the
/// characters alone.
pub uninterp spec fn lower_of(s: Seq<char>) -> Seq<char>;

/// Relies on `str::to_lowercase`: the lowercased form depends on the
/// characters alone.
#[verifier::external_body]
pub fn to_lower(s: &str) -> (r: String)
    ensures
        r@ == lower_of(s@),
{
    s.to_lowercase()
}

/// Whether `c` is a decimal digit.
pub open spec fn is_digit(c: char) -> bool {
    '0' <= c <= '9'
}

/// The numeric value of a digit sequence (most significant first).
pub open spec fn digits_value(s: Seq<char>) -> int
    decreases s.len(),
{
    if s.len() == 0 {
        0
    } else {
        digits_value(s.drop_last()) * 10 + (s.last() as int - '0' as int)
    }
}

/// Whether `s` is a well-formed unsigned decimal numeral that fits a
/// 64-bit word.
pub open spec fn is_u64_numeral(s: Seq<char>) -> bool {
    &&& s.len() > 0
    &&& forall|k: int| 0 <= k < s.len() ==> is_digit(#[trigger] s[k])
    &&& digits_value(s) <= u64::MAX
}

/// Parse an unsigned decimal numeral; `None` on anything else (an empty
/// string, a stray character, or overflow), exactly as the standard parser
/// would refuse it.
pub fn parse_u64(s: &str) -> (r: Option<u64>)
    ensures
        match r {
            Some(v) => is_u64_numeral(s@) && v == digits_value(s@),
            None => !is_u64_numeral(s@),
        },
{
    let n: usize = s.unicode_len();
    if n == 0 {
        return None;
    }
    let mut v: u64 = 0;
    let mut i: usize = 0;
    while i < n
        invariant
            n == s@.len(),
            0 <= i <= n,
            forall|k: int| 0 <= k < i ==> is_digit(#[trigger] s@[k]),
            v == digits_value(s@.take(i as int)),
        decreases n - i,
    {
        let c: char = s.get_char(i);
        if c < '0' || c > '9' {
            return None;
        }
        let d: u32 = (c as u32) - ('0' as u32);
        proof {
            assert(s@.take(i + 1).drop_last() =~= s@.take(i as int));
            assert(s@.take(i + 1).last() == s@[i as int]);
        }
        if v > (u64::MAX - (d as u64)) / 10 {
            proof {
                vstd::arithmetic::div_mod::lemma_fundamental_div_mod(
                    (u64::MAX - (d as u64)) as int,
                    10,
                );
                assert(v * 10 + d > u64::MAX) by (nonlinear_arith)
                    requires
                        v > (u64::MAX as int - d) / 10,
                        (u64::MAX as int - d) == 10 * (((u64::MAX as int - d)) / 10) + ((
                        u64::MAX as int - d) % 10),
                        0 <= ((u64::MAX as int - d) % 10) < 10,
                        0 <= d <= 9,
                ;
                if forall|k: int| 0 <= k < s@.len() ==> is_digit(#[trigger] s@[k]) {
                    lemma_digits_prefix_bound(s@, i + 1);
                    assert(digits_value(s@) > u64::MAX);
                }
            }
            return None;
        }
        v = v * 10 + (d as u64);
        i = i + 1;
    }
    proof {
        assert(s@.take(n as int) =~= s@);
    }
    Some(v)
}

/// A digit string's value is never negative.
proof fn lemma_digits_value_nonneg(s: Seq<char>)
    requires
        forall|k: int| 0 <= k < s.len() ==> is_digit(#[trigger] s[k]),
    ensures
        digits_value(s) >= 0,
    decreases s.len(),
{
    if s.len() > 0 {
        assert(forall|k: int|
            0 <= k < s.drop_last().len() ==> is_digit(#[trigger] s.drop_last()[k]));
        lemma_digits_value_nonneg(s.drop_last());
        assert(digits_value(s.drop_last()) * 10 >= 0) by (nonlinear_arith)
            requires
                digits_value(s.drop_last()) >= 0,
        ;
    }
}

/// A digit string's value is at least the value of any of its prefixes.
proof fn lemma_digits_prefix_bound(s: Seq<char>, j: int)
    requires
        0 <= j <= s.len(),
        forall|k: int| 0 <= k < s.len() ==> is_digit(#[trigger] s[k]),
    ensures
        digits_value(s.take(j)) <= digits_value(s),
    decreases s.len() - j,
{
    if j < s.len() {
        assert(s.take(j + 1).drop_last() =~= s.take(j));
        assert(forall|k: int|
            0 <= k < s.take(j).len() ==> is_digit(#[trigger] s.take(j)[k]));
        lemma_digits_value_nonneg(s.take(j));
        assert(digits_value(s.take(j + 1)) >= digits_value(s.take(j))) by (nonlinear_arith)
            requires
                digits_value(s.take(j + 1)) == digits_value(s.take(j)) * 10 + (s[j] as int
                    - '0' as int),
                digits_value(s.take(j)) >= 0,
                is_digit(s[j]),
        ;
        lemma_digits_prefix_bound(s, j + 1);
        assert(s.take(s.len() as int) =~= s);
    } else {
        assert(s.take(j) =~= s);
    }
}

/// Whether `s` is a well-formed signed decimal numeral that fits a 64-bit
/// signed word.
pub open spec fn is_i64_numeral(s: Seq<char>) -> bool {
    if s.len() > 0 && s[0] == '-' {
        is_u64_numeral(s.skip(1)) && digits_value(s.skip(1)) <= 0x8000000000000000
    } else {
        is_u64_numeral(s) && digits_value(s) <= 0x7fffffffffffffff
    }
}

/// Parse a signed decimal numeral (an optional leading minus sign).
pub fn parse_i64(s: &str) -> (r: Option<i64>)
    ensures
        match r {
            Some(v) => {
                &&& is_i64_numeral(s@)
                &&& (if s@.len() > 0 && s@[0] == '-' {
                    v == -digits_value(s@.skip(1))
                } else {
                    v == digits_value(s@)
                })
            },
            None => !is_i64_numeral(s@),
        },
{
    let n: usize = s.unicode_len();
    if n > 0 && s.get_char(0) == '-' {
        proof {
            assert(s@.subrange(1, n as int) =~= s@.skip(1));
        }
        let digits: &str = s.substring_char(1, n);
        match parse_u64(digits) {
            Some(v) => {
                if v <= 0x8000000000000000u64 {
                    Some((-(v as i128)) as i64)
                } else {
                    None
                }
            },
            None => None,
        }
    } else {
        match parse_u64(s) {
            Some(v) => {
                if v <= 0x7fffffffffffffffu64 {
                    Some(v as i64)
                } else {
                    None
                }
            },
            None => None,
        }
    }
}

/// Whether `s` starts with `prefix`.
pub fn starts_with_str(s: &str, prefix: &str) -> (r: bool)
    ensures
        r == (s@.len() >= prefix@.len() && s@.take(prefix@.len() as int) == prefix@),
{
    let n: usize = s.unicode_len();
    let pn: usize = prefix.unicode_len();
    if pn > n {
        return false;
    }
    let head: &str = s.substring_char(0, pn);
    proof {
        assert(s@.subrange(0, pn as int) =~= s@.take(pn as int));
    }
    str_eq(head, prefix)
}

/// Whether `s` ends with `suffix`.
pub fn ends_with_str(s: &str, suffix: &str) -> (r: bool)
    ensures
        r == (s@.len() >= suffix@.len() && s@.skip(s@.len() - suffix@.len()) == suffix@),
{
    let n: usize = s.unicode_len();
    let sn: usize = suffix.unicode_len();
    if sn > n {
        return false;
    }
    let tail: &str = s.substring_char(n - sn, n);
    proof {
        assert(s@.subrange(n - sn, n as int) =~= s@.skip(n - sn));
    }
    str_eq(tail, suffix)
}

} // verus!
