//! Character-sequence utilities shared by the version comparator and the
//! banner parser: decimal parsing and formatting, searching, splitting, and
//! case-insensitive matching.

use vstd::prelude::*;

verus! {

/// A decimal digit in the ASCII range.
pub open spec fn is_digit_char(c: char) -> bool {
    48 <= (c as u32) && (c as u32) <= 57
}

/// Numeric value of a decimal digit character.
pub open spec fn digit_val(c: char) -> nat {
    ((c as u32) - 48) as nat
}

/// Every character of `s` is a decimal digit.
pub open spec fn all_digits(s: Seq<char>) -> bool {
    forall|i: int| 0 <= i < s.len() ==> is_digit_char(#[trigger] s[i])
}

/// Value of a digit string read in base ten.
pub open spec fn digits_value(s: Seq<char>) -> nat
    decreases s.len(),
{
    if s.len() == 0 {
        0
    } else {
        digits_value(s.drop_last()) * 10 + digit_val(s.last())
    }
}

/// The digit portion of a decimal numeral: a single leading `+` sign is
/// accepted and skipped, as `str::parse::<u32>` does.
pub open spec fn numeral_digits(s: Seq<char>) -> Seq<char> {
    if s.len() > 0 && s[0] == '+' {
        s.skip(1)
    } else {
        s
    }
}

/// What `str::parse::<u32>` accepts: an optional `+` sign followed by at
/// least one digit, with a value that fits in `u32`.
pub open spec fn parse_u32_spec(s: Seq<char>) -> Option<u32> {
    let d = numeral_digits(s);
    if d.len() > 0 && all_digits(d) && digits_value(d) <= u32::MAX {
        Some(digits_value(d) as u32)
    } else {
        None
    }
}

/// Extending a digit string on the right never decreases its value.
proof fn lemma_digits_value_prefix_le(s: Seq<char>, i: int)
    requires
        0 <= i <= s.len(),
    ensures
        digits_value(s.take(i)) <= digits_value(s),
    decreases s.len() - i,
{
    if i < s.len() {
        assert(s.take(i + 1).drop_last() =~= s.take(i));
        assert(digits_value(s.take(i + 1)) == digits_value(s.take(i)) * 10 + digit_val(
            s.take(i + 1).last(),
        ));
        lemma_digits_value_prefix_le(s, i + 1);
    } else {
        assert(s.take(i) =~= s);
    }
}

/// Parse a decimal numeral, as `str::parse::<u32>` would.
pub fn parse_u32(s: &str) -> (r: Option<u32>)
    ensures
        r == parse_u32_spec(s@),
{
    let n: usize = s.unicode_len();
    let start: usize = if n > 0 && s.get_char(0) == '+' {
        1
    } else {
        0
    };
    let ghost d = numeral_digits(s@);
    assert(d =~= s@.skip(start as int));
    if start == n {
        return None;
    }
    let mut acc: u32 = 0;
    let mut i: usize = start;
    while i < n
        invariant
            start <= i <= n,
            n == s@.len(),
            d == s@.skip(start as int),
            d == numeral_digits(s@),
            all_digits(d.take(i - start)),
            acc == digits_value(d.take(i - start)),
        decreases n - i,
    {
        let c = s.get_char(i);
        let cv = c as u32;
        assert(d[i - start] == s@[i as int]);
        if cv < 48 || cv > 57 {
            assert(!is_digit_char(d[i - start]));
            assert(!all_digits(d));
            return None;
        }
        let dv: u32 = cv - 48;
        assert(d.take(i - start + 1).drop_last() =~= d.take(i - start));
        assert(d.take(i - start + 1).last() == d[i - start]);
        assert(digit_val(d[i - start]) == dv);
        assert(digits_value(d.take(i - start + 1)) == acc * 10 + dv);
        if acc > (u32::MAX - dv) / 10 {
            proof {
                assert(acc * 10 + dv > u32::MAX) by (nonlinear_arith)
                    requires
                        acc > (u32::MAX - dv) / 10,
                        dv <= 9,
                ;
                lemma_digits_value_prefix_le(d, i - start + 1);
            }
            return None;
        }
        assert(acc * 10 + dv <= u32::MAX) by (nonlinear_arith)
            requires
                acc <= (u32::MAX - dv) / 10,
                dv <= 9,
        ;
        acc = acc * 10 + dv;
        i = i + 1;
    }
    assert(d.take(i - start) =~= d);
    Some(acc)
}

/// Index of the first occurrence of `c` in `s`, if any.
pub open spec fn find_char(s: Seq<char>, c: char) -> Option<int>
    decreases s.len(),
{
    if s.len() == 0 {
        None
    } else if s[0] == c {
        Some(0)
    } else {
        match find_char(s.skip(1), c) {
            Some(i) => Some(i + 1),
            None => None,
        }
    }
}

/// `find_char` returns the least index holding `c`, or `None` when `c` does
/// not occur.
pub proof fn lemma_find_char_props(s: Seq<char>, c: char)
    ensures
        match find_char(s, c) {
            Some(i) => 0 <= i < s.len() && s[i] == c && forall|j: int|
                0 <= j < i ==> #[trigger] s[j] != c,
            None => forall|j: int| 0 <= j < s.len() ==> #[trigger] s[j] != c,
        },
    decreases s.len(),
{
    if s.len() != 0 && s[0] != c {
        lemma_find_char_props(s.skip(1), c);
        match find_char(s.skip(1), c) {
            Some(i) => {
                assert(s.skip(1)[i] == s[i + 1]);
                assert forall|j: int| 0 <= j < i + 1 implies #[trigger] s[j] != c by {
                    if j > 0 {
                        assert(s.skip(1)[j - 1] != c);
                        assert(s.skip(1)[j - 1] == s[j]);
                    }
                }
            },
            None => {
                assert forall|j: int| 0 <= j < s.len() implies #[trigger] s[j] != c by {
                    if j > 0 {
                        assert(s.skip(1)[j - 1] != c);
                        assert(s.skip(1)[j - 1] == s[j]);
                    }
                }
            },
        }
    }
}

/// A witness at position `i` with a clean prefix pins `find_char` down.
pub proof fn lemma_find_char_first(s: Seq<char>, c: char, i: int)
    requires
        0 <= i < s.len(),
        s[i] == c,
        forall|j: int| 0 <= j < i ==> #[trigger] s[j] != c,
    ensures
        find_char(s, c) == Some(i),
    decreases i,
{
    if i > 0 {
        assert(forall|j: int| 0 <= j < s.len() - 1 ==> #[trigger] s.skip(1)[j] == s[j + 1]);
        lemma_find_char_first(s.skip(1), c, i - 1);
    }
}

/// Without any occurrence of `c`, `find_char` returns `None`.
pub proof fn lemma_find_char_none(s: Seq<char>, c: char)
    requires
        forall|j: int| 0 <= j < s.len() ==> #[trigger] s[j] != c,
    ensures
        find_char(s, c) is None,
    decreases s.len(),
{
    if s.len() > 0 {
        assert(forall|j: int| 0 <= j < s.len() - 1 ==> #[trigger] s.skip(1)[j] == s[j + 1]);
        lemma_find_char_none(s.skip(1), c);
    }
}

/// Find the first occurrence of `c` in `s`.
pub fn find_char_in(s: &str, c: char) -> (r: Option<usize>)
    ensures
        match r {
            Some(i) => find_char(s@, c) == Some(i as int),
            None => find_char(s@, c) is None,
        },
{
    let n: usize = s.unicode_len();
    let mut i: usize = 0;
    while i < n
        invariant
            0 <= i <= n,
            n == s@.len(),
            forall|j: int| 0 <= j < i ==> #[trigger] s@[j] != c,
        decreases n - i,
    {
        if s.get_char(i) == c {
            proof {
                lemma_find_char_first(s@, c, i as int);
            }
            return Some(i);
        }
        i = i + 1;
    }
    proof {
        lemma_find_char_none(s@, c);
    }
    None
}

/// How `str::split` cuts a string at a separator character: the sequence of
/// the separated pieces, in order. An empty input yields one empty piece.
pub open spec fn split_char(s: Seq<char>, c: char) -> Seq<Seq<char>>
    decreases s.len(),
{
    if s.len() == 0 {
        seq![Seq::<char>::empty()]
    } else if s[0] == c {
        seq![Seq::<char>::empty()] + split_char(s.skip(1), c)
    } else {
        let rest = split_char(s.skip(1), c);
        seq![seq![s[0]] + rest[0]] + rest.skip(1)
    }
}

/// A split always yields at least one piece.
pub proof fn lemma_split_char_len(s: Seq<char>, c: char)
    ensures
        split_char(s, c).len() >= 1,
    decreases s.len(),
{
    if s.len() != 0 {
        lemma_split_char_len(s.skip(1), c);
    }
}

/// A string without the separator is one single piece.
pub proof fn lemma_split_char_whole(s: Seq<char>, c: char)
    requires
        forall|j: int| 0 <= j < s.len() ==> #[trigger] s[j] != c,
    ensures
        split_char(s, c) == seq![s],
    decreases s.len(),
{
    if s.len() == 0 {
        assert(split_char(s, c) =~~= seq![s]);
    } else {
        assert forall|j: int| 0 <= j < s.skip(1).len() implies #[trigger] s.skip(1)[j] != c by {
            assert(s.skip(1)[j] == s[j + 1]);
        }
        lemma_split_char_whole(s.skip(1), c);
        let rest = split_char(s.skip(1), c);
        assert(rest == seq![s.skip(1)]);
        assert(rest[0] == s.skip(1));
        assert(rest.skip(1) =~= Seq::<Seq<char>>::empty());
        assert(seq![s[0]] + rest[0] =~= s);
        assert(split_char(s, c) == seq![seq![s[0]] + rest[0]] + rest.skip(1));
        assert(split_char(s, c) =~~= seq![s]);
    }
}

/// Splitting `a + [c] + b` where `a` is separator-free cuts off `a` first.
pub proof fn lemma_split_char_step(a: Seq<char>, b: Seq<char>, c: char)
    requires
        forall|j: int| 0 <= j < a.len() ==> #[trigger] a[j] != c,
    ensures
        split_char(a + seq![c] + b, c) == seq![a] + split_char(b, c),
    decreases a.len(),
{
    let s = a + seq![c] + b;
    if a.len() == 0 {
        assert(s[0] == c);
        assert(s.skip(1) =~= b);
        assert(split_char(s, c) =~~= seq![a] + split_char(b, c));
    } else {
        assert(s[0] == a[0]);
        assert(s[0] != c);
        assert forall|j: int| 0 <= j < a.skip(1).len() implies #[trigger] a.skip(1)[j] != c by {
            assert(a.skip(1)[j] == a[j + 1]);
        }
        lemma_split_char_step(a.skip(1), b, c);
        assert(s.skip(1) =~= a.skip(1) + seq![c] + b);
        let rest = split_char(s.skip(1), c);
        assert(rest == seq![a.skip(1)] + split_char(b, c));
        assert(rest[0] == a.skip(1));
        assert(seq![s[0]] + rest[0] =~= a);
        assert(rest.skip(1) =~= split_char(b, c));
        assert(split_char(s, c) == seq![seq![s[0]] + rest[0]] + rest.skip(1));
        assert(split_char(s, c) =~~= seq![a] + split_char(b, c));
    }
}

/// Split a string at every occurrence of a separator character, as
/// `str::split` does.
pub fn split_char_exec(s: &str, c: char) -> (parts: Vec<String>)
    ensures
        parts@.len() == split_char(s@, c).len(),
        forall|i: int| 0 <= i < parts@.len() ==> #[trigger] parts@[i]@ == split_char(s@, c)[i],
{
    let n: usize = s.unicode_len();
    let mut parts: Vec<String> = Vec::new();
    let mut start: usize = 0;
    let mut i: usize = 0;
    proof {
        assert(s@.skip(0) =~= s@);
    }
    while i < n
        invariant
            0 <= start <= i <= n,
            n == s@.len(),
            forall|j: int| start <= j < i ==> #[trigger] s@[j] != c,
            split_char(s@, c).len() == parts@.len() + split_char(s@.skip(start as int), c).len(),
            forall|k: int| 0 <= k < parts@.len() ==> #[trigger] parts@[k]@ == split_char(s@, c)[k],
            forall|k: int|
                0 <= k < split_char(s@.skip(start as int), c).len() ==> #[trigger] split_char(
                    s@.skip(start as int),
                    c,
                )[k] == split_char(s@, c)[parts@.len() + k],
        decreases n - i,
    {
        if s.get_char(i) == c {
            let ghost old_parts = parts@;
            let ghost old_start = start as int;
            let piece = String::from_str(s.substring_char(start, i));
            parts.push(piece);
            start = i + 1;
            proof {
                let a = s@.subrange(old_start, i as int);
                let b = s@.skip(i + 1);
                assert forall|j: int| 0 <= j < a.len() implies #[trigger] a[j] != c by {
                    assert(a[j] == s@[old_start + j]);
                }
                lemma_split_char_step(a, b, c);
                assert(s@.skip(old_start) =~= a + seq![c] + b);
                assert(split_char(s@.skip(old_start), c) == seq![a] + split_char(b, c));
                assert(split_char(s@.skip(old_start), c)[0] == a);
                assert(split_char(s@, c)[old_parts.len() as int] == a);
                assert(piece@ == a);
                assert forall|k: int| 0 <= k < parts@.len() implies #[trigger] parts@[k]@
                    == split_char(s@, c)[k] by {
                    if k < old_parts.len() {
                        assert(parts@[k] == old_parts[k]);
                    } else {
                        assert(parts@[k] == piece);
                    }
                }
                assert forall|k: int|
                    0 <= k < split_char(s@.skip(start as int), c).len() implies #[trigger] split_char(
                    s@.skip(start as int),
                    c,
                )[k] == split_char(s@, c)[parts@.len() + k] by {
                    assert(s@.skip(start as int) == b);
                    assert(split_char(s@.skip(old_start), c)[k + 1] == split_char(b, c)[k]);
                    assert(split_char(s@.skip(old_start), c)[k + 1] == split_char(s@, c)[
                        old_parts.len() + k + 1]);
                }
            }
        }
        i = i + 1;
    }
    let ghost old_parts = parts@;
    let piece = String::from_str(s.substring_char(start, n));
    proof {
        let a = s@.subrange(start as int, n as int);
        assert(a =~= s@.skip(start as int));
        assert forall|j: int| 0 <= j < s@.skip(start as int).len() implies #[trigger] s@.skip(
            start as int,
        )[j] != c by {
            assert(s@.skip(start as int)[j] == s@[start + j]);
        }
        lemma_split_char_whole(s@.skip(start as int), c);
        assert(split_char(s@.skip(start as int), c) == seq![s@.skip(start as int)]);
        assert(split_char(s@.skip(start as int), c)[0] == s@.skip(start as int));
        assert(split_char(s@, c)[old_parts.len() as int] == s@.skip(start as int));
    }
    parts.push(piece);
    proof {
        assert(piece@ == s@.skip(start as int));
        assert forall|k: int| 0 <= k < parts@.len() implies #[trigger] parts@[k]@ == split_char(
            s@,
            c,
        )[k] by {
            if k < old_parts.len() {
                assert(parts@[k] == old_parts[k]);
            } else {
                assert(parts@[k] == piece);
            }
        }
    }
    parts
}

/// An ASCII capital letter.
pub open spec fn is_upper_char(c: char) -> bool {
    65 <= (c as u32) && (c as u32) <= 90
}

/// Two characters are equal up to ASCII case.
pub open spec fn eq_ic(a: char, b: char) -> bool {
    ||| a == b
    ||| (is_upper_char(a) && (a as u32) + 32 == (b as u32))
    ||| (is_upper_char(b) && (b as u32) + 32 == (a as u32))
}

/// Compare two characters ignoring ASCII case.
pub fn char_eq_ic(a: char, b: char) -> (r: bool)
    ensures
        r == eq_ic(a, b),
{
    let au = a as u32;
    let bu = b as u32;
    a == b || (65 <= au && au <= 90 && au + 32 == bu) || (65 <= bu && bu <= 90 && bu + 32 == au)
}

/// The needle `n` occurs in `h` at position `i`, up to ASCII case.
pub open spec fn match_at_ic(h: Seq<char>, n: Seq<char>, i: int) -> bool {
    &&& 0 <= i
    &&& i + n.len() <= h.len()
    &&& forall|j: int| 0 <= j < n.len() ==> eq_ic(h[i + j], #[trigger] n[j])
}

/// The needle `n` occurs somewhere in `h`, up to ASCII case.
pub open spec fn contains_ic(h: Seq<char>, n: Seq<char>) -> bool {
    exists|i: int| match_at_ic(h, n, i)
}

/// Check a case-insensitive match of `n` in `h` at position `i`.
fn match_at_ic_exec(h: &str, n: &str, i: usize, hn: usize, nn: usize) -> (r: bool)
    requires
        hn == h@.len(),
        nn == n@.len(),
        i + nn <= hn,
    ensures
        r == match_at_ic(h@, n@, i as int),
{
    let mut j: usize = 0;
    while j < nn
        invariant
            0 <= j <= nn,
            hn == h@.len(),
            nn == n@.len(),
            i + nn <= hn,
            forall|l: int| 0 <= l < j ==> eq_ic(h@[i + l], #[trigger] n@[l]),
        decreases nn - j,
    {
        if !char_eq_ic(h.get_char(i + j), n.get_char(j)) {
            assert(!eq_ic(h@[i + j], n@[j as int]));
            return false;
        }
        j = j + 1;
    }
    true
}

/// Case-insensitive (ASCII) substring search, as matching against a
/// lower-cased copy of `h` would do for an ASCII needle.
pub fn str_contains_ic(h: &str, n: &str) -> (r: bool)
    ensures
        r == contains_ic(h@, n@),
{
    let hn: usize = h.unicode_len();
    let nn: usize = n.unicode_len();
    if nn > hn {
        return false;
    }
    let mut i: usize = 0;
    while i <= hn - nn
        invariant
            nn <= hn,
            hn == h@.len(),
            nn == n@.len(),
            0 <= i <= hn - nn + 1,
            forall|k: int| 0 <= k < i ==> !match_at_ic(h@, n@, k),
        decreases hn - nn + 1 - i,
    {
        if match_at_ic_exec(h, n, i, hn, nn) {
            assert(match_at_ic(h@, n@, i as int));
            return true;
        }
        i = i + 1;
    }
    false
}

/// The needle `n` occurs in `h` at position `i`, exactly.
pub open spec fn match_at(h: Seq<char>, n: Seq<char>, i: int) -> bool {
    &&& 0 <= i
    &&& i + n.len() <= h.len()
    &&& forall|j: int| 0 <= j < n.len() ==> h[i + j] == #[trigger] n[j]
}

/// The needle `n` occurs somewhere in `h`, exactly.
pub open spec fn contains_seq(h: Seq<char>, n: Seq<char>) -> bool {
    exists|i: int| match_at(h, n, i)
}

/// `h` begins with `n`.
pub open spec fn starts_with(h: Seq<char>, n: Seq<char>) -> bool {
    match_at(h, n, 0)
}

/// Check an exact match of `n` in `h` at position `i`.
fn match_at_exec(h: &str, n: &str, i: usize, hn: usize, nn: usize) -> (r: bool)
    requires
        hn == h@.len(),
        nn == n@.len(),
        i + nn <= hn,
    ensures
        r == match_at(h@, n@, i as int),
{
    let mut j: usize = 0;
    while j < nn
        invariant
            0 <= j <= nn,
            hn == h@.len(),
            nn == n@.len(),
            i + nn <= hn,
            forall|l: int| 0 <= l < j ==> h@[i + l] == #[trigger] n@[l],
        decreases nn - j,
    {
        if h.get_char(i + j) != n.get_char(j) {
            assert(h@[i + j] != n@[j as int]);
            return false;
        }
        j = j + 1;
    }
    true
}

/// Exact substring search, as `str::contains` does.
pub fn str_contains(h: &str, n: &str) -> (r: bool)
    ensures
        r == contains_seq(h@, n@),
{
    let hn: usize = h.unicode_len();
    let nn: usize = n.unicode_len();
    if nn > hn {
        return false;
    }
    let mut i: usize = 0;
    while i <= hn - nn
        invariant
            nn <= hn,
            hn == h@.len(),
            nn == n@.len(),
            0 <= i <= hn - nn + 1,
            forall|k: int| 0 <= k < i ==> !match_at(h@, n@, k),
        decreases hn - nn + 1 - i,
    {
        if match_at_exec(h, n, i, hn, nn) {
            assert(match_at(h@, n@, i as int));
            return true;
        }
        i = i + 1;
    }
    false
}

/// Prefix test, as `str::starts_with` does.
pub fn str_starts_with(h: &str, n: &str) -> (r: bool)
    ensures
        r == starts_with(h@, n@),
{
    let hn: usize = h.unicode_len();
    let nn: usize = n.unicode_len();
    if nn > hn {
        return false;
    }
    match_at_exec(h, n, 0, hn, nn)
}

/// Lexicographic order on character sequences by code point, as `str`'s
/// `Ord` orders strings.
pub open spec fn str_cmp_spec(a: Seq<char>, b: Seq<char>) -> int
    decreases a.len(),
{
    if a.len() == 0 && b.len() == 0 {
        0
    } else if a.len() == 0 {
        -1
    } else if b.len() == 0 {
        1
    } else if a[0] == b[0] {
        str_cmp_spec(a.skip(1), b.skip(1))
    } else if (a[0] as u32) < (b[0] as u32) {
        -1
    } else {
        1
    }
}

/// A string compares equal to itself.
pub proof fn lemma_str_cmp_refl(a: Seq<char>)
    ensures
        str_cmp_spec(a, a) == 0,
    decreases a.len(),
{
    if a.len() != 0 {
        lemma_str_cmp_refl(a.skip(1));
    }
}

/// Swapping the arguments of `str_cmp_spec` flips the sign.
pub proof fn lemma_str_cmp_antisym(a: Seq<char>, b: Seq<char>)
    ensures
        str_cmp_spec(a, b) == -str_cmp_spec(b, a),
    decreases a.len(),
{
    if a.len() != 0 && b.len() != 0 {
        if a[0] == b[0] {
            lemma_str_cmp_antisym(a.skip(1), b.skip(1));
        } else {
            vstd::utf8::char_u32_cast(a[0], a[0] as u32);
            vstd::utf8::char_u32_cast(b[0], b[0] as u32);
            assert((a[0] as u32) != (b[0] as u32));
        }
    }
}

/// Two strings compare equal exactly when they are the same sequence.
pub proof fn lemma_str_cmp_eq(a: Seq<char>, b: Seq<char>)
    ensures
        (str_cmp_spec(a, b) == 0) <==> (a == b),
    decreases a.len(),
{
    if a == b {
        lemma_str_cmp_refl(a);
    }
    if str_cmp_spec(a, b) == 0 {
        if a.len() == 0 && b.len() == 0 {
            assert(a =~= b);
        } else {
            assert(a.len() != 0 && b.len() != 0);
            assert(a[0] == b[0]);
            lemma_str_cmp_eq(a.skip(1), b.skip(1));
            assert(a.skip(1) == b.skip(1));
            assert(a =~= seq![a[0]] + a.skip(1));
            assert(b =~= seq![b[0]] + b.skip(1));
        }
    }
}

/// The lexicographic order is transitive.
pub proof fn lemma_str_cmp_trans(a: Seq<char>, b: Seq<char>, c: Seq<char>)
    requires
        str_cmp_spec(a, b) <= 0,
        str_cmp_spec(b, c) <= 0,
    ensures
        str_cmp_spec(a, c) <= 0,
    decreases a.len() + b.len() + c.len(),
{
    if a.len() != 0 && b.len() != 0 && c.len() != 0 && a[0] == b[0] && b[0] == c[0] {
        lemma_str_cmp_trans(a.skip(1), b.skip(1), c.skip(1));
    }
}

/// Compare two strings in lexicographic code-point order: -1, 0 or 1.
pub fn str_compare(a: &str, b: &str) -> (r: i32)
    ensures
        r as int == str_cmp_spec(a@, b@),
{
    let an: usize = a.unicode_len();
    let bn: usize = b.unicode_len();
    let min: usize = if an < bn {
        an
    } else {
        bn
    };
    let mut i: usize = 0;
    proof {
        assert(a@.skip(0) =~= a@);
        assert(b@.skip(0) =~= b@);
    }
    while i < min
        invariant
            0 <= i <= min,
            an == a@.len(),
            bn == b@.len(),
            min == if an < bn {
                an
            } else {
                bn
            },
            str_cmp_spec(a@, b@) == str_cmp_spec(a@.skip(i as int), b@.skip(i as int)),
        decreases min - i,
    {
        let ca = a.get_char(i);
        let cb = b.get_char(i);
        proof {
            assert(a@.skip(i as int)[0] == a@[i as int]);
            assert(b@.skip(i as int)[0] == b@[i as int]);
        }
        if ca != cb {
            if (ca as u32) < (cb as u32) {
                return -1;
            }
            return 1;
        }
        proof {
            assert(a@.skip(i as int).skip(1) =~= a@.skip(i + 1));
            assert(b@.skip(i as int).skip(1) =~= b@.skip(i + 1));
        }
        i = i + 1;
    }
    proof {
        if an < bn {
            assert(a@.skip(i as int).len() == 0);
            assert(b@.skip(i as int).len() > 0);
        } else if an > bn {
            assert(a@.skip(i as int).len() > 0);
            assert(b@.skip(i as int).len() == 0);
        } else {
            assert(a@.skip(i as int).len() == 0);
            assert(b@.skip(i as int).len() == 0);
        }
    }
    if an < bn {
        -1
    } else if an > bn {
        1
    } else {
        0
    }
}

/// The character that prints a decimal digit.
pub open spec fn digit_char(d: nat) -> char {
    if d == 0 {
        '0'
    } else if d == 1 {
        '1'
    } else if d == 2 {
        '2'
    } else if d == 3 {
        '3'
    } else if d == 4 {
        '4'
    } else if d == 5 {
        '5'
    } else if d == 6 {
        '6'
    } else if d == 7 {
        '7'
    } else if d == 8 {
        '8'
    } else {
        '9'
    }
}

/// The decimal digits of `n`, most significant first, without sign or
/// leading zeros (`0` prints as `0`).
pub open spec fn u32_digits(n: nat) -> Seq<char>
    decreases n,
{
    if n < 10 {
        seq![digit_char(n)]
    } else {
        u32_digits(n / 10).push(digit_char(n % 10))
    }
}

/// The one-character string for a decimal digit.
fn digit_str(d: u32) -> (r: &'static str)
    requires
        d < 10,
    ensures
        r@ == seq![digit_char(d as nat)],
{
    if d == 0 {
        proof {
            reveal_strlit("0");
        }
        assert("0"@ =~= seq![digit_char(0)]);
        "0"
    } else if d == 1 {
        proof {
            reveal_strlit("1");
        }
        assert("1"@ =~= seq![digit_char(1)]);
        "1"
    } else if d == 2 {
        proof {
            reveal_strlit("2");
        }
        assert("2"@ =~= seq![digit_char(2)]);
        "2"
    } else if d == 3 {
        proof {
            reveal_strlit("3");
        }
        assert("3"@ =~= seq![digit_char(3)]);
        "3"
    } else if d == 4 {
        proof {
            reveal_strlit("4");
        }
        assert("4"@ =~= seq![digit_char(4)]);
        "4"
    } else if d == 5 {
        proof {
            reveal_strlit("5");
        }
        assert("5"@ =~= seq![digit_char(5)]);
        "5"
    } else if d == 6 {
        proof {
            reveal_strlit("6");
        }
        assert("6"@ =~= seq![digit_char(6)]);
        "6"
    } else if d == 7 {
        proof {
            reveal_strlit("7");
        }
        assert("7"@ =~= seq![digit_char(7)]);
        "7"
    } else if d == 8 {
        proof {
            reveal_strlit("8");
        }
        assert("8"@ =~= seq![digit_char(8)]);
        "8"
    } else {
        proof {
            reveal_strlit("9");
        }
        assert("9"@ =~= seq![digit_char(9)]);
        "9"
    }
}

/// Print a number in decimal, as `format!` would.
pub fn u32_to_string(n: u32) -> (r: String)
    ensures
        r@ == u32_digits(n as nat),
    decreases n,
{
    if n < 10 {
        String::from_str(digit_str(n))
    } else {
        let prefix = u32_to_string(n / 10);
        let last = digit_str(n % 10);
        let r = prefix.concat(last);
        proof {
            assert(u32_digits((n / 10) as nat) + seq![digit_char((n % 10) as nat)] =~= u32_digits(
                (n / 10) as nat,
            ).push(digit_char((n % 10) as nat)));
            assert((n / 10) as nat == (n as nat) / 10);
            assert((n % 10) as nat == (n as nat) % 10);
        }
        r
    }
}

} // verus!
