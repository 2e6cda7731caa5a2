//! The version comparator: orders game version strings, treating snapshot
//! identifiers of the shape `YYwWWx` as newer than any dotted release.

use vstd::prelude::*;

use crate::text::{
    digit_val, digits_value, find_char, find_char_in, is_digit_char, numeral_digits, parse_u32,
    parse_u32_spec, split_char, split_char_exec, lemma_split_char_len, lemma_split_char_whole,
    lemma_split_char_step,
};

verus! {

/// A version string is recognized as a snapshot when it is at least five
/// characters long, contains exactly one `w`, and the text before the `w`
/// parses as a year between 11 and 99 inclusive.
pub open spec fn spec_is_snapshot(s: Seq<char>) -> bool {
    &&& s.len() >= 5
    &&& find_char(s, 'w') is Some
    &&& split_char(s, 'w').len() == 2
    &&& match parse_u32_spec(split_char(s, 'w')[0]) {
        Some(y) => 11 <= y <= 99,
        None => false,
    }
}

/// The two-digit year embedded in a snapshot identifier.
pub open spec fn spec_snapshot_year(s: Seq<char>) -> u32 {
    match parse_u32_spec(split_char(s, 'w')[0]) {
        Some(y) => y,
        None => 99,
    }
}

/// Numeric value of the `i`-th dot-separated component; missing or
/// non-numeric components count as 0.
pub open spec fn spec_part_u32(parts: Seq<Seq<char>>, i: int) -> u32 {
    if 0 <= i < parts.len() {
        match parse_u32_spec(parts[i]) {
            Some(n) => n,
            None => 0,
        }
    } else {
        0
    }
}

/// Every version string maps to a (major, minor, patch) triple. A snapshot
/// maps to the synthetic triple (1, year, 99), so that snapshots outrank the
/// dotted releases of their era and newer snapshot years outrank older ones.
pub open spec fn spec_triple(s: Seq<char>) -> (u32, u32, u32) {
    if spec_is_snapshot(s) {
        (1u32, spec_snapshot_year(s), 99u32)
    } else {
        let parts = split_char(s, '.');
        (spec_part_u32(parts, 0), spec_part_u32(parts, 1), spec_part_u32(parts, 2))
    }
}

/// Lexicographic comparison of two triples: -1, 0 or 1.
pub open spec fn triple_cmp(a: (u32, u32, u32), b: (u32, u32, u32)) -> int {
    if a.0 < b.0 {
        -1
    } else if a.0 > b.0 {
        1
    } else if a.1 < b.1 {
        -1
    } else if a.1 > b.1 {
        1
    } else if a.2 < b.2 {
        -1
    } else if a.2 > b.2 {
        1
    } else {
        0
    }
}

/// What `compare_mc_versions` returns.
pub open spec fn spec_compare(a: Seq<char>, b: Seq<char>) -> int {
    triple_cmp(spec_triple(a), spec_triple(b))
}

/// Check whether a version string is a snapshot identifier such as `24w14a`.
pub fn is_snapshot_version(version: &str) -> (r: bool)
    ensures
        r == spec_is_snapshot(version@),
{
    let n: usize = version.unicode_len();
    if n < 5 {
        return false;
    }
    match find_char_in(version, 'w') {
        None => false,
        Some(_) => {
            let parts = split_char_exec(version, 'w');
            if parts.len() != 2 {
                return false;
            }
            match parse_u32(parts[0].as_str()) {
                Some(y) => 11 <= y && y <= 99,
                None => false,
            }
        },
    }
}

/// Map a version string to its comparison triple.
fn parse_triple(s: &str) -> (t: (u32, u32, u32))
    ensures
        t == spec_triple(s@),
{
    if is_snapshot_version(s) {
        let parts = split_char_exec(s, 'w');
        match parse_u32(parts[0].as_str()) {
            Some(y) => (1, y, 99),
            None => (1, 99, 0),  // defensive fallback; unreachable for a snapshot
        }
    } else {
        let parts = split_char_exec(s, '.');
        proof {
            lemma_split_char_len(s@, '.');
        }
        let major = match parse_u32(parts[0].as_str()) {
            Some(n) => n,
            None => 0,
        };
        let minor = if parts.len() > 1 {
            match parse_u32(parts[1].as_str()) {
                Some(n) => n,
                None => 0,
            }
        } else {
            0
        };
        let patch = if parts.len() > 2 {
            match parse_u32(parts[2].as_str()) {
                Some(n) => n,
                None => 0,
            }
        } else {
            0
        };
        (major, minor, patch)
    }
}

/// Compare two game version strings: -1 when `a` is older than `b`, 0 when
/// they denote the same release, 1 when `a` is newer.
pub fn compare_mc_versions(a: &str, b: &str) -> (r: i32)
    ensures
        r as int == spec_compare(a@, b@),
{
    let ta = parse_triple(a);
    let tb = parse_triple(b);
    if ta.0 < tb.0 {
        -1
    } else if ta.0 > tb.0 {
        1
    } else if ta.1 < tb.1 {
        -1
    } else if ta.1 > tb.1 {
        1
    } else if ta.2 < tb.2 {
        -1
    } else if ta.2 > tb.2 {
        1
    } else {
        0
    }
}

/// What major-version extraction returns for a version token: the second
/// dot-separated component under the legacy `1.X.Y` scheme, otherwise the
/// first, with non-numeric leading tokens yielding 0.
pub open spec fn spec_parse_major(version: Seq<char>) -> u32 {
    let parts = split_char(version, '.');
    match parse_u32_spec(parts[0]) {
        Some(n) => {
            if n == 1 && parts.len() > 1 {
                match parse_u32_spec(parts[1]) {
                    Some(second) => second,
                    None => n,
                }
            } else {
                n
            }
        },
        None => 0,
    }
}

/// Extract the Java major version from a version token such as `17.0.2` or
/// `1.8.0_321`.
pub fn parse_major_version(version: &str) -> (r: u32)
    ensures
        r == spec_parse_major(version@),
{
    let parts = split_char_exec(version, '.');
    proof {
        lemma_split_char_len(version@, '.');
    }
    match parse_u32(parts[0].as_str()) {
        Some(n) => {
            if n == 1 && parts.len() > 1 {
                match parse_u32(parts[1].as_str()) {
                    Some(second) => second,
                    None => n,
                }
            } else {
                n
            }
        },
        None => 0,
    }
}

/// Law: the comparator is a total order on version strings. Comparison of a
/// string with itself yields 0, swapping the arguments flips the sign, and
/// the order is transitive.
pub proof fn lemma_compare_total_order(a: Seq<char>, b: Seq<char>, c: Seq<char>)
    ensures
        spec_compare(a, a) == 0,
        spec_compare(a, b) == -spec_compare(b, a),
        spec_compare(a, b) >= 0 && spec_compare(b, c) >= 0 ==> spec_compare(a, c) >= 0,
        spec_compare(a, b) == 0 && spec_compare(b, c) == 0 ==> spec_compare(a, c) == 0,
        spec_compare(a, b) > 0 && spec_compare(b, c) >= 0 ==> spec_compare(a, c) > 0,
{
}

/// Law: a snapshot compares greater than a dotted release, provided the
/// release's triple precedes the snapshot's synthetic triple (1, year, 99):
/// its leading component is at most 1, and at exactly 1 its second component
/// stays below the snapshot's year, or matches it with a third component
/// under 99. (A release such as `2.0`, whose leading component exceeds 1,
/// would compare greater than any snapshot.)
pub proof fn lemma_snapshot_outranks_release(s: Seq<char>, d: Seq<char>)
    requires
        spec_is_snapshot(s),
        !spec_is_snapshot(d),
        spec_triple(d).0 <= 1,
        spec_triple(d).0 == 1 && spec_triple(d).1 >= spec_snapshot_year(s) ==> spec_triple(d).1
            == spec_snapshot_year(s) && spec_triple(d).2 < 99,
    ensures
        spec_compare(s, d) == 1,
        spec_compare(d, s) == -1,
{
}

/// Law: among two snapshots, the one with the larger embedded year compares
/// greater.
pub proof fn lemma_snapshot_year_order(s1: Seq<char>, s2: Seq<char>)
    requires
        spec_is_snapshot(s1),
        spec_is_snapshot(s2),
        spec_snapshot_year(s1) > spec_snapshot_year(s2),
    ensures
        spec_compare(s1, s2) == 1,
{
}

/// A string accepted by `parse_u32_spec` holds only digits and possibly a
/// leading sign, so it never contains a dot.
proof fn lemma_numeral_no_dot(x: Seq<char>)
    requires
        parse_u32_spec(x) is Some,
    ensures
        forall|j: int| 0 <= j < x.len() ==> #[trigger] x[j] != '.',
{
    let d = numeral_digits(x);
    assert forall|j: int| 0 <= j < x.len() implies #[trigger] x[j] != '.' by {
        if x.len() > 0 && x[0] == '+' {
            if j > 0 {
                assert(is_digit_char(d[j - 1]));
                assert(d[j - 1] == x[j]);
            }
        } else {
            assert(is_digit_char(d[j]));
        }
    }
}

/// Law: for a version string of the legacy form `1.X...`, where `X` is a
/// numeral of value `xv` and the remainder is empty or begins with a dot,
/// major-version extraction returns `X`.
pub proof fn lemma_parse_major_legacy(x: Seq<char>, rest: Seq<char>, xv: u32)
    requires
        parse_u32_spec(x) == Some(xv),
        rest.len() == 0 || rest[0] == '.',
    ensures
        spec_parse_major(seq!['1', '.'] + x + rest) == xv,
{
    let v = seq!['1', '.'] + x + rest;
    lemma_numeral_no_dot(x);
    let one = seq!['1'];
    assert forall|j: int| 0 <= j < one.len() implies #[trigger] one[j] != '.' by {}
    assert(v =~= one + seq!['.'] + (x + rest));
    lemma_split_char_step(one, x + rest, '.');
    assert(split_char(v, '.') == seq![one] + split_char(x + rest, '.'));
    if rest.len() == 0 {
        assert(x + rest =~= x);
        lemma_split_char_whole(x, '.');
        assert(split_char(v, '.') =~~= seq![one, x]);
    } else {
        assert(x + rest =~= x + seq!['.'] + rest.skip(1));
        lemma_split_char_step(x, rest.skip(1), '.');
        assert(split_char(x + rest, '.') == seq![x] + split_char(rest.skip(1), '.'));
        assert(split_char(v, '.')[0] == one);
        assert(split_char(v, '.')[1] == x);
    }
    assert(one.drop_last() =~= Seq::<char>::empty());
    assert(digits_value(one.drop_last()) == 0);
    assert(one.last() == '1');
    assert(digits_value(one) == digit_val('1'));
    assert(parse_u32_spec(one) == Some(1u32));
    assert(split_char(v, '.')[0] == one);
    assert(split_char(v, '.').len() > 1);
    assert(split_char(v, '.')[1] == x);
}

/// Law: for a version string of the modern form `X.Y.Z` (or a bare `X`),
/// where `X` is a numeral of value `xv` other than 1 and the remainder is
/// empty or begins with a dot, major-version extraction returns `X`. (For
/// `xv == 1` the legacy scheme takes over instead.)
pub proof fn lemma_parse_major_modern(x: Seq<char>, rest: Seq<char>, xv: u32)
    requires
        parse_u32_spec(x) == Some(xv),
        xv != 1,
        rest.len() == 0 || rest[0] == '.',
    ensures
        spec_parse_major(x + rest) == xv,
{
    let v = x + rest;
    lemma_numeral_no_dot(x);
    if rest.len() == 0 {
        assert(v =~= x);
        lemma_split_char_whole(x, '.');
        assert(split_char(v, '.')[0] == x);
    } else {
        assert(v =~= x + seq!['.'] + rest.skip(1));
        lemma_split_char_step(x, rest.skip(1), '.');
        assert(split_char(v, '.')[0] == x);
    }
}

} // verus!
