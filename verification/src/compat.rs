//! The compatibility resolver: maps a game version to the minimum Java major
//! version it needs, through an ordered threshold table.

use vstd::prelude::*;

use crate::versions::{compare_mc_versions, lemma_compare_total_order, spec_compare};

verus! {

/// One threshold of the requirement table: every game version at or above
/// `mc_version_min` needs at least `java_major`.
#[derive(Debug, Clone, Copy)]
pub struct JavaRequirement {
    pub mc_version_min: &'static str,
    pub java_major: u32,
}

/// The requirement table as the pair (threshold view, required major) per
/// entry, newest threshold first.
pub open spec fn spec_table() -> Seq<(Seq<char>, u32)> {
    seq![("1.20.5"@, 21u32), ("1.18"@, 17u32), ("1.17"@, 16u32), ("1.0"@, 8u32)]
}

/// Scan a threshold table top to bottom: the first entry whose threshold the
/// queried version meets or exceeds decides; an exhausted table defaults to 8.
pub open spec fn spec_scan(v: Seq<char>, entries: Seq<(Seq<char>, u32)>) -> u32
    decreases entries.len(),
{
    if entries.len() == 0 {
        8u32
    } else if spec_compare(v, entries[0].0) >= 0 {
        entries[0].1
    } else {
        spec_scan(v, entries.skip(1))
    }
}

/// The Java major version a game version requires.
pub open spec fn spec_required_major(v: Seq<char>) -> u32 {
    spec_scan(v, spec_table())
}

/// The known game-version thresholds, newest first.
pub fn mc_java_requirements() -> (table: Vec<JavaRequirement>)
    ensures
        table@.len() == spec_table().len(),
        forall|i: int|
            0 <= i < table@.len() ==> (#[trigger] table@[i]).mc_version_min@ == spec_table()[i].0
                && table@[i].java_major == spec_table()[i].1,
{
    let table = vec![
        JavaRequirement { mc_version_min: "1.20.5", java_major: 21 },
        JavaRequirement { mc_version_min: "1.18", java_major: 17 },
        JavaRequirement { mc_version_min: "1.17", java_major: 16 },
        JavaRequirement { mc_version_min: "1.0", java_major: 8 },
    ];
    table
}

/// How the table scan comes out for the shipped table, spelled as a chain of
/// comparisons against its four thresholds.
pub proof fn lemma_required_major_unfold(v: Seq<char>)
    ensures
        spec_required_major(v) == (if spec_compare(v, "1.20.5"@) >= 0 {
            21u32
        } else if spec_compare(v, "1.18"@) >= 0 {
            17u32
        } else if spec_compare(v, "1.17"@) >= 0 {
            16u32
        } else if spec_compare(v, "1.0"@) >= 0 {
            8u32
        } else {
            8u32
        }),
{
    let t0 = spec_table();
    let t1 = seq![("1.18"@, 17u32), ("1.17"@, 16u32), ("1.0"@, 8u32)];
    let t2 = seq![("1.17"@, 16u32), ("1.0"@, 8u32)];
    let t3 = seq![("1.0"@, 8u32)];
    let e = Seq::<(Seq<char>, u32)>::empty();
    assert(t0.skip(1) =~= t1);
    assert(t1.skip(1) =~= t2);
    assert(t2.skip(1) =~= t3);
    assert(t3.skip(1) =~= e);
    assert(spec_scan(v, e) == 8u32);
    assert(spec_scan(v, t3) == (if spec_compare(v, "1.0"@) >= 0 {
        8u32
    } else {
        spec_scan(v, e)
    }));
    assert(spec_scan(v, t2) == (if spec_compare(v, "1.17"@) >= 0 {
        16u32
    } else {
        spec_scan(v, t3)
    }));
    assert(spec_scan(v, t1) == (if spec_compare(v, "1.18"@) >= 0 {
        17u32
    } else {
        spec_scan(v, t2)
    }));
    assert(spec_scan(v, t0) == (if spec_compare(v, "1.20.5"@) >= 0 {
        21u32
    } else {
        spec_scan(v, t1)
    }));
}

/// Minimum required Java major version for a game version. Unknown versions
/// older than every threshold default to Java 8.
pub fn get_required_java_version(mc_version: &str) -> (r: u32)
    ensures
        r == spec_required_major(mc_version@),
{
    let table = mc_java_requirements();
    let ghost t = spec_table();
    let mut i: usize = 0;
    proof {
        assert(t.skip(0) =~= t);
    }
    while i < table.len()
        invariant
            0 <= i <= table@.len(),
            t == spec_table(),
            table@.len() == t.len(),
            forall|k: int|
                0 <= k < table@.len() ==> (#[trigger] table@[k]).mc_version_min@ == t[k].0
                    && table@[k].java_major == t[k].1,
            spec_scan(mc_version@, t) == spec_scan(mc_version@, t.skip(i as int)),
        decreases table@.len() - i,
    {
        let req = table[i];
        if compare_mc_versions(mc_version, req.mc_version_min) >= 0 {
            proof {
                let rest = t.skip(i as int);
                assert(rest.len() > 0);
                assert(rest[0] == t[i as int]);
                assert(spec_compare(mc_version@, rest[0].0) >= 0);
                assert(spec_scan(mc_version@, rest) == rest[0].1);
            }
            return req.java_major;
        }
        proof {
            assert(t.skip(i as int)[0] == t[i as int]);
            assert(t.skip(i as int).skip(1) =~= t.skip(i + 1));
        }
        i = i + 1;
    }
    proof {
        assert(t.skip(i as int) =~= Seq::<(Seq<char>, u32)>::empty());
    }
    8
}

/// Law: a Java major version is compatible with a game version exactly when
/// it is at least the required major for that version.
pub fn is_java_compatible(java_major: u32, mc_version: &str) -> (r: bool)
    ensures
        r == (java_major >= spec_required_major(mc_version@)),
{
    java_major >= get_required_java_version(mc_version)
}

/// Law: the required Java major version never decreases as the queried game
/// version increases, for the shipped threshold table.
pub proof fn lemma_required_major_monotone(v1: Seq<char>, v2: Seq<char>)
    requires
        spec_compare(v1, v2) <= 0,
    ensures
        spec_required_major(v1) <= spec_required_major(v2),
{
    lemma_required_major_unfold(v1);
    lemma_required_major_unfold(v2);
    lemma_compare_total_order(v1, v2, v1);
    lemma_compare_total_order(v2, v1, "1.20.5"@);
    lemma_compare_total_order(v2, v1, "1.18"@);
    lemma_compare_total_order(v2, v1, "1.17"@);
    lemma_compare_total_order(v2, v1, "1.0"@);
}

} // verus!
