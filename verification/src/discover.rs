//! Discovery orchestration: deduplicate candidate paths, assemble the
//! installations that probed successfully, order them newest-first, and pick
//! a compatible runtime for a game version.

use vstd::prelude::*;
use vstd::multiset::Multiset;

use crate::compat::{get_required_java_version, spec_required_major};
use crate::probe::{
    spec_installation, InstallationView, JavaInstallation, ProbeOutcome,
    validate_and_create_installation,
};
use crate::text::{lemma_str_cmp_antisym, lemma_str_cmp_eq, lemma_str_cmp_trans, str_cmp_spec,
    str_compare};

verus! {

/// The distinct paths of a candidate list, first occurrence first, as a scan
/// with a seen-set keeps them.
pub open spec fn spec_dedup(s: Seq<Seq<char>>) -> Seq<Seq<char>>
    decreases s.len(),
{
    if s.len() == 0 {
        Seq::empty()
    } else {
        let prefix = spec_dedup(s.drop_last());
        if s.drop_last().contains(s.last()) {
            prefix
        } else {
            prefix.push(s.last())
        }
    }
}

/// Membership in a sequence is decided by its last element or the rest.
proof fn lemma_contains_drop_last(s: Seq<Seq<char>>, x: Seq<char>)
    requires
        s.len() > 0,
    ensures
        s.contains(x) <==> (s.drop_last().contains(x) || s.last() == x),
{
    if s.contains(x) {
        let i = choose|i: int| 0 <= i < s.len() && s[i] == x;
        if i < s.len() - 1 {
            assert(s.drop_last()[i] == x);
        }
    }
    if s.drop_last().contains(x) {
        let i = choose|i: int| 0 <= i < s.drop_last().len() && s.drop_last()[i] == x;
        assert(s[i] == x);
    }
    if s.last() == x {
        assert(s[s.len() - 1] == x);
    }
}

/// Deduplication keeps exactly the members of the input.
pub proof fn lemma_dedup_membership(s: Seq<Seq<char>>, x: Seq<char>)
    ensures
        spec_dedup(s).contains(x) <==> s.contains(x),
    decreases s.len(),
{
    if s.len() > 0 {
        lemma_dedup_membership(s.drop_last(), x);
        lemma_contains_drop_last(s, x);
        let prefix = spec_dedup(s.drop_last());
        if s.drop_last().contains(s.last()) {
            if s.last() == x {
                assert(s.drop_last().contains(x));
            }
        } else {
            lemma_contains_drop_last(prefix.push(s.last()), x);
            assert(prefix.push(s.last()).drop_last() =~= prefix);
        }
    }
}

/// Is `x` one of the strings in `v`?
fn contains_path(v: &Vec<String>, x: &str) -> (r: bool)
    ensures
        r == v.deep_view().contains(x@),
{
    let ghost dv = v.deep_view();
    let mut i: usize = 0;
    while i < v.len()
        invariant
            i <= v@.len(),
            dv == v.deep_view(),
            dv.len() == v@.len(),
            forall|k: int| 0 <= k < i ==> #[trigger] dv[k] != x@,
        decreases v@.len() - i,
    {
        proof {
            assert(dv[i as int] == v@[i as int]@);
            lemma_str_cmp_eq(v@[i as int]@, x@);
        }
        if str_compare(v[i].as_str(), x) == 0 {
            assert(dv[i as int] == x@);
            return true;
        }
        i = i + 1;
    }
    assert(forall|k: int| 0 <= k < dv.len() ==> #[trigger] dv[k] != x@);
    false
}

/// Drop duplicate candidate paths, keeping the first occurrence of each, so
/// that no path is probed twice.
pub fn dedup_paths(paths: &Vec<String>) -> (r: Vec<String>)
    ensures
        r.deep_view() == spec_dedup(paths.deep_view()),
{
    let ghost pv = paths.deep_view();
    let mut r: Vec<String> = Vec::new();
    let mut i: usize = 0;
    proof {
        assert(pv.take(0) =~= Seq::<Seq<char>>::empty());
        assert(r.deep_view() =~~= spec_dedup(pv.take(0)));
    }
    while i < paths.len()
        invariant
            i <= paths@.len(),
            pv == paths.deep_view(),
            pv.len() == paths@.len(),
            r.deep_view() == spec_dedup(pv.take(i as int)),
        decreases paths@.len() - i,
    {
        proof {
            assert(pv[i as int] == paths@[i as int]@);
            assert(pv.take(i + 1).drop_last() =~= pv.take(i as int));
            assert(pv.take(i + 1).last() == pv[i as int]);
        }
        let seen = contains_path(&r, paths[i].as_str());
        proof {
            lemma_dedup_membership(pv.take(i as int), pv[i as int]);
        }
        if !seen {
            let p = paths[i].clone();
            let ghost od = r.deep_view();
            r.push(p);
            proof {
                assert(r.deep_view() =~= od.push(pv[i as int]));
            }
        }
        proof {
            assert(r.deep_view() =~~= spec_dedup(pv.take(i + 1)));
        }
        i = i + 1;
    }
    proof {
        assert(pv.take(paths@.len() as int) =~= pv);
    }
    r
}

/// A candidate path together with what probing it produced.
#[derive(Debug, Clone)]
pub struct ProbedCandidate {
    pub path: String,
    pub outcome: ProbeOutcome,
}

/// The installations that survive probing, in candidate order.
pub open spec fn spec_survivors(cands: Seq<ProbedCandidate>) -> Seq<InstallationView>
    decreases cands.len(),
{
    if cands.len() == 0 {
        Seq::empty()
    } else {
        (match spec_installation(cands[0].path@, cands[0].outcome) {
            Some(iv) => seq![iv],
            None => Seq::<InstallationView>::empty(),
        }) + spec_survivors(cands.skip(1))
    }
}

proof fn lemma_survivors_push(cands: Seq<ProbedCandidate>, x: ProbedCandidate)
    ensures
        spec_survivors(cands.push(x)) == spec_survivors(cands) + (match spec_installation(
            x.path@,
            x.outcome,
        ) {
            Some(iv) => seq![iv],
            None => Seq::<InstallationView>::empty(),
        }),
    decreases cands.len(),
{
    if cands.len() == 0 {
        assert(cands.push(x)[0] == x);
        assert(cands.push(x).skip(1) =~= cands);
        assert(spec_survivors(cands.push(x)) =~= spec_survivors(cands) + (match spec_installation(
            x.path@,
            x.outcome,
        ) {
            Some(iv) => seq![iv],
            None => Seq::<InstallationView>::empty(),
        }));
    } else {
        assert(cands.push(x)[0] == cands[0]);
        assert(cands.push(x).skip(1) =~= cands.skip(1).push(x));
        lemma_survivors_push(cands.skip(1), x);
        assert(spec_survivors(cands.push(x)) =~= spec_survivors(cands) + (match spec_installation(
            x.path@,
            x.outcome,
        ) {
            Some(iv) => seq![iv],
            None => Seq::<InstallationView>::empty(),
        }));
    }
}

/// The views of a sequence of installations.
pub open spec fn views_of(s: Seq<JavaInstallation>) -> Seq<InstallationView> {
    s.map_values(|x: JavaInstallation| x@)
}

/// The discovery order: larger known majors first, installations with no
/// known major after all with one, ties in path order for determinism.
pub open spec fn spec_install_le(a: InstallationView, b: InstallationView) -> bool {
    match (a.major, b.major) {
        (Some(am), Some(bm)) => am > bm || (am == bm && str_cmp_spec(a.path, b.path) <= 0),
        (Some(am), None) => true,
        (None, Some(bm)) => false,
        (None, None) => str_cmp_spec(a.path, b.path) <= 0,
    }
}

/// The discovery order is total.
pub proof fn lemma_install_le_total(a: InstallationView, b: InstallationView)
    ensures
        spec_install_le(a, b) || spec_install_le(b, a),
{
    lemma_str_cmp_antisym(a.path, b.path);
}

/// The discovery order is transitive.
pub proof fn lemma_install_le_trans(a: InstallationView, b: InstallationView, c: InstallationView)
    requires
        spec_install_le(a, b),
        spec_install_le(b, c),
    ensures
        spec_install_le(a, c),
{
    if a.major is Some && b.major is Some && c.major is Some {
        if a.major == b.major && b.major == c.major {
            lemma_str_cmp_trans(a.path, b.path, c.path);
        }
    }
    if a.major is None && b.major is None && c.major is None {
        lemma_str_cmp_trans(a.path, b.path, c.path);
    }
}

/// The comparison that orders discovered installations.
fn install_le(a: &JavaInstallation, b: &JavaInstallation) -> (r: bool)
    ensures
        r == spec_install_le(a@, b@),
{
    match (a.major, b.major) {
        (Some(am), Some(bm)) => am > bm || (am == bm && str_compare(
            a.path.as_str(),
            b.path.as_str(),
        ) <= 0),
        (Some(_), None) => true,
        (None, Some(_)) => false,
        (None, None) => str_compare(a.path.as_str(), b.path.as_str()) <= 0,
    }
}

/// A sequence ordered by the discovery order.
pub open spec fn spec_sorted_installs(s: Seq<JavaInstallation>) -> bool {
    forall|i: int, j: int|
        #![trigger s[i], s[j]]
        0 <= i < j < s.len() ==> spec_install_le(s[i]@, s[j]@)
}

/// Sort installations by the discovery order, keeping exactly the same
/// records.
fn sort_installations(v: Vec<JavaInstallation>) -> (r: Vec<JavaInstallation>)
    ensures
        views_of(r@).to_multiset() == views_of(v@).to_multiset(),
        spec_sorted_installs(r@),
{
    broadcast use vstd::seq_lib::group_to_multiset_ensures;

    let ghost goal = views_of(v@).to_multiset();
    let mut src = v;
    let mut r: Vec<JavaInstallation> = Vec::new();
    proof {
        assert(views_of(r@) =~= Seq::<InstallationView>::empty());
        assert(views_of(r@).to_multiset().add(views_of(src@).to_multiset()) =~= goal);
    }
    while src.len() > 0
        invariant
            views_of(r@).to_multiset().add(views_of(src@).to_multiset()) == goal,
            spec_sorted_installs(r@),
        decreases src@.len(),
    {
        let ghost old_src = src@;
        let x = src.pop().unwrap();
        proof {
            assert(old_src =~= src@.push(x));
            assert(views_of(old_src) =~= views_of(src@).push(x@));
            views_of(src@).to_multiset_ensures();
            assert(views_of(src@).push(x@).to_multiset() =~= views_of(src@).to_multiset().insert(
                x@,
            ));
            assert(views_of(old_src).to_multiset() =~= views_of(src@).to_multiset().insert(x@));
        }
        let mut pos: usize = 0;
        let mut found = false;
        while !found && pos < r.len()
            invariant
                pos <= r@.len(),
                spec_sorted_installs(r@),
                forall|k: int| 0 <= k < pos ==> spec_install_le(#[trigger] r@[k]@, x@),
                found ==> pos < r@.len() && !spec_install_le(r@[pos as int]@, x@),
            decreases 2 * (r@.len() - pos) + (if found {
                0int
            } else {
                1int
            }),
        {
            if !install_le(&r[pos], &x) {
                found = true;
            } else {
                pos = pos + 1;
            }
        }
        let ghost old_r = r@;
        r.insert(pos, x);
        proof {
            let nr = r@;
            assert(nr == old_r.insert(pos as int, x));
            assert(nr.remove(pos as int) =~= old_r);
            assert(views_of(nr).remove(pos as int) =~= views_of(old_r));
            assert(views_of(nr)[pos as int] == x@);
            views_of(nr).to_multiset_ensures();
            assert(views_of(nr).remove(pos as int).to_multiset() =~= views_of(
                nr,
            ).to_multiset().remove(views_of(nr)[pos as int]));
            assert(views_of(nr).to_multiset().remove(x@) =~= views_of(old_r).to_multiset());
            assert(views_of(nr).contains(x@));
            assert(views_of(nr).to_multiset().count(x@) > 0);
            assert(views_of(nr).to_multiset() =~= views_of(old_r).to_multiset().insert(x@));
            assert(views_of(r@).to_multiset().add(views_of(src@).to_multiset()) =~= goal);
            assert forall|i: int, j: int|
                #![trigger nr[i], nr[j]]
                0 <= i < j < nr.len() implies spec_install_le(nr[i]@, nr[j]@) by {
                if i < pos && j < pos {
                    assert(nr[i] == old_r[i] && nr[j] == old_r[j]);
                } else if i < pos && j == pos {
                    assert(nr[i] == old_r[i]);
                } else if i < pos && j > pos {
                    assert(nr[i] == old_r[i] && nr[j] == old_r[j - 1]);
                    assert(spec_install_le(old_r[i]@, old_r[j - 1]@));
                } else if i == pos && j > pos {
                    assert(nr[j] == old_r[j - 1]);
                    if !found {
                        assert(pos == old_r.len());
                        assert(false);
                    }
                    lemma_install_le_total(old_r[pos as int]@, x@);
                    assert(spec_install_le(x@, old_r[pos as int]@));
                    if j - 1 > pos {
                        assert(spec_install_le(old_r[pos as int]@, old_r[j - 1]@));
                        lemma_install_le_trans(x@, old_r[pos as int]@, old_r[j - 1]@);
                    }
                } else {
                    assert(i > pos || (i == pos && j == pos));
                    assert(nr[i] == old_r[i - 1] && nr[j] == old_r[j - 1]);
                    assert(spec_install_le(old_r[i - 1]@, old_r[j - 1]@));
                }
            }
        }
    }
    proof {
        assert(views_of(src@) =~= Seq::<InstallationView>::empty());
        assert(views_of(src@).to_multiset() =~= Multiset::<InstallationView>::empty());
        assert(views_of(r@).to_multiset() =~= goal);
    }
    r
}

/// Assemble the discovered installations from the probed candidates: drop
/// the candidates whose probe failed, and return the survivors sorted by
/// major version descending, unknown majors last, ties by path. The caller
/// deduplicates candidate paths beforehand with `dedup_paths`.
pub fn detect_installations(probed: Vec<ProbedCandidate>) -> (r: Vec<JavaInstallation>)
    ensures
        views_of(r@).to_multiset() == spec_survivors(probed@).to_multiset(),
        spec_sorted_installs(r@),
{
    let ghost pv = probed@;
    let mut out: Vec<JavaInstallation> = Vec::new();
    let mut i: usize = 0;
    proof {
        assert(pv.take(0) =~= Seq::<ProbedCandidate>::empty());
        assert(views_of(out@) =~= spec_survivors(pv.take(0)));
    }
    while i < probed.len()
        invariant
            i <= probed@.len(),
            pv == probed@,
            views_of(out@) == spec_survivors(pv.take(i as int)),
        decreases probed@.len() - i,
    {
        let cand = &probed[i];
        let ghost od = views_of(out@);
        match validate_and_create_installation(cand.path.as_str(), &cand.outcome) {
            Some(inst) => {
                let ghost iv = inst@;
                out.push(inst);
                proof {
                    assert(views_of(out@) =~= od.push(iv));
                }
            },
            None => {},
        }
        proof {
            assert(pv.take(i + 1) =~= pv.take(i as int).push(pv[i as int]));
            lemma_survivors_push(pv.take(i as int), pv[i as int]);
            assert(views_of(out@) =~= spec_survivors(pv.take(i + 1)));
        }
        i = i + 1;
    }
    proof {
        assert(pv.take(probed@.len() as int) =~= pv);
    }
    sort_installations(out)
}

/// The first installation whose known major meets the requirement, if any.
pub open spec fn spec_first_compatible(installs: Seq<JavaInstallation>, required: u32) -> Option<
    Seq<char>,
>
    decreases installs.len(),
{
    if installs.len() == 0 {
        None
    } else {
        match installs[0]@.major {
            Some(m) => if m >= required {
                Some(installs[0]@.path)
            } else {
                spec_first_compatible(installs.skip(1), required)
            },
            None => spec_first_compatible(installs.skip(1), required),
        }
    }
}

/// Pick a Java for a game version: a managed runtime wins outright, else the
/// first listed installation whose known major meets the requirement.
pub fn find_compatible_java(mc_version: &str, managed: Option<String>, installations: &Vec<
    JavaInstallation,
>) -> (r: Option<String>)
    ensures
        (match r {
            Some(p) => Some(p@),
            None => None,
        }) == (match managed {
            Some(m) => Some(m@),
            None => spec_first_compatible(installations@, spec_required_major(mc_version@)),
        }),
{
    let required = get_required_java_version(mc_version);
    match managed {
        Some(m) => Some(m),
        None => {
            let ghost iv = installations@;
            let mut i: usize = 0;
            proof {
                assert(iv.skip(0) =~= iv);
            }
            while i < installations.len()
                invariant
                    i <= installations@.len(),
                    iv == installations@,
                    managed is None,
                    required == spec_required_major(mc_version@),
                    spec_first_compatible(iv, required) == spec_first_compatible(
                        iv.skip(i as int),
                        required,
                    ),
                decreases installations@.len() - i,
            {
                proof {
                    assert(iv.skip(i as int)[0] == iv[i as int]);
                    assert(iv.skip(i as int).skip(1) =~= iv.skip(i + 1));
                }
                match installations[i].major {
                    Some(major) => {
                        if major >= required {
                            proof {
                                assert(iv[i as int]@.major == Some(major));
                                assert(spec_first_compatible(iv.skip(i as int), required) == Some(
                                    iv[i as int]@.path,
                                ));
                            }
                            return Some(installations[i].path.clone());
                        }
                    },
                    None => {},
                }
                i = i + 1;
            }
            proof {
                assert(iv.skip(iv.len() as int).len() == 0);
            }
            None
        },
    }
}

} // verus!
