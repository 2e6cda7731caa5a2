//! The managed runtime registry: the directory layout of the runtimes this
//! system installs itself, and the decisions over what the application finds
//! there.

use vstd::prelude::*;

use crate::discover::views_of;
use crate::probe::{InstallationView, JavaInstallation, opt_str_view};
use crate::text::{starts_with, str_starts_with, u32_digits, u32_to_string};

verus! {

/// The directory a managed runtime of a major version lives under.
pub open spec fn spec_managed_dir_name(major: u32) -> Seq<char> {
    "temurin-"@ + u32_digits(major as nat)
}

/// Name of the directory holding the managed runtime of a major version.
pub fn managed_runtime_dir_name(major: u32) -> (r: String)
    ensures
        r@ == spec_managed_dir_name(major),
{
    let mut r = String::from_str("temurin-");
    let digits = u32_to_string(major);
    r.append(digits.as_str());
    r
}

/// A directory name of the managed layout.
pub open spec fn spec_is_managed_dir_name(n: Seq<char>) -> bool {
    starts_with(n, "temurin-"@)
}

/// Does a directory name belong to the managed runtime layout?
pub fn is_managed_dir_name(name: &str) -> (r: bool)
    ensures
        r == spec_is_managed_dir_name(name@),
{
    str_starts_with(name, "temurin-")
}

/// One extracted tree under a managed runtime directory: the java executable
/// resolved in it, if any, and whether that executable validated.
#[derive(Debug, Clone)]
pub struct ManagedCandidate {
    pub java_path: Option<String>,
    pub is_valid: bool,
}

/// The first resolved and validated executable among the trees of a managed
/// runtime directory.
pub open spec fn spec_first_managed(cands: Seq<ManagedCandidate>) -> Option<Seq<char>>
    decreases cands.len(),
{
    if cands.len() == 0 {
        None
    } else {
        match cands[0].java_path {
            Some(p) => if cands[0].is_valid {
                Some(p@)
            } else {
                spec_first_managed(cands.skip(1))
            },
            None => spec_first_managed(cands.skip(1)),
        }
    }
}

/// Pick the managed runtime to use for a major version: the first extracted
/// tree whose executable resolved and validated, or none.
pub fn get_managed_java(candidates: &Vec<ManagedCandidate>) -> (r: Option<String>)
    ensures
        opt_str_view(r) == spec_first_managed(candidates@),
{
    let ghost cv = candidates@;
    let mut i: usize = 0;
    proof {
        assert(cv.skip(0) =~= cv);
    }
    while i < candidates.len()
        invariant
            i <= candidates@.len(),
            cv == candidates@,
            spec_first_managed(cv) == spec_first_managed(cv.skip(i as int)),
        decreases candidates@.len() - i,
    {
        proof {
            assert(cv.skip(i as int)[0] == cv[i as int]);
            assert(cv.skip(i as int).skip(1) =~= cv.skip(i + 1));
        }
        match &candidates[i].java_path {
            Some(p) => {
                if candidates[i].is_valid {
                    return Some(p.clone());
                }
            },
            None => {},
        }
        i = i + 1;
    }
    proof {
        assert(cv.skip(candidates@.len() as int).len() == 0);
    }
    None
}

/// The installations among the resolution results, in order; unresolvable
/// or invalid trees are silently skipped as `None` entries.
pub open spec fn spec_present_installs(found: Seq<Option<JavaInstallation>>) -> Seq<
    InstallationView,
>
    decreases found.len(),
{
    if found.len() == 0 {
        Seq::empty()
    } else {
        (match found[0] {
            Some(inst) => seq![inst@],
            None => Seq::<InstallationView>::empty(),
        }) + spec_present_installs(found.skip(1))
    }
}

proof fn lemma_present_installs_push(found: Seq<Option<JavaInstallation>>, x: Option<
    JavaInstallation,
>)
    ensures
        spec_present_installs(found.push(x)) == spec_present_installs(found) + (match x {
            Some(inst) => seq![inst@],
            None => Seq::<InstallationView>::empty(),
        }),
    decreases found.len(),
{
    if found.len() == 0 {
        assert(found.push(x)[0] == x);
        assert(found.push(x).skip(1) =~= found);
        assert(spec_present_installs(found.push(x)) =~= spec_present_installs(found) + (match x {
            Some(inst) => seq![inst@],
            None => Seq::<InstallationView>::empty(),
        }));
    } else {
        assert(found.push(x)[0] == found[0]);
        assert(found.push(x).skip(1) =~= found.skip(1).push(x));
        lemma_present_installs_push(found.skip(1), x);
        assert(spec_present_installs(found.push(x)) =~= spec_present_installs(found) + (match x {
            Some(inst) => seq![inst@],
            None => Seq::<InstallationView>::empty(),
        }));
    }
}

/// Collect the managed installations that resolved and validated, keeping
/// their order; an empty or missing runtimes root yields an empty list.
pub fn list_managed_runtimes(found: Vec<Option<JavaInstallation>>) -> (r: Vec<JavaInstallation>)
    ensures
        views_of(r@) == spec_present_installs(found@),
{
    let ghost fv = found@;
    let mut out: Vec<JavaInstallation> = Vec::new();
    let mut rest = found;
    let mut i: usize = 0;
    proof {
        assert(fv.take(0) =~= Seq::<Option<JavaInstallation>>::empty());
        assert(views_of(out@) =~= spec_present_installs(fv.take(0)));
    }
    while i < rest.len()
        invariant
            i <= rest@.len(),
            fv == rest@,
            views_of(out@) == spec_present_installs(fv.take(i as int)),
        decreases rest@.len() - i,
    {
        let ghost od = views_of(out@);
        match &rest[i] {
            Some(inst) => {
                let ghost iv = inst@;
                let inst2 = clone_installation(inst);
                out.push(inst2);
                proof {
                    assert(views_of(out@) =~= od.push(iv));
                }
            },
            None => {},
        }
        proof {
            assert(fv.take(i + 1) =~= fv.take(i as int).push(fv[i as int]));
            lemma_present_installs_push(fv.take(i as int), fv[i as int]);
            assert(views_of(out@) =~= spec_present_installs(fv.take(i + 1)));
        }
        i = i + 1;
    }
    proof {
        assert(fv.take(rest@.len() as int) =~= fv);
    }
    out
}

/// Copy an installation record field by field.
fn clone_installation(inst: &JavaInstallation) -> (r: JavaInstallation)
    ensures
        r@ == inst@,
{
    JavaInstallation {
        path: inst.path.clone(),
        version: (match &inst.version {
            Some(v) => Some(v.clone()),
            None => None,
        }),
        major: inst.major,
        vendor: (match &inst.vendor {
            Some(v) => Some(v.clone()),
            None => None,
        }),
        arch: (match &inst.arch {
            Some(v) => Some(v.clone()),
            None => None,
        }),
        is_valid: inst.is_valid,
    }
}

} // verus!
