//! The candidate locator: builds the ordered list of paths that might hold a
//! Java executable, per operating system and for the common cross-platform
//! version managers. The surrounding application lists the directories and
//! answers the existence checks; this module owns which paths are candidates.

use vstd::prelude::*;

use crate::text::{contains_seq, starts_with, str_contains, str_starts_with, str_compare,
    lemma_str_cmp_eq};

verus! {

/// The operating system the scan runs on, chosen at startup.
#[derive(Debug, Clone, Copy, PartialEq, Eq, Structural)]
pub enum Os {
    Windows,
    MacOs,
    Linux,
}

/// The machine architecture the scan runs on, chosen at startup.
#[derive(Debug, Clone, Copy, PartialEq, Eq, Structural)]
pub enum Arch {
    X64,
    Aarch64,
    X86,
}

/// The path separator of an operating system.
pub open spec fn spec_sep(os: Os) -> Seq<char> {
    if os is Windows {
        "\\"@
    } else {
        "/"@
    }
}

fn sep_str(os: Os) -> (r: &'static str)
    ensures
        r@ == spec_sep(os),
{
    match os {
        Os::Windows => "\\",
        _ => "/",
    }
}

/// A path joined with one more component.
pub open spec fn spec_join(os: Os, base: Seq<char>, name: Seq<char>) -> Seq<char> {
    base + spec_sep(os) + name
}

/// Join a path and a component with the operating system's separator.
pub fn path_join(os: Os, base: &str, name: &str) -> (r: String)
    ensures
        r@ == spec_join(os, base@, name@),
{
    let mut r = String::from_str(base);
    r.append(sep_str(os));
    r.append(name);
    r
}

/// Name of the java executable file.
pub open spec fn spec_java_exe(os: Os) -> Seq<char> {
    if os is Windows {
        "java.exe"@
    } else {
        "java"@
    }
}

/// Name of the java executable file on an operating system.
pub fn java_executable_name(os: Os) -> (r: &'static str)
    ensures
        r@ == spec_java_exe(os),
{
    match os {
        Os::Windows => "java.exe",
        _ => "java",
    }
}

/// The candidate under a directory entry: `base` + `sep` + `name` + `tail`.
pub open spec fn spec_under_dir_path(
    base: Seq<char>,
    sep: Seq<char>,
    tail: Seq<char>,
    name: Seq<char>,
) -> Seq<char> {
    base + sep + name + tail
}

/// One candidate per directory entry, in listing order.
pub open spec fn spec_under_dir_paths(
    base: Seq<char>,
    sep: Seq<char>,
    tail: Seq<char>,
    names: Seq<Seq<char>>,
) -> Seq<Seq<char>>
    decreases names.len(),
{
    if names.len() == 0 {
        Seq::empty()
    } else {
        seq![spec_under_dir_path(base, sep, tail, names[0])] + spec_under_dir_paths(
            base,
            sep,
            tail,
            names.skip(1),
        )
    }
}

proof fn lemma_under_dir_paths_push(
    base: Seq<char>,
    sep: Seq<char>,
    tail: Seq<char>,
    names: Seq<Seq<char>>,
    x: Seq<char>,
)
    ensures
        spec_under_dir_paths(base, sep, tail, names.push(x)) == spec_under_dir_paths(
            base,
            sep,
            tail,
            names,
        ) + seq![spec_under_dir_path(base, sep, tail, x)],
    decreases names.len(),
{
    if names.len() == 0 {
        assert(names.push(x)[0] == x);
        assert(names.push(x).skip(1) =~= names);
        assert(spec_under_dir_paths(base, sep, tail, names.push(x)) =~~= spec_under_dir_paths(
            base,
            sep,
            tail,
            names,
        ) + seq![spec_under_dir_path(base, sep, tail, x)]);
    } else {
        assert(names.push(x)[0] == names[0]);
        assert(names.push(x).skip(1) =~= names.skip(1).push(x));
        lemma_under_dir_paths_push(base, sep, tail, names.skip(1), x);
        assert(spec_under_dir_paths(base, sep, tail, names.push(x)) =~~= spec_under_dir_paths(
            base,
            sep,
            tail,
            names,
        ) + seq![spec_under_dir_path(base, sep, tail, x)]);
    }
}

/// Append one candidate path per entry of a directory listing.
fn add_under_dir_paths(out: &mut Vec<String>, base: &str, sep: &str, tail: &str, names: &Vec<
    String,
>)
    ensures
        final(out).deep_view() == old(out).deep_view() + spec_under_dir_paths(
            base@,
            sep@,
            tail@,
            names.deep_view(),
        ),
{
    let ghost base0 = out.deep_view();
    let ghost nv = names.deep_view();
    let mut i: usize = 0;
    proof {
        assert(nv.take(0) =~= Seq::<Seq<char>>::empty());
        assert(out.deep_view() =~~= base0 + spec_under_dir_paths(base@, sep@, tail@, nv.take(0)));
    }
    while i < names.len()
        invariant
            i <= names@.len(),
            nv == names.deep_view(),
            nv.len() == names@.len(),
            out.deep_view() == base0 + spec_under_dir_paths(base@, sep@, tail@, nv.take(i as int)),
        decreases names@.len() - i,
    {
        let mut p = String::from_str(base);
        p.append(sep);
        p.append(names[i].as_str());
        p.append(tail);
        let ghost pv = p@;
        proof {
            assert(nv[i as int] == names@[i as int]@);
            assert(pv == spec_under_dir_path(base@, sep@, tail@, nv[i as int]));
        }
        let ghost od = out.deep_view();
        out.push(p);
        proof {
            assert(out.deep_view() =~= od.push(pv));
            assert(nv.take(i + 1) =~= nv.take(i as int).push(nv[i as int]));
            lemma_under_dir_paths_push(base@, sep@, tail@, nv.take(i as int), nv[i as int]);
            assert(out.deep_view() =~~= base0 + spec_under_dir_paths(
                base@,
                sep@,
                tail@,
                nv.take(i + 1),
            ));
        }
        i = i + 1;
    }
    proof {
        assert(nv.take(names@.len() as int) =~= nv);
    }
}

/// One candidate per directory entry, skipping one excluded entry name.
pub open spec fn spec_under_dir_paths_excl(
    base: Seq<char>,
    sep: Seq<char>,
    tail: Seq<char>,
    excl: Seq<char>,
    names: Seq<Seq<char>>,
) -> Seq<Seq<char>>
    decreases names.len(),
{
    if names.len() == 0 {
        Seq::empty()
    } else {
        (if names[0] == excl {
            Seq::<Seq<char>>::empty()
        } else {
            seq![spec_under_dir_path(base, sep, tail, names[0])]
        }) + spec_under_dir_paths_excl(base, sep, tail, excl, names.skip(1))
    }
}

proof fn lemma_under_dir_paths_excl_push(
    base: Seq<char>,
    sep: Seq<char>,
    tail: Seq<char>,
    excl: Seq<char>,
    names: Seq<Seq<char>>,
    x: Seq<char>,
)
    ensures
        spec_under_dir_paths_excl(base, sep, tail, excl, names.push(x))
            == spec_under_dir_paths_excl(base, sep, tail, excl, names) + (if x == excl {
            Seq::<Seq<char>>::empty()
        } else {
            seq![spec_under_dir_path(base, sep, tail, x)]
        }),
    decreases names.len(),
{
    if names.len() == 0 {
        assert(names.push(x)[0] == x);
        assert(names.push(x).skip(1) =~= names);
        assert(spec_under_dir_paths_excl(base, sep, tail, excl, names.push(x))
            =~~= spec_under_dir_paths_excl(base, sep, tail, excl, names) + (if x == excl {
            Seq::<Seq<char>>::empty()
        } else {
            seq![spec_under_dir_path(base, sep, tail, x)]
        }));
    } else {
        assert(names.push(x)[0] == names[0]);
        assert(names.push(x).skip(1) =~= names.skip(1).push(x));
        lemma_under_dir_paths_excl_push(base, sep, tail, excl, names.skip(1), x);
        assert(spec_under_dir_paths_excl(base, sep, tail, excl, names.push(x))
            =~~= spec_under_dir_paths_excl(base, sep, tail, excl, names) + (if x == excl {
            Seq::<Seq<char>>::empty()
        } else {
            seq![spec_under_dir_path(base, sep, tail, x)]
        }));
    }
}

/// Append one candidate path per entry, leaving out the entry named `excl`.
fn add_under_dir_paths_excl(
    out: &mut Vec<String>,
    base: &str,
    sep: &str,
    tail: &str,
    excl: &str,
    names: &Vec<String>,
)
    ensures
        final(out).deep_view() == old(out).deep_view() + spec_under_dir_paths_excl(
            base@,
            sep@,
            tail@,
            excl@,
            names.deep_view(),
        ),
{
    let ghost base0 = out.deep_view();
    let ghost nv = names.deep_view();
    let mut i: usize = 0;
    proof {
        assert(nv.take(0) =~= Seq::<Seq<char>>::empty());
        assert(out.deep_view() =~~= base0 + spec_under_dir_paths_excl(
            base@,
            sep@,
            tail@,
            excl@,
            nv.take(0),
        ));
    }
    while i < names.len()
        invariant
            i <= names@.len(),
            nv == names.deep_view(),
            nv.len() == names@.len(),
            out.deep_view() == base0 + spec_under_dir_paths_excl(
                base@,
                sep@,
                tail@,
                excl@,
                nv.take(i as int),
            ),
        decreases names@.len() - i,
    {
        proof {
            assert(nv[i as int] == names@[i as int]@);
            lemma_str_cmp_eq(names@[i as int]@, excl@);
        }
        let ghost od = out.deep_view();
        if str_compare(names[i].as_str(), excl) != 0 {
            let mut p = String::from_str(base);
            p.append(sep);
            p.append(names[i].as_str());
            p.append(tail);
            let ghost pv = p@;
            proof {
                assert(pv == spec_under_dir_path(base@, sep@, tail@, nv[i as int]));
            }
            out.push(p);
            proof {
                assert(out.deep_view() =~= od.push(pv));
            }
        }
        proof {
            assert(nv.take(i + 1) =~= nv.take(i as int).push(nv[i as int]));
            lemma_under_dir_paths_excl_push(base@, sep@, tail@, excl@, nv.take(i as int), nv[
                i as int]);
            assert(out.deep_view() =~~= base0 + spec_under_dir_paths_excl(
                base@,
                sep@,
                tail@,
                excl@,
                nv.take(i + 1),
            ));
        }
        i = i + 1;
    }
    proof {
        assert(nv.take(names@.len() as int) =~= nv);
    }
}

/// What the application saw under one Homebrew formula directory: the
/// formula's name, and whether its `bin/java` and `libexec/bin/java` exist.
#[derive(Debug, Clone)]
pub struct HomebrewEntry {
    pub name: String,
    pub has_bin_java: bool,
    pub has_libexec_java: bool,
}

/// Mathematical model of a `HomebrewEntry`.
pub struct HomebrewEntryView {
    pub name: Seq<char>,
    pub has_bin_java: bool,
    pub has_libexec_java: bool,
}

impl View for HomebrewEntry {
    type V = HomebrewEntryView;

    open spec fn view(&self) -> HomebrewEntryView {
        HomebrewEntryView {
            name: self.name@,
            has_bin_java: self.has_bin_java,
            has_libexec_java: self.has_libexec_java,
        }
    }
}

impl DeepView for HomebrewEntry {
    type V = HomebrewEntryView;

    open spec fn deep_view(&self) -> HomebrewEntryView {
        self.view()
    }
}

/// A formula name that suggests a JDK.
pub open spec fn spec_homebrew_name_matches(n: Seq<char>) -> bool {
    starts_with(n, "openjdk"@) || contains_seq(n, "java"@) || contains_seq(n, "jdk"@)
}

/// The candidates one Homebrew formula contributes: its `bin/java` and
/// `libexec/bin/java`, each only when present, and only for JDK-like names.
pub open spec fn spec_homebrew_entry_paths(root: Seq<char>, e: HomebrewEntryView) -> Seq<
    Seq<char>,
> {
    if spec_homebrew_name_matches(e.name) {
        (if e.has_bin_java {
            seq![root + "/"@ + e.name + "/bin/java"@]
        } else {
            Seq::<Seq<char>>::empty()
        }) + (if e.has_libexec_java {
            seq![root + "/"@ + e.name + "/libexec/bin/java"@]
        } else {
            Seq::<Seq<char>>::empty()
        })
    } else {
        Seq::<Seq<char>>::empty()
    }
}

/// The candidates of all formulas under one Homebrew prefix, in order.
pub open spec fn spec_homebrew_paths(root: Seq<char>, entries: Seq<HomebrewEntryView>) -> Seq<
    Seq<char>,
>
    decreases entries.len(),
{
    if entries.len() == 0 {
        Seq::empty()
    } else {
        spec_homebrew_entry_paths(root, entries[0]) + spec_homebrew_paths(root, entries.skip(1))
    }
}

proof fn lemma_homebrew_paths_push(
    root: Seq<char>,
    entries: Seq<HomebrewEntryView>,
    x: HomebrewEntryView,
)
    ensures
        spec_homebrew_paths(root, entries.push(x)) == spec_homebrew_paths(root, entries)
            + spec_homebrew_entry_paths(root, x),
    decreases entries.len(),
{
    if entries.len() == 0 {
        assert(entries.push(x)[0] == x);
        assert(entries.push(x).skip(1) =~= entries);
        assert(spec_homebrew_paths(root, entries.push(x)) =~~= spec_homebrew_paths(root, entries)
            + spec_homebrew_entry_paths(root, x));
    } else {
        assert(entries.push(x)[0] == entries[0]);
        assert(entries.push(x).skip(1) =~= entries.skip(1).push(x));
        lemma_homebrew_paths_push(root, entries.skip(1), x);
        assert(spec_homebrew_paths(root, entries.push(x)) =~~= spec_homebrew_paths(root, entries)
            + spec_homebrew_entry_paths(root, x));
    }
}

/// Append the candidates of the JDK-like formulas under a Homebrew prefix.
fn add_homebrew_paths(out: &mut Vec<String>, root: &str, entries: &Vec<HomebrewEntry>)
    ensures
        final(out).deep_view() == old(out).deep_view() + spec_homebrew_paths(
            root@,
            entries.deep_view(),
        ),
{
    let ghost base0 = out.deep_view();
    let ghost ev = entries.deep_view();
    let mut i: usize = 0;
    proof {
        assert(ev.take(0) =~= Seq::<HomebrewEntryView>::empty());
        assert(out.deep_view() =~~= base0 + spec_homebrew_paths(root@, ev.take(0)));
    }
    while i < entries.len()
        invariant
            i <= entries@.len(),
            ev == entries.deep_view(),
            ev.len() == entries@.len(),
            out.deep_view() == base0 + spec_homebrew_paths(root@, ev.take(i as int)),
        decreases entries@.len() - i,
    {
        let ghost od = out.deep_view();
        proof {
            assert(ev[i as int] == entries@[i as int]@);
        }
        let name = &entries[i].name;
        if str_starts_with(name.as_str(), "openjdk") || str_contains(name.as_str(), "java")
            || str_contains(name.as_str(), "jdk") {
            if entries[i].has_bin_java {
                let mut p = String::from_str(root);
                p.append("/");
                p.append(name.as_str());
                p.append("/bin/java");
                out.push(p);
            }
            if entries[i].has_libexec_java {
                let mut p = String::from_str(root);
                p.append("/");
                p.append(name.as_str());
                p.append("/libexec/bin/java");
                out.push(p);
            }
        }
        proof {
            assert(out.deep_view() =~~= od + spec_homebrew_entry_paths(root@, ev[i as int]));
            assert(ev.take(i + 1) =~= ev.take(i as int).push(ev[i as int]));
            lemma_homebrew_paths_push(root@, ev.take(i as int), ev[i as int]);
            assert(out.deep_view() =~~= base0 + spec_homebrew_paths(root@, ev.take(i + 1)));
        }
        i = i + 1;
    }
    proof {
        assert(ev.take(entries@.len() as int) =~= ev);
    }
}

/// A directory the application listed: its path and the names of its
/// immediate entries, in listing order.
#[derive(Debug, Clone)]
pub struct DirListing {
    pub path: String,
    pub entries: Vec<String>,
}

/// Mathematical model of a `DirListing`.
pub struct DirListingView {
    pub path: Seq<char>,
    pub entries: Seq<Seq<char>>,
}

impl View for DirListing {
    type V = DirListingView;

    open spec fn view(&self) -> DirListingView {
        DirListingView { path: self.path@, entries: self.entries.deep_view() }
    }
}

impl DeepView for DirListing {
    type V = DirListingView;

    open spec fn deep_view(&self) -> DirListingView {
        self.view()
    }
}

/// View of an optional list of strings.
pub open spec fn opt_strs_view(o: Option<Vec<String>>) -> Option<Seq<Seq<char>>> {
    match o {
        Some(v) => Some(v.deep_view()),
        None => None,
    }
}

/// View of an optional list of Homebrew entries.
pub open spec fn opt_homebrew_view(o: Option<Vec<HomebrewEntry>>) -> Option<
    Seq<HomebrewEntryView>,
> {
    match o {
        Some(v) => Some(v.deep_view()),
        None => None,
    }
}

/// The vendor directory names probed under each Program Files root.
pub open spec fn spec_windows_vendor_names() -> Seq<Seq<char>> {
    seq![
        "Java"@,
        "Eclipse Adoptium"@,
        "AdoptOpenJDK"@,
        "Microsoft"@,
        "Zulu"@,
        "Amazon Corretto"@,
        "BellSoft"@,
    ]
}

/// The two Program Files roots, from the environment where set, with their
/// standard fallbacks.
pub fn windows_program_files_roots(program_files: Option<String>, program_files_x86: Option<
    String,
>) -> (r: Vec<String>)
    ensures
        r.deep_view() =~= seq![
            (match program_files {
                Some(p) => p@,
                None => "C:\\Program Files"@,
            }),
            (match program_files_x86 {
                Some(p) => p@,
                None => "C:\\Program Files (x86)"@,
            }),
        ],
{
    let first = match program_files {
        Some(p) => p,
        None => String::from_str("C:\\Program Files"),
    };
    let second = match program_files_x86 {
        Some(p) => p,
        None => String::from_str("C:\\Program Files (x86)"),
    };
    let ghost fv = first@;
    let ghost sv = second@;
    let mut r: Vec<String> = Vec::new();
    r.push(first);
    r.push(second);
    proof {
        assert(r.deep_view() =~= seq![fv, sv]);
    }
    r
}

/// The vendor directories to list under the given roots: each root joined
/// with each known vendor name, in order.
pub open spec fn spec_windows_vendor_dirs(roots: Seq<Seq<char>>) -> Seq<Seq<char>>
    decreases roots.len(),
{
    if roots.len() == 0 {
        Seq::empty()
    } else {
        spec_under_dir_paths(roots[0], "\\"@, ""@, spec_windows_vendor_names())
            + spec_windows_vendor_dirs(roots.skip(1))
    }
}

proof fn lemma_windows_vendor_dirs_push(roots: Seq<Seq<char>>, x: Seq<char>)
    ensures
        spec_windows_vendor_dirs(roots.push(x)) == spec_windows_vendor_dirs(roots)
            + spec_under_dir_paths(x, "\\"@, ""@, spec_windows_vendor_names()),
    decreases roots.len(),
{
    if roots.len() == 0 {
        assert(roots.push(x)[0] == x);
        assert(roots.push(x).skip(1) =~= roots);
        assert(spec_windows_vendor_dirs(roots.push(x)) =~~= spec_windows_vendor_dirs(roots)
            + spec_under_dir_paths(x, "\\"@, ""@, spec_windows_vendor_names()));
    } else {
        assert(roots.push(x)[0] == roots[0]);
        assert(roots.push(x).skip(1) =~= roots.skip(1).push(x));
        lemma_windows_vendor_dirs_push(roots.skip(1), x);
        assert(spec_windows_vendor_dirs(roots.push(x)) =~~= spec_windows_vendor_dirs(roots)
            + spec_under_dir_paths(x, "\\"@, ""@, spec_windows_vendor_names()));
    }
}

/// The base directories whose entries become Windows candidates: every
/// vendor-named directory under each Program Files root.
pub fn windows_vendor_dirs(roots: &Vec<String>) -> (r: Vec<String>)
    ensures
        r.deep_view() == spec_windows_vendor_dirs(roots.deep_view()),
{
    let vendors: Vec<String> = vec![
        String::from_str("Java"),
        String::from_str("Eclipse Adoptium"),
        String::from_str("AdoptOpenJDK"),
        String::from_str("Microsoft"),
        String::from_str("Zulu"),
        String::from_str("Amazon Corretto"),
        String::from_str("BellSoft"),
    ];
    proof {
        assert(vendors.deep_view() =~~= spec_windows_vendor_names());
    }
    let ghost rv = roots.deep_view();
    let mut out: Vec<String> = Vec::new();
    let mut i: usize = 0;
    proof {
        assert(rv.take(0) =~= Seq::<Seq<char>>::empty());
        assert(out.deep_view() =~~= spec_windows_vendor_dirs(rv.take(0)));
    }
    while i < roots.len()
        invariant
            i <= roots@.len(),
            rv == roots.deep_view(),
            rv.len() == roots@.len(),
            vendors.deep_view() == spec_windows_vendor_names(),
            out.deep_view() == spec_windows_vendor_dirs(rv.take(i as int)),
        decreases roots@.len() - i,
    {
        proof {
            assert(rv[i as int] == roots@[i as int]@);
        }
        add_under_dir_paths(&mut out, roots[i].as_str(), "\\", "", &vendors);
        proof {
            assert(rv.take(i + 1) =~= rv.take(i as int).push(rv[i as int]));
            lemma_windows_vendor_dirs_push(rv.take(i as int), rv[i as int]);
            assert(out.deep_view() =~~= spec_windows_vendor_dirs(rv.take(i + 1)));
        }
        i = i + 1;
    }
    proof {
        assert(rv.take(roots@.len() as int) =~= rv);
    }
    out
}

/// The Windows candidates: each installed version directory under each
/// existing vendor directory, with `bin\java.exe` appended.
pub open spec fn spec_windows_candidates(listings: Seq<DirListingView>) -> Seq<Seq<char>>
    decreases listings.len(),
{
    if listings.len() == 0 {
        Seq::empty()
    } else {
        spec_under_dir_paths(listings[0].path, "\\"@, "\\bin\\java.exe"@, listings[0].entries)
            + spec_windows_candidates(listings.skip(1))
    }
}

proof fn lemma_windows_candidates_push(listings: Seq<DirListingView>, x: DirListingView)
    ensures
        spec_windows_candidates(listings.push(x)) == spec_windows_candidates(listings)
            + spec_under_dir_paths(x.path, "\\"@, "\\bin\\java.exe"@, x.entries),
    decreases listings.len(),
{
    if listings.len() == 0 {
        assert(listings.push(x)[0] == x);
        assert(listings.push(x).skip(1) =~= listings);
        assert(spec_windows_candidates(listings.push(x)) =~~= spec_windows_candidates(listings)
            + spec_under_dir_paths(x.path, "\\"@, "\\bin\\java.exe"@, x.entries));
    } else {
        assert(listings.push(x)[0] == listings[0]);
        assert(listings.push(x).skip(1) =~= listings.skip(1).push(x));
        lemma_windows_candidates_push(listings.skip(1), x);
        assert(spec_windows_candidates(listings.push(x)) =~~= spec_windows_candidates(listings)
            + spec_under_dir_paths(x.path, "\\"@, "\\bin\\java.exe"@, x.entries));
    }
}

/// Build the Windows candidate list from the listed vendor directories.
pub fn collect_windows_candidates(listings: &Vec<DirListing>) -> (r: Vec<String>)
    ensures
        r.deep_view() == spec_windows_candidates(listings.deep_view()),
{
    let ghost lv = listings.deep_view();
    let mut out: Vec<String> = Vec::new();
    let mut i: usize = 0;
    proof {
        assert(lv.take(0) =~= Seq::<DirListingView>::empty());
        assert(out.deep_view() =~~= spec_windows_candidates(lv.take(0)));
    }
    while i < listings.len()
        invariant
            i <= listings@.len(),
            lv == listings.deep_view(),
            lv.len() == listings@.len(),
            out.deep_view() == spec_windows_candidates(lv.take(i as int)),
        decreases listings@.len() - i,
    {
        proof {
            assert(lv[i as int] == listings@[i as int]@);
        }
        add_under_dir_paths(
            &mut out,
            listings[i].path.as_str(),
            "\\",
            "\\bin\\java.exe",
            &listings[i].entries,
        );
        proof {
            assert(lv.take(i + 1) =~= lv.take(i as int).push(lv[i as int]));
            lemma_windows_candidates_push(lv.take(i as int), lv[i as int]);
            assert(out.deep_view() =~~= spec_windows_candidates(lv.take(i + 1)));
        }
        i = i + 1;
    }
    proof {
        assert(lv.take(listings@.len() as int) =~= lv);
    }
    out
}

/// What the application saw on a Linux host: the listings of the standard
/// JVM directories that exist, and the entry names under the Snap root.
#[derive(Debug, Clone)]
pub struct LinuxSnapshot {
    pub jvm_listings: Vec<DirListing>,
    pub snap_entries: Option<Vec<String>>,
}

/// Mathematical model of a `LinuxSnapshot`.
pub struct LinuxSnapshotView {
    pub jvm_listings: Seq<DirListingView>,
    pub snap_entries: Option<Seq<Seq<char>>>,
}

impl View for LinuxSnapshot {
    type V = LinuxSnapshotView;

    open spec fn view(&self) -> LinuxSnapshotView {
        LinuxSnapshotView {
            jvm_listings: self.jvm_listings.deep_view(),
            snap_entries: opt_strs_view(self.snap_entries),
        }
    }
}

/// The standard system JVM directories probed on Linux, in order.
pub fn linux_jvm_dirs() -> (r: Vec<String>)
    ensures
        r.deep_view() =~= seq!["/usr/lib/jvm"@, "/usr/lib64/jvm"@, "/usr/java"@],
{
    let r: Vec<String> = vec![
        String::from_str("/usr/lib/jvm"),
        String::from_str("/usr/lib64/jvm"),
        String::from_str("/usr/java"),
    ];
    proof {
        assert(r.deep_view() =~= seq!["/usr/lib/jvm"@, "/usr/lib64/jvm"@, "/usr/java"@]);
    }
    r
}

/// Candidates from the standard JVM directories: each entry's `bin/java`.
pub open spec fn spec_linux_jvm_paths(listings: Seq<DirListingView>) -> Seq<Seq<char>>
    decreases listings.len(),
{
    if listings.len() == 0 {
        Seq::empty()
    } else {
        spec_under_dir_paths(listings[0].path, "/"@, "/bin/java"@, listings[0].entries)
            + spec_linux_jvm_paths(listings.skip(1))
    }
}

proof fn lemma_linux_jvm_paths_push(listings: Seq<DirListingView>, x: DirListingView)
    ensures
        spec_linux_jvm_paths(listings.push(x)) == spec_linux_jvm_paths(listings)
            + spec_under_dir_paths(x.path, "/"@, "/bin/java"@, x.entries),
    decreases listings.len(),
{
    if listings.len() == 0 {
        assert(listings.push(x)[0] == x);
        assert(listings.push(x).skip(1) =~= listings);
        assert(spec_linux_jvm_paths(listings.push(x)) =~~= spec_linux_jvm_paths(listings)
            + spec_under_dir_paths(x.path, "/"@, "/bin/java"@, x.entries));
    } else {
        assert(listings.push(x)[0] == listings[0]);
        assert(listings.push(x).skip(1) =~= listings.skip(1).push(x));
        lemma_linux_jvm_paths_push(listings.skip(1), x);
        assert(spec_linux_jvm_paths(listings.push(x)) =~~= spec_linux_jvm_paths(listings)
            + spec_under_dir_paths(x.path, "/"@, "/bin/java"@, x.entries));
    }
}

/// The candidate one Snap entry contributes: names suggesting a JDK get
/// their `current/jdk/bin/java` symlink path.
pub open spec fn spec_snap_entry_paths(n: Seq<char>) -> Seq<Seq<char>> {
    if contains_seq(n, "openjdk"@) || contains_seq(n, "java"@) {
        seq!["/snap/"@ + n + "/current/jdk/bin/java"@]
    } else {
        Seq::<Seq<char>>::empty()
    }
}

/// Candidates from Snap-packaged JDKs, in listing order.
pub open spec fn spec_snap_paths(names: Seq<Seq<char>>) -> Seq<Seq<char>>
    decreases names.len(),
{
    if names.len() == 0 {
        Seq::empty()
    } else {
        spec_snap_entry_paths(names[0]) + spec_snap_paths(names.skip(1))
    }
}

proof fn lemma_snap_paths_push(names: Seq<Seq<char>>, x: Seq<char>)
    ensures
        spec_snap_paths(names.push(x)) == spec_snap_paths(names) + spec_snap_entry_paths(x),
    decreases names.len(),
{
    if names.len() == 0 {
        assert(names.push(x)[0] == x);
        assert(names.push(x).skip(1) =~= names);
        assert(spec_snap_paths(names.push(x)) =~~= spec_snap_paths(names) + spec_snap_entry_paths(
            x,
        ));
    } else {
        assert(names.push(x)[0] == names[0]);
        assert(names.push(x).skip(1) =~= names.skip(1).push(x));
        lemma_snap_paths_push(names.skip(1), x);
        assert(spec_snap_paths(names.push(x)) =~~= spec_snap_paths(names) + spec_snap_entry_paths(
            x,
        ));
    }
}

fn add_snap_paths(out: &mut Vec<String>, names: &Vec<String>)
    ensures
        final(out).deep_view() == old(out).deep_view() + spec_snap_paths(names.deep_view()),
{
    let ghost base0 = out.deep_view();
    let ghost nv = names.deep_view();
    let mut i: usize = 0;
    proof {
        assert(nv.take(0) =~= Seq::<Seq<char>>::empty());
        assert(out.deep_view() =~~= base0 + spec_snap_paths(nv.take(0)));
    }
    while i < names.len()
        invariant
            i <= names@.len(),
            nv == names.deep_view(),
            nv.len() == names@.len(),
            out.deep_view() == base0 + spec_snap_paths(nv.take(i as int)),
        decreases names@.len() - i,
    {
        let ghost od = out.deep_view();
        proof {
            assert(nv[i as int] == names@[i as int]@);
        }
        if str_contains(names[i].as_str(), "openjdk") || str_contains(names[i].as_str(), "java") {
            let mut p = String::from_str("/snap/");
            p.append(names[i].as_str());
            p.append("/current/jdk/bin/java");
            out.push(p);
        }
        proof {
            assert(out.deep_view() =~~= od + spec_snap_entry_paths(nv[i as int]));
            assert(nv.take(i + 1) =~= nv.take(i as int).push(nv[i as int]));
            lemma_snap_paths_push(nv.take(i as int), nv[i as int]);
            assert(out.deep_view() =~~= base0 + spec_snap_paths(nv.take(i + 1)));
        }
        i = i + 1;
    }
    proof {
        assert(nv.take(names@.len() as int) =~= nv);
    }
}

/// The Linux candidates: the system java, every entry of the standard JVM
/// directories, and Snap-packaged JDKs.
pub open spec fn spec_linux_candidates(l: LinuxSnapshotView) -> Seq<Seq<char>> {
    seq!["/usr/bin/java"@] + spec_linux_jvm_paths(l.jvm_listings) + (match l.snap_entries {
        Some(ns) => spec_snap_paths(ns),
        None => Seq::<Seq<char>>::empty(),
    })
}

/// Build the Linux candidate list from a host snapshot.
pub fn collect_linux_candidates(snapshot: &LinuxSnapshot) -> (r: Vec<String>)
    ensures
        r.deep_view() == spec_linux_candidates(snapshot@),
{
    let mut out: Vec<String> = Vec::new();
    out.push(String::from_str("/usr/bin/java"));
    proof {
        assert(out.deep_view() =~~= seq!["/usr/bin/java"@]);
    }
    let ghost lv = snapshot.jvm_listings.deep_view();
    let mut i: usize = 0;
    proof {
        assert(lv.take(0) =~= Seq::<DirListingView>::empty());
        assert(out.deep_view() =~~= seq!["/usr/bin/java"@] + spec_linux_jvm_paths(lv.take(0)));
    }
    while i < snapshot.jvm_listings.len()
        invariant
            i <= snapshot.jvm_listings@.len(),
            lv == snapshot.jvm_listings.deep_view(),
            lv.len() == snapshot.jvm_listings@.len(),
            out.deep_view() == seq!["/usr/bin/java"@] + spec_linux_jvm_paths(lv.take(i as int)),
        decreases snapshot.jvm_listings@.len() - i,
    {
        proof {
            assert(lv[i as int] == snapshot.jvm_listings@[i as int]@);
        }
        add_under_dir_paths(
            &mut out,
            snapshot.jvm_listings[i].path.as_str(),
            "/",
            "/bin/java",
            &snapshot.jvm_listings[i].entries,
        );
        proof {
            assert(lv.take(i + 1) =~= lv.take(i as int).push(lv[i as int]));
            lemma_linux_jvm_paths_push(lv.take(i as int), lv[i as int]);
            assert(out.deep_view() =~~= seq!["/usr/bin/java"@] + spec_linux_jvm_paths(
                lv.take(i + 1),
            ));
        }
        i = i + 1;
    }
    proof {
        assert(lv.take(snapshot.jvm_listings@.len() as int) =~= lv);
    }
    match &snapshot.snap_entries {
        Some(ns) => {
            add_snap_paths(&mut out, ns);
        },
        None => {},
    }
    proof {
        assert(out.deep_view() =~~= spec_linux_candidates(snapshot@));
    }
    out
}

/// What the application saw on a macOS host: the entries of the standard
/// per-version JVM directory, and the Homebrew formula directories under the
/// Apple-Silicon and Intel prefixes.
#[derive(Debug, Clone)]
pub struct MacSnapshot {
    pub jvm_machines: Option<Vec<String>>,
    pub homebrew_arm: Option<Vec<HomebrewEntry>>,
    pub homebrew_intel: Option<Vec<HomebrewEntry>>,
}

/// Mathematical model of a `MacSnapshot`.
pub struct MacSnapshotView {
    pub jvm_machines: Option<Seq<Seq<char>>>,
    pub homebrew_arm: Option<Seq<HomebrewEntryView>>,
    pub homebrew_intel: Option<Seq<HomebrewEntryView>>,
}

impl View for MacSnapshot {
    type V = MacSnapshotView;

    open spec fn view(&self) -> MacSnapshotView {
        MacSnapshotView {
            jvm_machines: opt_strs_view(self.jvm_machines),
            homebrew_arm: opt_homebrew_view(self.homebrew_arm),
            homebrew_intel: opt_homebrew_view(self.homebrew_intel),
        }
    }
}

/// The macOS candidates: the system java, every bundled JVM, and the
/// JDK-like Homebrew formulas of both prefixes.
pub open spec fn spec_mac_candidates(m: MacSnapshotView) -> Seq<Seq<char>> {
    seq!["/usr/bin/java"@] + (match m.jvm_machines {
        Some(ns) => spec_under_dir_paths(
            "/Library/Java/JavaVirtualMachines"@,
            "/"@,
            "/Contents/Home/bin/java"@,
            ns,
        ),
        None => Seq::<Seq<char>>::empty(),
    }) + (match m.homebrew_arm {
        Some(es) => spec_homebrew_paths("/opt/homebrew/opt"@, es),
        None => Seq::<Seq<char>>::empty(),
    }) + (match m.homebrew_intel {
        Some(es) => spec_homebrew_paths("/usr/local/opt"@, es),
        None => Seq::<Seq<char>>::empty(),
    })
}

/// Build the macOS candidate list from a host snapshot.
pub fn collect_macos_candidates(snapshot: &MacSnapshot) -> (r: Vec<String>)
    ensures
        r.deep_view() == spec_mac_candidates(snapshot@),
{
    let mut out: Vec<String> = Vec::new();
    out.push(String::from_str("/usr/bin/java"));
    proof {
        assert(out.deep_view() =~~= seq!["/usr/bin/java"@]);
    }
    match &snapshot.jvm_machines {
        Some(ns) => {
            add_under_dir_paths(
                &mut out,
                "/Library/Java/JavaVirtualMachines",
                "/",
                "/Contents/Home/bin/java",
                ns,
            );
        },
        None => {},
    }
    match &snapshot.homebrew_arm {
        Some(es) => {
            add_homebrew_paths(&mut out, "/opt/homebrew/opt", es);
        },
        None => {},
    }
    match &snapshot.homebrew_intel {
        Some(es) => {
            add_homebrew_paths(&mut out, "/usr/local/opt", es);
        },
        None => {},
    }
    proof {
        assert(out.deep_view() =~~= spec_mac_candidates(snapshot@));
    }
    out
}

/// What the application saw of the per-user version managers: the home
/// directory, and the entries of the version-manager java directories that
/// exist.
#[derive(Debug, Clone)]
pub struct CommonSnapshot {
    pub home: Option<String>,
    pub sdkman_names: Option<Vec<String>>,
    pub asdf_names: Option<Vec<String>>,
}

/// Mathematical model of a `CommonSnapshot`.
pub struct CommonSnapshotView {
    pub home: Option<Seq<char>>,
    pub sdkman_names: Option<Seq<Seq<char>>>,
    pub asdf_names: Option<Seq<Seq<char>>>,
}

impl View for CommonSnapshot {
    type V = CommonSnapshotView;

    open spec fn view(&self) -> CommonSnapshotView {
        CommonSnapshotView {
            home: (match self.home {
                Some(h) => Some(h@),
                None => None,
            }),
            sdkman_names: opt_strs_view(self.sdkman_names),
            asdf_names: opt_strs_view(self.asdf_names),
        }
    }
}

/// The `bin/java` tail under an installed version directory.
pub open spec fn spec_exe_tail(os: Os) -> Seq<char> {
    spec_sep(os) + "bin"@ + spec_sep(os) + spec_java_exe(os)
}

fn exe_tail(os: Os) -> (r: String)
    ensures
        r@ == spec_exe_tail(os),
{
    let mut r = String::from_str(sep_str(os));
    r.append("bin");
    r.append(sep_str(os));
    r.append(java_executable_name(os));
    r
}

/// The version-manager java directory under a home directory.
pub open spec fn spec_sdkman_java_dir(os: Os, home: Seq<char>) -> Seq<char> {
    spec_join(os, spec_join(os, spec_join(os, home, ".sdkman"@), "candidates"@), "java"@)
}

/// The alternate version-manager java directory under a home directory.
pub open spec fn spec_asdf_java_dir(os: Os, home: Seq<char>) -> Seq<char> {
    spec_join(os, spec_join(os, spec_join(os, home, ".asdf"@), "installs"@), "java"@)
}

/// The cross-platform candidates: every installed version under the
/// version-manager java directory except its `current` link, then the
/// `current` link itself, then every version of the alternate manager.
pub open spec fn spec_common_candidates(os: Os, c: CommonSnapshotView) -> Seq<Seq<char>> {
    match c.home {
        None => Seq::<Seq<char>>::empty(),
        Some(h) => (match c.sdkman_names {
            None => Seq::<Seq<char>>::empty(),
            Some(ns) => spec_under_dir_paths_excl(
                spec_sdkman_java_dir(os, h),
                spec_sep(os),
                spec_exe_tail(os),
                "current"@,
                ns,
            ) + seq![
                spec_under_dir_path(
                    spec_sdkman_java_dir(os, h),
                    spec_sep(os),
                    spec_exe_tail(os),
                    "current"@,
                ),
            ],
        }) + (match c.asdf_names {
            None => Seq::<Seq<char>>::empty(),
            Some(ns) => spec_under_dir_paths(
                spec_asdf_java_dir(os, h),
                spec_sep(os),
                spec_exe_tail(os),
                ns,
            ),
        }),
    }
}

/// Build the cross-platform candidate list from a host snapshot.
pub fn collect_common_candidates(os: Os, snapshot: &CommonSnapshot) -> (r: Vec<String>)
    ensures
        r.deep_view() == spec_common_candidates(os, snapshot@),
{
    let mut out: Vec<String> = Vec::new();
    proof {
        assert(out.deep_view() =~~= Seq::<Seq<char>>::empty());
    }
    match &snapshot.home {
        None => {},
        Some(home) => {
            let sdkman_dir = path_join(
                os,
                path_join(os, path_join(os, home.as_str(), ".sdkman").as_str(), "candidates").as_str(),
                "java",
            );
            let tail = exe_tail(os);
            match &snapshot.sdkman_names {
                None => {},
                Some(ns) => {
                    add_under_dir_paths_excl(
                        &mut out,
                        sdkman_dir.as_str(),
                        sep_str(os),
                        tail.as_str(),
                        "current",
                        ns,
                    );
                    let mut p = String::from_str(sdkman_dir.as_str());
                    p.append(sep_str(os));
                    p.append("current");
                    p.append(tail.as_str());
                    let ghost pv = p@;
                    let ghost od = out.deep_view();
                    out.push(p);
                    proof {
                        assert(out.deep_view() =~= od.push(pv));
                    }
                },
            }
            let asdf_dir = path_join(
                os,
                path_join(os, path_join(os, home.as_str(), ".asdf").as_str(), "installs").as_str(),
                "java",
            );
            match &snapshot.asdf_names {
                None => {},
                Some(ns) => {
                    add_under_dir_paths(
                        &mut out,
                        asdf_dir.as_str(),
                        sep_str(os),
                        tail.as_str(),
                        ns,
                    );
                },
            }
        },
    }
    proof {
        assert(out.deep_view() =~~= spec_common_candidates(os, snapshot@));
    }
    out
}

/// Everything the application saw of the host that the locator reads.
#[derive(Debug, Clone)]
pub struct SystemSnapshot {
    pub java_home: Option<String>,
    pub mac: MacSnapshot,
    pub windows_listings: Vec<DirListing>,
    pub linux: LinuxSnapshot,
    pub common: CommonSnapshot,
}

/// Mathematical model of a `SystemSnapshot`.
pub struct SystemSnapshotView {
    pub java_home: Option<Seq<char>>,
    pub mac: MacSnapshotView,
    pub windows_listings: Seq<DirListingView>,
    pub linux: LinuxSnapshotView,
    pub common: CommonSnapshotView,
}

impl View for SystemSnapshot {
    type V = SystemSnapshotView;

    open spec fn view(&self) -> SystemSnapshotView {
        SystemSnapshotView {
            java_home: (match self.java_home {
                Some(h) => Some(h@),
                None => None,
            }),
            mac: self.mac@,
            windows_listings: self.windows_listings.deep_view(),
            linux: self.linux@,
            common: self.common@,
        }
    }
}

/// All candidate paths, in probing order: the environment-declared home
/// first, then the platform sources, then the version managers.
pub open spec fn spec_all_candidates(os: Os, s: SystemSnapshotView) -> Seq<Seq<char>> {
    (match s.java_home {
        Some(h) => seq![spec_join(os, spec_join(os, h, "bin"@), spec_java_exe(os))],
        None => Seq::<Seq<char>>::empty(),
    }) + (match os {
        Os::MacOs => spec_mac_candidates(s.mac),
        Os::Windows => spec_windows_candidates(s.windows_listings),
        Os::Linux => spec_linux_candidates(s.linux),
    }) + spec_common_candidates(os, s.common)
}

/// Gather every candidate java path for the host snapshot.
pub fn collect_java_candidates(os: Os, snapshot: &SystemSnapshot) -> (r: Vec<String>)
    ensures
        r.deep_view() == spec_all_candidates(os, snapshot@),
{
    let mut out: Vec<String> = Vec::new();
    proof {
        assert(out.deep_view() =~~= Seq::<Seq<char>>::empty());
    }
    match &snapshot.java_home {
        Some(h) => {
            let p = path_join(os, path_join(os, h.as_str(), "bin").as_str(), java_executable_name(os));
            let ghost pv = p@;
            let ghost od = out.deep_view();
            out.push(p);
            proof {
                assert(out.deep_view() =~= od.push(pv));
            }
        },
        None => {},
    }
    let ghost after_home = out.deep_view();
    let mut platform = match os {
        Os::MacOs => collect_macos_candidates(&snapshot.mac),
        Os::Windows => collect_windows_candidates(&snapshot.windows_listings),
        Os::Linux => collect_linux_candidates(&snapshot.linux),
    };
    let ghost platform_v = platform.deep_view();
    append_paths(&mut out, platform);
    let mut common = collect_common_candidates(os, &snapshot.common);
    append_paths(&mut out, common);
    proof {
        assert(out.deep_view() =~~= spec_all_candidates(os, snapshot@));
    }
    out
}

/// Move every path of `extra` to the end of `out`, in order.
fn append_paths(out: &mut Vec<String>, extra: Vec<String>)
    ensures
        final(out).deep_view() == old(out).deep_view() + extra.deep_view(),
{
    let ghost base0 = out.deep_view();
    let ghost xv = extra.deep_view();
    let n: usize = extra.len();
    let mut rest = extra;
    let mut i: usize = 0;
    proof {
        assert(xv.take(0) =~= Seq::<Seq<char>>::empty());
        assert(out.deep_view() =~~= base0 + xv.take(0));
    }
    while i < n
        invariant
            i <= n,
            n == rest@.len(),
            xv == rest.deep_view(),
            xv.len() == n,
            out.deep_view() == base0 + xv.take(i as int),
        decreases n - i,
    {
        let p = rest[i].clone();
        let ghost pv = p@;
        proof {
            assert(xv[i as int] == rest@[i as int]@);
            assert(pv == xv[i as int]);
        }
        let ghost od = out.deep_view();
        out.push(p);
        proof {
            assert(out.deep_view() =~= od.push(pv));
            assert(xv.take(i + 1) =~= xv.take(i as int).push(xv[i as int]));
            assert(out.deep_view() =~~= base0 + xv.take(i + 1));
        }
        i = i + 1;
    }
    proof {
        assert(xv.take(n as int) =~= xv);
    }
}

} // verus!
