//! Native-library bundling guidance.
//!
//! Two classes of native files usually travel next to a product built on
//! shirabe: the browser backend's own runtime dependencies, and the product's
//! own native libraries. [`BundleSpec`] lists the second class (from
//! `SHIRABE_BUNDLE_LIBS` and a `bundle.toml` manifest), [`collect_runtime_deps`]
//! enumerates the first from the output of a dependency scan, and [`render`]
//! turns a [`BundleReport`] into the guidance a release script prints.
use vstd::prelude::*;

use crate::platform::Platform;
use crate::text::{
    push_str, after_last, after_last_start, find_from, find_str, find_ws, lemma_find_from, split_on, ws_from,
    find_char, index_from, lemma_split_on_len, lemma_index_from, split_bounds, pieces, range_eq, split_lines,
    string_from_range, str_chars, strip_char, strip_range, trim, trim_range,
};

verus! {

/// A native library the user wants shipped next to their product.
#[derive(Debug, Clone, PartialEq, Eq)]
pub struct NativeLib {
    /// Absolute or manifest-relative path to the file.
    pub path: String,
    /// If true, a missing file is a warning rather than an error.
    pub optional: bool,
    /// Restrict the lib to a target OS (`linux`, `windows`, `macos`). `None`
    /// means "everywhere".
    pub target_os: Option<String>,
}

/// The mathematical form of a [`NativeLib`].
pub struct LibView {
    pub path: Seq<char>,
    pub optional: bool,
    pub target_os: Option<Seq<char>>,
}

impl View for NativeLib {
    type V = LibView;

    open spec fn view(&self) -> LibView {
        LibView { path: self.path@, optional: self.optional, target_os: self.target_os.deep_view() }
    }
}

impl DeepView for NativeLib {
    type V = LibView;

    open spec fn deep_view(&self) -> LibView {
        self@
    }
}

/// The views of a sequence of libraries.
pub open spec fn libs_view(libs: Seq<NativeLib>) -> Seq<LibView> {
    libs.map_values(|l: NativeLib| l@)
}

/// A `[[lib]]` table before any key is read.
pub open spec fn empty_lib() -> LibView {
    LibView { path: Seq::empty(), optional: false, target_os: None }
}

/// `lib` with `key = val` applied: `path` sets the path, `optional` is true
/// exactly for the value `true`, `target_os` sets the target OS; other keys
/// are ignored.
pub open spec fn set_field(lib: LibView, key: Seq<char>, val: Seq<char>) -> LibView {
    if key == "path"@ {
        LibView { path: val, ..lib }
    } else if key == "optional"@ {
        LibView { optional: val == "true"@, ..lib }
    } else if key == "target_os"@ {
        LibView { target_os: Some(val), ..lib }
    } else {
        lib
    }
}

/// A manifest value without surrounding double quotes, then single quotes.
pub open spec fn unquote(v: Seq<char>) -> Seq<char> {
    strip_char(strip_char(v, '"'), '\'')
}

/// The libraries finished so far, and the table being read.
pub struct ManifestState {
    pub out: Seq<LibView>,
    pub cur: Option<LibView>,
}

/// `out` with the table `cur` finished: a table is kept only when it sets a
/// non-empty path, which every library requires.
pub open spec fn finish_table(out: Seq<LibView>, cur: Option<LibView>) -> Seq<LibView> {
    match cur {
        Some(l) => if l.path.len() > 0 {
            out.push(l)
        } else {
            out
        },
        None => out,
    }
}

/// Reading one raw line of a manifest. A `[[lib]]` line finishes the table
/// being read (kept only with a path) and opens a new one; a `key = value` line
/// sets a field of the open table; other lines, and lines before the first
/// table, change nothing.
pub open spec fn manifest_step(st: ManifestState, raw: Seq<char>) -> ManifestState {
    let line = trim(raw);
    if line == "[[lib]]"@ {
        ManifestState { out: finish_table(st.out, st.cur), cur: Some(empty_lib()) }
    } else {
        match index_from(line, '=', 0) {
            None => st,
            Some(k) => match st.cur {
                None => st,
                Some(lib) => ManifestState {
                    cur: Some(
                        set_field(lib, trim(line.take(k)), unquote(trim(line.skip(k + 1)))),
                    ),
                    ..st
                },
            },
        }
    }
}

/// The libraries of a manifest once every line is read: the last table is
/// finished too.
pub open spec fn manifest_finish(st: ManifestState) -> Seq<LibView> {
    finish_table(st.out, st.cur)
}

/// The state after reading `lines`.
pub open spec fn manifest_fold(lines: Seq<Seq<char>>) -> ManifestState {
    lines.fold_left(
        ManifestState { out: Seq::empty(), cur: None },
        |st: ManifestState, l: Seq<char>| manifest_step(st, l),
    )
}

/// The libraries that the `[[lib]]` tables of a `bundle.toml` text declare.
pub open spec fn manifest_spec(text: Seq<char>) -> Seq<LibView> {
    manifest_finish(manifest_fold(split_lines(text)))
}

/// Whether every library of `libs` has a non-empty path.
pub open spec fn all_have_paths(libs: Seq<LibView>) -> bool {
    forall|i: int| 0 <= i < libs.len() ==> (#[trigger] libs[i]).path.len() > 0
}

/// Finishing a table keeps every library with a path.
proof fn lemma_finish_table(out: Seq<LibView>, cur: Option<LibView>)
    requires
        all_have_paths(out),
    ensures
        all_have_paths(finish_table(out, cur)),
{
    if let Some(l) = cur {
        if l.path.len() > 0 {
            assert forall|i: int| 0 <= i < out.push(l).len() implies (#[trigger] out.push(
                l,
            )[i]).path.len() > 0 by {
                if i < out.len() {
                    assert(out.push(l)[i] == out[i]);
                }
            }
        }
    }
}

/// Reading lines keeps every finished library with a path.
proof fn lemma_fold_paths(lines: Seq<Seq<char>>)
    ensures
        all_have_paths(manifest_fold(lines).out),
    decreases lines.len(),
{
    if lines.len() > 0 {
        lemma_fold_paths(lines.drop_last());
        let st = manifest_fold(lines.drop_last());
        assert(manifest_fold(lines) == manifest_step(st, lines.last()));
        lemma_finish_table(st.out, st.cur);
    }
}

/// `path` is required: every library a manifest yields has a non-empty path,
/// wherever its table stands.
pub proof fn manifest_libs_have_paths(text: Seq<char>)
    ensures
        all_have_paths(manifest_spec(text)),
{
    let st = manifest_fold(split_lines(text));
    lemma_fold_paths(split_lines(text));
    lemma_finish_table(st.out, st.cur);
}

/// Finishes the table `cur` into `out`: keeps it only when its path is set.
fn finish_into(out: &mut Vec<NativeLib>, cur: Option<NativeLib>)
    ensures
        libs_view(final(out)@) == finish_table(libs_view(old(out)@), cur.deep_view()),
{
    match cur {
        Some(l) => {
            if !l.path.as_str().is_empty() {
                out.push(l);
                assert(libs_view(out@) =~= libs_view(old(out)@).push(l@));
            }
        },
        None => {},
    }
}

/// Applies one raw line `v[lo..hi]` of a manifest to `out` and `cur`.
fn manifest_line(
    out: &mut Vec<NativeLib>,
    cur: &mut Option<NativeLib>,
    v: &Vec<char>,
    lo: usize,
    hi: usize,
)
    requires
        lo <= hi <= v.len(),
    ensures
        ({
            let st = manifest_step(
                ManifestState { out: libs_view(old(out)@), cur: old(cur).deep_view() },
                v@.subrange(lo as int, hi as int),
            );
            &&& libs_view(final(out)@) == st.out
            &&& final(cur).deep_view() == st.cur
        }),
{
    let (a, b) = trim_range(v, lo, hi);
    let ghost line = v@.subrange(a as int, b as int);
    if range_eq(v, a, b, "[[lib]]") {
        let prev = cur.take();
        finish_into(out, prev);
        *cur = Some(NativeLib { path: String::new(), optional: false, target_os: None });
        return ;
    }
    match find_char(v, a, b, '=') {
        None => {},
        Some(k) => {
            proof {
                lemma_index_from(line, '=', 0);
            }
            match cur {
                None => {},
                Some(lib) => {
                    let (ka, kb) = trim_range(v, a, a + k);
                    let (va0, vb0) = trim_range(v, a + k + 1, b);
                    let (va1, vb1) = strip_range(v, va0, vb0, '"');
                    let (va, vb) = strip_range(v, va1, vb1, '\'');
                    assert(line.take(k as int) =~= v@.subrange(a as int, a + k));
                    assert(line.skip(k + 1) =~= v@.subrange(a + k + 1, b as int));
                    if range_eq(v, ka, kb, "path") {
                        lib.path = string_from_range(v, va, vb);
                    } else if range_eq(v, ka, kb, "optional") {
                        lib.optional = range_eq(v, va, vb, "true");
                    } else if range_eq(v, ka, kb, "target_os") {
                        lib.target_os = Some(string_from_range(v, va, vb));
                    }
                },
            }
        },
    }
}

/// Minimal `bundle.toml` parser: `[[lib]]` tables with `path` (required),
/// `optional` (bool, default false), `target_os` (string, optional).
pub fn parse_manifest(text: &str) -> (r: Vec<NativeLib>)
    ensures
        libs_view(r@) == manifest_spec(text@),
{
    let v = str_chars(text);
    let bounds = split_bounds(&v, '\n');
    let ghost lines = split_lines(v@);
    let mut out: Vec<NativeLib> = Vec::new();
    let mut cur: Option<NativeLib> = None;
    let mut k: usize = 0;
    assert(lines.take(0) =~= Seq::<Seq<char>>::empty());
    assert(libs_view(out@) =~= Seq::<LibView>::empty());
    while k < bounds.len()
        invariant
            v@ == text@,
            lines == split_lines(v@),
            pieces(v@, bounds@) == lines,
            forall|j: int| 0 <= j < bounds@.len() ==> (#[trigger] bounds@[j]).0 <= bounds@[j].1 <= v@.len(),
            k <= bounds@.len(),
            manifest_fold(lines.take(k as int)) == (ManifestState {
                out: libs_view(out@),
                cur: cur.deep_view(),
            }),
        decreases bounds@.len() - k,
    {
        let (lo, hi) = bounds[k];
        assert(bounds@[k as int] == (lo, hi));
        assert(lines[k as int] == v@.subrange(lo as int, hi as int));
        assert(lines.take(k + 1).drop_last() =~= lines.take(k as int));
        assert(lines.take(k + 1).last() == lines[k as int]);
        manifest_line(&mut out, &mut cur, &v, lo, hi);
        k = k + 1;
    }
    assert(lines.take(bounds@.len() as int) =~= lines);
    finish_into(&mut out, cur);
    out
}

/// Declarative bundle of native libraries to ship.
#[derive(Debug, Clone)]
pub struct BundleSpec {
    pub libs: Vec<NativeLib>,
}

/// The separator of `SHIRABE_BUNDLE_LIBS`: `;` on Windows, `:` elsewhere.
pub open spec fn path_list_sep(p: Platform) -> char {
    if p is Windows {
        ';'
    } else {
        ':'
    }
}

/// A library listed in `SHIRABE_BUNDLE_LIBS`: required, for every OS.
pub open spec fn listed_lib(path: Seq<char>) -> LibView {
    LibView { path, optional: false, target_os: None }
}

/// The libraries a `SHIRABE_BUNDLE_LIBS` value lists: its `sep`-separated
/// entries, trimmed, the empty ones skipped.
pub open spec fn listed_libs(raw: Seq<char>, sep: char) -> Seq<LibView> {
    split_on(raw, sep).fold_left(Seq::<LibView>::empty(), listed_step())
}

/// Reading one entry of a `SHIRABE_BUNDLE_LIBS` value.
pub open spec fn listed_step() -> spec_fn(Seq<LibView>, Seq<char>) -> Seq<LibView> {
    |acc: Seq<LibView>, e: Seq<char>|
        if trim(e).len() == 0 {
            acc
        } else {
            acc.push(listed_lib(trim(e)))
        }
}

/// The libraries of a bundle: those of `SHIRABE_BUNDLE_LIBS`, then those of
/// the manifest, each source only when it could be read.
pub open spec fn bundle_libs_spec(
    p: Platform,
    libs_var: Option<Seq<char>>,
    manifest_text: Option<Seq<char>>,
) -> Seq<LibView> {
    (match libs_var {
        Some(raw) => listed_libs(raw, path_list_sep(p)),
        None => Seq::empty(),
    }) + (match manifest_text {
        Some(t) => manifest_spec(t),
        None => Seq::empty(),
    })
}

impl BundleSpec {
    /// The bundle declared by the value of `SHIRABE_BUNDLE_LIBS` (a path-list
    /// of files to ship verbatim) and the text of the `bundle.toml` manifest
    /// that `SHIRABE_BUNDLE_MANIFEST` points at. Both may be given; their
    /// entries are merged. A source that could not be read is `None`.
    pub fn from_sources(p: Platform, libs_var: Option<&str>, manifest_text: Option<&str>) -> (r:
        BundleSpec)
        ensures
            libs_view(r.libs@) == bundle_libs_spec(p, libs_var.deep_view(), manifest_text.deep_view()),
    {
        let mut libs: Vec<NativeLib> = Vec::new();
        let sep = if p.is_windows() {
            ';'
        } else {
            ':'
        };
        match libs_var {
            Some(raw) => {
                let v = str_chars(raw);
                let bounds = split_bounds(&v, sep);
                let ghost entries = split_on(v@, sep);
                let ghost f = listed_step();
                let mut k: usize = 0;
                assert(entries.take(0) =~= Seq::<Seq<char>>::empty());
                assert(libs_view(libs@) =~= Seq::<LibView>::empty());
                while k < bounds.len()
                    invariant
                        v@ == raw@,
                        entries == split_on(v@, sep),
                        sep == path_list_sep(p),
                        pieces(v@, bounds@) == entries,
                        forall|j: int|
                            0 <= j < bounds@.len() ==> (#[trigger] bounds@[j]).0 <= bounds@[j].1
                                <= v@.len(),
                        k <= bounds@.len(),
                        f == listed_step(),
                        libs_view(libs@) == entries.take(k as int).fold_left(Seq::empty(), f),
                    decreases bounds@.len() - k,
                {
                    let (lo, hi) = bounds[k];
                    assert(bounds@[k as int] == (lo, hi));
                    assert(entries[k as int] == v@.subrange(lo as int, hi as int));
                    assert(entries.take(k + 1).drop_last() =~= entries.take(k as int));
                    assert(entries.take(k + 1).last() == entries[k as int]);
                    let (a, b) = trim_range(&v, lo, hi);
                    assert(entries.take(k + 1).fold_left(Seq::empty(), f) == f(
                        entries.take(k as int).fold_left(Seq::empty(), f),
                        entries[k as int],
                    ));
                    assert(trim(entries[k as int]) == v@.subrange(a as int, b as int));
                    if a < b {
                        let ghost before = libs_view(libs@);
                        libs.push(
                            NativeLib {
                                path: string_from_range(&v, a, b),
                                optional: false,
                                target_os: None,
                            },
                        );
                        assert(libs_view(libs@) =~= before.push(
                            listed_lib(v@.subrange(a as int, b as int)),
                        ));
                    }
                    k = k + 1;
                }
                assert(entries.take(bounds@.len() as int) =~= entries);
            },
            None => {
                assert(libs_view(libs@) =~= Seq::<LibView>::empty());
            },
        }
        match manifest_text {
            Some(t) => {
                let mut extra = parse_manifest(t);
                let ghost before = libs@;
                let ghost added = extra@;
                libs.append(&mut extra);
                assert(libs_view(libs@) =~= libs_view(before) + libs_view(added));
            },
            None => {
                assert(libs_view(libs@) =~= libs_view(libs@) + Seq::<LibView>::empty());
            },
        }
        BundleSpec { libs }
    }
}

/// A dependency discovered by scanning a binary.
#[derive(Debug, Clone, PartialEq, Eq)]
pub struct Dep {
    /// The name as the linker recorded it (e.g. `libnss3.so`).
    pub name: String,
    /// Where the resolver found it, if at all.
    pub resolved: Option<String>,
}

/// The mathematical form of a [`Dep`].
pub struct DepView {
    pub name: Seq<char>,
    pub resolved: Option<Seq<char>>,
}

impl View for Dep {
    type V = DepView;

    open spec fn view(&self) -> DepView {
        DepView { name: self.name@, resolved: self.resolved.deep_view() }
    }
}

/// The views of a sequence of dependencies.
pub open spec fn deps_view(deps: Seq<Dep>) -> Seq<DepView> {
    deps.map_values(|d: Dep| d@)
}

/// Appends the dependency a line gives, if it gives one.
pub open spec fn push_some(acc: Seq<DepView>, d: Option<DepView>) -> Seq<DepView> {
    match d {
        Some(x) => acc.push(x),
        None => acc,
    }
}

/// The dependency one line of `ldd` output records. Shapes:
/// `libnss3.so => /usr/lib/libnss3.so (0x...)`, `linux-vdso.so.1 =>  (0x...)`
/// (an empty path is unresolved), `libfoo.so.1 => not found` (unresolved)
/// and `/lib64/ld-linux-x86-64.so.2 (0x...)` (its first word is the name,
/// unresolved). Blank lines record nothing.
pub open spec fn ldd_line_spec(raw: Seq<char>) -> Option<DepView> {
    let line = trim(raw);
    if line.len() == 0 {
        None
    } else {
        match find_from(line, " => "@, 0) {
            Some(k) => {
                let rest = line.skip(k + 4);
                let path = match index_from(rest, '(', 0) {
                    Some(j) => trim(rest.take(j)),
                    None => trim(rest),
                };
                Some(
                    DepView {
                        name: trim(line.take(k)),
                        resolved: if path.len() == 0 || path == "not found"@ {
                            None
                        } else {
                            Some(path)
                        },
                    },
                )
            },
            None => Some(DepView { name: line.take(ws_from(line, 0)), resolved: None }),
        }
    }
}

/// The dependencies that `ldd` output records, one per non-blank line.
pub open spec fn ldd_spec(stdout: Seq<char>) -> Seq<DepView> {
    split_lines(stdout).fold_left(
        Seq::<DepView>::empty(),
        |acc: Seq<DepView>, l: Seq<char>| push_some(acc, ldd_line_spec(l)),
    )
}

/// The dependency that the line `v[lo..hi]` of `ldd` output records.
fn ldd_line(v: &Vec<char>, lo: usize, hi: usize) -> (r: Option<Dep>)
    requires
        lo <= hi <= v.len(),
    ensures
        match r {
            Some(d) => ldd_line_spec(v@.subrange(lo as int, hi as int)) == Some(d@),
            None => ldd_line_spec(v@.subrange(lo as int, hi as int)) is None,
        },
{
    let (a, b) = trim_range(v, lo, hi);
    let ghost line = v@.subrange(a as int, b as int);
    if a == b {
        return None;
    }
    proof {
        reveal_strlit(" => ");
    }
    match find_str(v, a, b, " => ") {
        Some(k) => {
            proof {
                lemma_find_from(line, " => "@, 0);
            }
            let (na, nb) = trim_range(v, a, a + k);
            let ra = a + k + 4;
            assert(line.take(k as int) =~= v@.subrange(a as int, a + k));
            assert(line.skip(k + 4) =~= v@.subrange(ra as int, b as int));
            let ghost rest = v@.subrange(ra as int, b as int);
            let (pa, pb) = match find_char(v, ra, b, '(') {
                Some(j) => {
                    proof {
                        lemma_index_from(rest, '(', 0);
                    }
                    assert(rest.take(j as int) =~= v@.subrange(ra as int, ra + j));
                    trim_range(v, ra, ra + j)
                },
                None => trim_range(v, ra, b),
            };
            let name = string_from_range(v, na, nb);
            let resolved = if pa == pb || range_eq(v, pa, pb, "not found") {
                None
            } else {
                Some(string_from_range(v, pa, pb))
            };
            Some(Dep { name, resolved })
        },
        None => {
            let e = find_ws(v, a, b);
            assert(line.take(e as int) =~= v@.subrange(a as int, a + e));
            Some(Dep { name: string_from_range(v, a, a + e), resolved: None })
        },
    }
}

/// Parses `ldd` output into one [`Dep`] per recorded dependency.
pub fn parse_ldd(stdout: &str) -> (r: Vec<Dep>)
    ensures
        deps_view(r@) == ldd_spec(stdout@),
{
    let v = str_chars(stdout);
    let bounds = split_bounds(&v, '\n');
    let ghost lines = split_lines(v@);
    let ghost f = |acc: Seq<DepView>, l: Seq<char>| push_some(acc, ldd_line_spec(l));
    let mut deps: Vec<Dep> = Vec::new();
    let mut k: usize = 0;
    assert(lines.take(0) =~= Seq::<Seq<char>>::empty());
    assert(deps_view(deps@) =~= Seq::<DepView>::empty());
    while k < bounds.len()
        invariant
            v@ == stdout@,
            lines == split_lines(v@),
            f == (|acc: Seq<DepView>, l: Seq<char>| push_some(acc, ldd_line_spec(l))),
            pieces(v@, bounds@) == lines,
            forall|j: int|
                0 <= j < bounds@.len() ==> (#[trigger] bounds@[j]).0 <= bounds@[j].1 <= v@.len(),
            k <= bounds@.len(),
            deps_view(deps@) == lines.take(k as int).fold_left(Seq::empty(), f),
        decreases bounds@.len() - k,
    {
        let (lo, hi) = bounds[k];
        assert(bounds@[k as int] == (lo, hi));
        assert(lines[k as int] == v@.subrange(lo as int, hi as int));
        assert(lines.take(k + 1).drop_last() =~= lines.take(k as int));
        assert(lines.take(k + 1).last() == lines[k as int]);
        let ghost before = deps_view(deps@);
        match ldd_line(&v, lo, hi) {
            Some(d) => {
                deps.push(d);
                assert(deps_view(deps@) =~= before.push(d@));
            },
            None => {},
        }
        k = k + 1;
    }
    assert(lines.take(bounds@.len() as int) =~= lines);
    deps
}

/// The dependency one line of `otool -L` output records: the path before
/// `(`, named by its last `/`-separated part, resolved when it starts with
/// `@` or is absolute. A line without `(` records nothing.
pub open spec fn otool_line_spec(raw: Seq<char>) -> Option<DepView> {
    let line = trim(raw);
    match index_from(line, '(', 0) {
        None => None,
        Some(k) => {
            let path = trim(line.take(k));
            Some(
                DepView {
                    name: after_last(path, '/'),
                    resolved: if path.len() > 0 && (path[0] == '@' || path[0] == '/') {
                        Some(path)
                    } else {
                        None
                    },
                },
            )
        },
    }
}

/// The dependencies that `otool -L` output records; its first line names the
/// binary itself and is skipped.
pub open spec fn otool_spec(stdout: Seq<char>) -> Seq<DepView> {
    split_lines(stdout).skip(1).fold_left(
        Seq::<DepView>::empty(),
        |acc: Seq<DepView>, l: Seq<char>| push_some(acc, otool_line_spec(l)),
    )
}

/// The dependency that the line `v[lo..hi]` of `otool -L` output records.
fn otool_line(v: &Vec<char>, lo: usize, hi: usize) -> (r: Option<Dep>)
    requires
        lo <= hi <= v.len(),
    ensures
        match r {
            Some(d) => otool_line_spec(v@.subrange(lo as int, hi as int)) == Some(d@),
            None => otool_line_spec(v@.subrange(lo as int, hi as int)) is None,
        },
{
    let (a, b) = trim_range(v, lo, hi);
    let ghost line = v@.subrange(a as int, b as int);
    match find_char(v, a, b, '(') {
        None => None,
        Some(k) => {
            proof {
                lemma_index_from(line, '(', 0);
            }
            assert(line.take(k as int) =~= v@.subrange(a as int, a + k));
            let (pa, pb) = trim_range(v, a, a + k);
            let s = after_last_start(v, pa, pb, '/');
            let name = string_from_range(v, s, pb);
            let resolved = if pa < pb && (v[pa] == '@' || v[pa] == '/') {
                Some(string_from_range(v, pa, pb))
            } else {
                None
            };
            Some(Dep { name, resolved })
        },
    }
}

/// Parses `otool -L` output into one [`Dep`] per recorded dependency.
pub fn parse_otool(stdout: &str) -> (r: Vec<Dep>)
    ensures
        deps_view(r@) == otool_spec(stdout@),
{
    let v = str_chars(stdout);
    let bounds = split_bounds(&v, '\n');
    let ghost all = split_lines(v@);
    let ghost lines = all.skip(1);
    let ghost f = |acc: Seq<DepView>, l: Seq<char>| push_some(acc, otool_line_spec(l));
    let mut deps: Vec<Dep> = Vec::new();
    let mut k: usize = 1;
    proof {
        lemma_split_on_len(v@, '\n');
    }
    assert(bounds@.len() >= 1);
    assert(lines.take(0) =~= Seq::<Seq<char>>::empty());
    assert(deps_view(deps@) =~= Seq::<DepView>::empty());
    while k < bounds.len()
        invariant
            v@ == stdout@,
            all == split_lines(v@),
            lines == all.skip(1),
            f == (|acc: Seq<DepView>, l: Seq<char>| push_some(acc, otool_line_spec(l))),
            pieces(v@, bounds@) == all,
            forall|j: int|
                0 <= j < bounds@.len() ==> (#[trigger] bounds@[j]).0 <= bounds@[j].1 <= v@.len(),
            1 <= k <= bounds@.len(),
            deps_view(deps@) == lines.take(k - 1).fold_left(Seq::empty(), f),
        decreases bounds@.len() - k,
    {
        let (lo, hi) = bounds[k];
        assert(bounds@[k as int] == (lo, hi));
        assert(lines[k - 1] == all[k as int]);
        assert(all[k as int] == v@.subrange(lo as int, hi as int));
        assert(lines.take(k as int).drop_last() =~= lines.take(k - 1));
        assert(lines.take(k as int).last() == lines[k - 1]);
        let ghost before = deps_view(deps@);
        match otool_line(&v, lo, hi) {
            Some(d) => {
                deps.push(d);
                assert(deps_view(deps@) =~= before.push(d@));
            },
            None => {},
        }
        k = k + 1;
    }
    assert(lines.take(bounds@.len() - 1) =~= lines);
    deps
}

/// Whether `b` is an ASCII letter or digit.
pub open spec fn is_alnum(b: u8) -> bool {
    (48 <= b <= 57) || (65 <= b <= 90) || (97 <= b <= 122)
}

/// The ASCII lower case of byte `b`.
pub open spec fn lower_byte(b: u8) -> u8 {
    if 65 <= b <= 90 {
        (b + 32) as u8
    } else {
        b
    }
}

/// Whether `b` may stand in a DLL name: a letter, digit, `_`, `-` or `.`.
pub open spec fn is_name_byte(b: u8) -> bool {
    is_alnum(b) || b == 95 || b == 45 || b == 46
}

/// Whether the five bytes at `w` read `X.dll` (any case), `X` a letter or digit.
pub open spec fn dll_at(b: Seq<u8>, w: int) -> bool {
    &&& 0 <= w
    &&& w + 5 <= b.len()
    &&& is_alnum(b[w])
    &&& b[w + 1] == 46
    &&& lower_byte(b[w + 2]) == 100
    &&& lower_byte(b[w + 3]) == 108
    &&& lower_byte(b[w + 4]) == 108
}

/// Where the name ending before `s` starts: walk back over name bytes.
pub open spec fn token_start(b: Seq<u8>, s: int) -> int
    decreases s,
{
    if 0 < s <= b.len() && is_name_byte(b[s - 1]) {
        token_start(b, s - 1)
    } else {
        s
    }
}

/// The DLL name that ends with the `X.dll` at `w`, in lower case.
pub open spec fn pe_token(b: Seq<u8>, w: int) -> Seq<char> {
    b.subrange(token_start(b, w), w + 5).map_values(|x: u8| lower_byte(x) as char)
}

/// The DLL names found at window positions before `n`, each once, in the
/// order of their first occurrence.
pub open spec fn pe_names(b: Seq<u8>, n: int) -> Seq<Seq<char>>
    decreases n,
{
    if n <= 0 {
        Seq::empty()
    } else {
        let acc = pe_names(b, n - 1);
        if dll_at(b, n - 1) && !acc.contains(pe_token(b, n - 1)) {
            acc.push(pe_token(b, n - 1))
        } else {
            acc
        }
    }
}

/// An unresolved dependency named `n`.
pub open spec fn unresolved(n: Seq<char>) -> DepView {
    DepView { name: n, resolved: None }
}

/// The DLLs a PE image imports, found by scanning its bytes for the ASCII
/// `name.dll` tails of the import directory: every 5-byte window is tried.
pub open spec fn pe_spec(b: Seq<u8>) -> Seq<DepView> {
    let n = if b.len() >= 5 {
        b.len() - 4
    } else {
        0
    };
    pe_names(b, n).map_values(|nm: Seq<char>| unresolved(nm))
}

/// Whether byte `b` is an ASCII letter or digit.
fn alnum(b: u8) -> (r: bool)
    ensures
        r == is_alnum(b),
{
    (48 <= b && b <= 57) || (65 <= b && b <= 90) || (97 <= b && b <= 122)
}

/// The ASCII lower case of byte `b`.
fn lower(b: u8) -> (r: u8)
    ensures
        r == lower_byte(b),
{
    if 65 <= b && b <= 90 {
        b + 32
    } else {
        b
    }
}

/// Best-effort PE import scan: one unresolved [`Dep`] per distinct DLL name
/// found in the bytes of a Windows binary, in lower case, in the order of
/// first occurrence.
pub fn scan_pe_imports(bytes: &[u8]) -> (r: Vec<Dep>)
    ensures
        deps_view(r@) == pe_spec(bytes@),
{
    let ghost b = bytes@;
    let mut deps: Vec<Dep> = Vec::new();
    if bytes.len() < 5 {
        assert(deps_view(deps@) =~= pe_spec(b));
        return deps;
    }
    let n = bytes.len() - 4;
    let mut w: usize = 0;
    assert(deps_view(deps@) =~= pe_names(b, 0).map_values(|nm: Seq<char>| unresolved(nm)));
    while w < n
        invariant
            b == bytes@,
            n == bytes@.len() - 4,
            w <= n,
            deps_view(deps@) == pe_names(b, w as int).map_values(|nm: Seq<char>| unresolved(nm)),
        decreases n - w,
    {
        let ghost acc = pe_names(b, w as int);
        if alnum(bytes[w]) && bytes[w + 1] == 46 && lower(bytes[w + 2]) == 100 && lower(
            bytes[w + 3],
        ) == 108 && lower(bytes[w + 4]) == 108 {
            let mut start = w;
            while start > 0 && (alnum(bytes[start - 1]) || bytes[start - 1] == 95 || bytes[start
                - 1] == 45 || bytes[start - 1] == 46)
                invariant
                    b == bytes@,
                    start <= w < n,
                    n == bytes@.len() - 4,
                    token_start(b, w as int) == token_start(b, start as int),
                decreases start,
            {
                start = start - 1;
            }
            let mut name = String::new();
            let mut i = start;
            let end = w + 5;
            while i < end
                invariant
                    b == bytes@,
                    end == w + 5,
                    start <= i <= end,
                    end <= bytes@.len(),
                    name@ == b.subrange(start as int, i as int).map_values(
                        |x: u8| lower_byte(x) as char,
                    ),
                decreases end - i,
            {
                crate::text::push_char(&mut name, lower(bytes[i]) as char);
                assert(name@ =~= b.subrange(start as int, i + 1).map_values(
                    |x: u8| lower_byte(x) as char,
                ));
                i = i + 1;
            }
            assert(name@ == pe_token(b, w as int));
            assert(deps_view(deps@).len() == acc.len());
            let mut seen = false;
            let mut j: usize = 0;
            while j < deps.len()
                invariant
                    j <= deps@.len(),
                    deps_view(deps@) == acc.map_values(|nm: Seq<char>| unresolved(nm)),
                    acc.len() == deps@.len(),
                    seen <==> exists|q: int| 0 <= q < j && acc[q] == name@,
                decreases deps@.len() - j,
            {
                assert(deps_view(deps@)[j as int] == deps@[j as int]@);
                assert(deps_view(deps@)[j as int] == unresolved(acc[j as int]));
                assert(acc[j as int] == deps@[j as int].name@);
                if deps[j].name == name {
                    seen = true;
                }
                j = j + 1;
            }
            if seen {
                proof {
                    let q = choose|q: int| 0 <= q < j && acc[q] == name@;
                    assert(acc.contains(name@));
                }
            } else {
                assert(!acc.contains(name@));
                let ghost before = deps_view(deps@);
                deps.push(Dep { name, resolved: None });
                assert(deps_view(deps@) =~= before.push(unresolved(pe_token(b, w as int))));
                assert(pe_names(b, w + 1) == acc.push(pe_token(b, w as int)));
                assert(deps_view(deps@) =~= pe_names(b, w + 1).map_values(
                    |nm: Seq<char>| unresolved(nm),
                ));
            }
        }
        w = w + 1;
    }
    deps
}

/// What a shared-library scan of a binary produced: the standard output of
/// `ldd` (Linux) or `otool -L` (macOS), the bytes of a PE image (Windows), or
/// nothing (the tool failed, or the platform has no scanner).
pub enum ScanOutput {
    Ldd(String),
    Otool(String),
    PeImage(Vec<u8>),
    Unavailable,
}

/// The dependencies a scan records.
pub open spec fn scan_spec(scan: ScanOutput) -> Seq<DepView> {
    match scan {
        ScanOutput::Ldd(out) => ldd_spec(out@),
        ScanOutput::Otool(out) => otool_spec(out@),
        ScanOutput::PeImage(b) => pe_spec(b@),
        ScanOutput::Unavailable => Seq::empty(),
    }
}

/// The shared-library dependencies of a binary, one [`Dep`] per recorded
/// dependency, from what its scan produced. Best-effort: a scan that produced
/// nothing gives an empty list rather than an error.
pub fn collect_runtime_deps(scan: &ScanOutput) -> (r: Vec<Dep>)
    ensures
        deps_view(r@) == scan_spec(*scan),
{
    match scan {
        ScanOutput::Ldd(out) => parse_ldd(out.as_str()),
        ScanOutput::Otool(out) => parse_otool(out.as_str()),
        ScanOutput::PeImage(b) => scan_pe_imports(b.as_slice()),
        ScanOutput::Unavailable => {
            let r: Vec<Dep> = Vec::new();
            assert(deps_view(r@) =~= Seq::<DepView>::empty());
            r
        },
    }
}

impl Default for BundleSpec {
    fn default() -> (r: BundleSpec)
        ensures
            r.libs@.len() == 0,
    {
        BundleSpec { libs: Vec::new() }
    }
}

/// A ready-to-print summary of everything a packager should ship alongside a
/// product that embeds shirabe.
#[derive(Debug)]
pub struct BundleReport {
    /// Explicitly declared libs (from [`BundleSpec`]).
    pub declared: Vec<NativeLib>,
    /// Runtime dependencies discovered by scanning the backend binary.
    pub discovered: Vec<Dep>,
}

impl Default for BundleReport {
    fn default() -> (r: BundleReport)
        ensures
            r.declared@.len() == 0,
            r.discovered@.len() == 0,
    {
        BundleReport { declared: Vec::new(), discovered: Vec::new() }
    }
}

impl BundleReport {
    /// A report for the backend executable: the user's declared bundle merged
    /// with the runtime dependencies that the scan of the executable records.
    pub fn build(spec: BundleSpec, scan: &ScanOutput) -> (r: BundleReport)
        ensures
            r.declared@ == spec.libs@,
            deps_view(r.discovered@) == scan_spec(*scan),
    {
        BundleReport { declared: spec.libs, discovered: collect_runtime_deps(scan) }
    }
}

/// The status of a declared library: present, missing but optional, or
/// missing.
pub open spec fn flag_spec(exists: bool, optional: bool) -> Seq<char> {
    if exists {
        "ok"@
    } else if optional {
        "missing (optional, ignored)"@
    } else {
        "MISSING"@
    }
}

/// The report line of a declared library.
pub open spec fn declared_line(l: LibView, exists: bool) -> Seq<char> {
    "- "@ + l.path + " ["@ + match l.target_os {
        Some(os) => os,
        None => "all"@,
    } + "] "@ + flag_spec(exists, l.optional) + "\n"@
}

/// The report lines of the first `n` declared libraries.
pub open spec fn declared_lines(libs: Seq<LibView>, exists: Seq<bool>, n: int) -> Seq<char>
    decreases n,
{
    if n <= 0 {
        Seq::empty()
    } else {
        declared_lines(libs, exists, n - 1) + declared_line(libs[n - 1], exists[n - 1])
    }
}

/// The report line of a discovered dependency.
pub open spec fn dep_line(d: DepView) -> Seq<char> {
    "- "@ + d.name + "  → "@ + match d.resolved {
        Some(p) => p,
        None => "(unresolved — install on the target)"@,
    } + "\n"@
}

/// The report lines of the first `n` discovered dependencies.
pub open spec fn dep_lines(deps: Seq<DepView>, n: int) -> Seq<char>
    decreases n,
{
    if n <= 0 {
        Seq::empty()
    } else {
        dep_lines(deps, n - 1) + dep_line(deps[n - 1])
    }
}

/// The text of a report whose declared libraries exist as `exists` says.
pub open spec fn render_spec(
    declared: Seq<LibView>,
    exists: Seq<bool>,
    discovered: Seq<DepView>,
) -> Seq<char> {
    "# shirabe native-library bundle report\n\n"@ + (if declared.len() > 0 {
        "## Declared libraries (ship these next to your product)\n"@ + declared_lines(
            declared,
            exists,
            declared.len() as int,
        ) + "\n"@
    } else {
        Seq::empty()
    }) + (if discovered.len() > 0 {
        "## Backend runtime dependencies (copy resolved paths)\n"@ + dep_lines(
            discovered,
            discovered.len() as int,
        )
    } else {
        Seq::empty()
    }) + (if declared.len() == 0 && discovered.len() == 0 {
        "(nothing to bundle)\n"@
    } else {
        Seq::empty()
    })
}

/// Renders a [`BundleReport`] as human-readable guidance for a release
/// script; `exists[i]` tells whether the file of `report.declared[i]` exists.
pub fn render(report: &BundleReport, exists: &Vec<bool>) -> (r: String)
    requires
        exists@.len() == report.declared@.len(),
    ensures
        r@ == render_spec(libs_view(report.declared@), exists@, deps_view(report.discovered@)),
{
    let ghost libs = libs_view(report.declared@);
    let ghost deps = deps_view(report.discovered@);
    let mut out = String::new();
    push_str(&mut out, "# shirabe native-library bundle report\n\n");
    let ghost head = out@;
    if report.declared.len() > 0 {
        push_str(&mut out, "## Declared libraries (ship these next to your product)\n");
        let ghost start = out@;
        let mut i: usize = 0;
        while i < report.declared.len()
            invariant
                i <= report.declared@.len(),
                exists@.len() == report.declared@.len(),
                libs == libs_view(report.declared@),
                out@ == start + declared_lines(libs, exists@, i as int),
            decreases report.declared@.len() - i,
        {
            let lib = &report.declared[i];
            assert(libs[i as int] == lib@);
            push_str(&mut out, "- ");
            push_str(&mut out, lib.path.as_str());
            push_str(&mut out, " [");
            match &lib.target_os {
                Some(os) => push_str(&mut out, os.as_str()),
                None => push_str(&mut out, "all"),
            }
            push_str(&mut out, "] ");
            if exists[i] {
                push_str(&mut out, "ok");
            } else if lib.optional {
                push_str(&mut out, "missing (optional, ignored)");
            } else {
                push_str(&mut out, "MISSING");
            }
            push_str(&mut out, "\n");
            assert(out@ =~= start + declared_lines(libs, exists@, i + 1));
            i = i + 1;
        }
        push_str(&mut out, "\n");
    }
    let ghost mid = out@;
    if report.discovered.len() > 0 {
        push_str(&mut out, "## Backend runtime dependencies (copy resolved paths)\n");
        let ghost start = out@;
        let mut j: usize = 0;
        while j < report.discovered.len()
            invariant
                j <= report.discovered@.len(),
                deps == deps_view(report.discovered@),
                out@ == start + dep_lines(deps, j as int),
            decreases report.discovered@.len() - j,
        {
            let dep = &report.discovered[j];
            assert(deps[j as int] == dep@);
            push_str(&mut out, "- ");
            push_str(&mut out, dep.name.as_str());
            push_str(&mut out, "  → ");
            match &dep.resolved {
                Some(p) => push_str(&mut out, p.as_str()),
                None => push_str(&mut out, "(unresolved — install on the target)"),
            }
            push_str(&mut out, "\n");
            assert(out@ =~= start + dep_lines(deps, j + 1));
            j = j + 1;
        }
    }
    if report.declared.len() == 0 && report.discovered.len() == 0 {
        push_str(&mut out, "(nothing to bundle)\n");
    }
    assert(out@ =~= render_spec(libs, exists@, deps));
    out
}

/// The PE import scan reports every DLL once: no two dependencies it finds
/// have the same name.
pub proof fn pe_names_distinct(b: Seq<u8>, n: int)
    ensures
        pe_names(b, n).no_duplicates(),
    decreases n,
{
    if n > 0 {
        pe_names_distinct(b, n - 1);
        let acc = pe_names(b, n - 1);
        if dll_at(b, n - 1) && !acc.contains(pe_token(b, n - 1)) {
            let t = pe_token(b, n - 1);
            assert forall|i: int, j: int|
                0 <= i < acc.push(t).len() && 0 <= j < acc.push(t).len() && i != j implies acc.push(
                t,
            )[i] != acc.push(t)[j] by {
                if i == acc.len() {
                    assert(acc[j] != t);
                } else if j == acc.len() {
                    assert(acc[i] != t);
                }
            }
        }
    }
}

/// Whether `raw` is a `key = value` line of a manifest for `key` (and not a
/// table header).
pub open spec fn line_sets(raw: Seq<char>, key: Seq<char>) -> bool {
    let line = trim(raw);
    line != "[[lib]]"@ && match index_from(line, '=', 0) {
        Some(k) => trim(line.take(k)) == key,
        None => false,
    }
}

/// Every `[[lib]]` table starts empty, whatever came before it: no path, not
/// optional, no target OS.
pub proof fn table_starts_empty(st: ManifestState, raw: Seq<char>)
    requires
        trim(raw) == "[[lib]]"@,
    ensures
        manifest_step(st, raw).cur == Some(
            LibView { path: Seq::empty(), optional: false, target_os: None },
        ),
{
}

/// Within a table, the target OS is set only by a `target_os = ...` line of
/// that table: from a table without one, lines none of which opens a new
/// table or sets `target_os` leave it without one.
pub proof fn target_os_only_from_own_table(st: ManifestState, lines: Seq<Seq<char>>)
    requires
        st.cur is Some,
        st.cur->0.target_os is None,
        forall|i: int|
            0 <= i < lines.len() ==> trim(#[trigger] lines[i]) != "[[lib]]"@ && !line_sets(
                lines[i],
                "target_os"@,
            ),
    ensures
        ({
            let end = lines.fold_left(st, |s: ManifestState, l: Seq<char>| manifest_step(s, l));
            &&& end.cur is Some
            &&& end.cur->0.target_os is None
        }),
    decreases lines.len(),
{
    if lines.len() > 0 {
        assert forall|i: int| 0 <= i < lines.drop_last().len() implies trim(
            #[trigger] lines.drop_last()[i],
        ) != "[[lib]]"@ && !line_sets(lines.drop_last()[i], "target_os"@) by {
            assert(lines.drop_last()[i] == lines[i]);
        }
        target_os_only_from_own_table(st, lines.drop_last());
        let last = lines.last();
        assert(trim(last) != "[[lib]]"@ && !line_sets(last, "target_os"@));
        reveal_strlit("target_os");
        reveal_strlit("path");
        reveal_strlit("optional");
    }
}

/// A declared library whose file exists is reported `ok`, optional or not;
/// a `missing` flag is reported only for a file that does not exist.
pub proof fn existing_files_are_ok(l: LibView, exists: bool)
    ensures
        exists ==> declared_line(l, exists) == "- "@ + l.path + " ["@ + match l.target_os {
            Some(os) => os,
            None => "all"@,
        } + "] "@ + "ok"@ + "\n"@,
        !exists ==> flag_spec(exists, l.optional) != "ok"@,
{
    reveal_strlit("ok");
    reveal_strlit("MISSING");
    reveal_strlit("missing (optional, ignored)");
    assert("ok"@.len() == 2);
    assert("MISSING"@.len() == 7);
    assert("missing (optional, ignored)"@.len() == 27);
}

/// The ASCII lower case of a name's bytes, as characters.
pub open spec fn lower_chars(b: Seq<u8>) -> Seq<char> {
    b.map_values(
        |x: u8|
            if 65 <= x <= 90 {
                (x + 32) as u8 as char
            } else {
                x as char
            },
    )
}

/// The bytes of `.dll`.
pub open spec fn dot_dll() -> Seq<u8> {
    seq![46u8, 100u8, 108u8, 108u8]
}

/// Scanning the bytes before `n` finds nothing when no `.` stands at indices
/// `1..n`.
proof fn lemma_pe_none_before(b: Seq<u8>, n: int)
    requires
        n + 1 <= b.len(),
        forall|i: int| 1 <= i <= n ==> b[i] != 46,
    ensures
        pe_names(b, n) == Seq::<Seq<char>>::empty(),
    decreases n,
{
    if n > 0 {
        lemma_pe_none_before(b, n - 1);
        assert(!dll_at(b, n - 1));
    }
}

/// Walking back from `s` over name bytes stops at index 1 when the bytes at
/// `1..s` are name bytes and the byte at 0 is not.
proof fn lemma_token_start(b: Seq<u8>, s: int)
    requires
        1 <= s <= b.len(),
        !is_name_byte(b[0]),
        forall|i: int| 1 <= i < s ==> is_name_byte(#[trigger] b[i]),
    ensures
        token_start(b, s) == 1,
    decreases s,
{
    if s > 1 {
        lemma_token_start(b, s - 1);
    }
}

/// A DLL name of letters, digits, `_` and `-`, ending with a letter or digit
/// and preceded by a byte outside the name alphabet, is reported whole and
/// in lower case: the scan of `[0] ++ name ++ ".dll"` is exactly that name.
pub proof fn pe_reports_whole_names(name: Seq<u8>)
    requires
        name.len() > 0,
        forall|i: int|
            0 <= i < name.len() ==> {
                let x = #[trigger] name[i];
                (48 <= x <= 57) || (65 <= x <= 90) || (97 <= x <= 122) || x == 95 || x == 45
            },
        ({
            let x = name.last();
            (48 <= x <= 57) || (65 <= x <= 90) || (97 <= x <= 122)
        }),
    ensures
        ({
            let r = pe_spec(seq![0u8] + name + dot_dll());
            &&& r.len() == 1
            &&& r[0].name == lower_chars(name + dot_dll())
            &&& r[0].resolved is None
        }),
{
    let b = seq![0u8] + name + dot_dll();
    let m = name.len() as int;
    assert(b.len() == m + 5);
    assert forall|i: int| 1 <= i <= m implies b[i] != 46 by {
        assert(b[i] == name[i - 1]);
    }
    lemma_pe_none_before(b, m);
    assert(b[m] == name.last());
    assert(b[m + 1] == 46 && b[m + 2] == 100 && b[m + 3] == 108 && b[m + 4] == 108);
    assert(dll_at(b, m));
    assert forall|i: int| 1 <= i < m implies is_name_byte(#[trigger] b[i]) by {
        assert(b[i] == name[i - 1]);
    }
    lemma_token_start(b, m);
    assert(b.subrange(1, m + 5) =~= name + dot_dll());
    assert(pe_token(b, m) =~= lower_chars(name + dot_dll()));
    assert(pe_names(b, m + 1) == seq![pe_token(b, m)]);
}

} // verus!
