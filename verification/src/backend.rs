//! Browser backend selection.
//!
//! The Chromium family (Chrome, Chromium, Edge) is driven through the CDP
//! engine; Firefox and Servo are driven through a vendor engine library. A
//! backend is selected with `SHIRABE_BACKEND=chrome|chromium|edge|firefox|servo|auto`
//! (default `auto`), and [`Backend::from_env_value`] turns that value into a
//! [`Backend`].
use vstd::prelude::*;

use crate::platform::Platform;
use crate::text::{
    ascii_lower, is_ws, push_str, range_eq, str_chars, to_ascii_lower, trim, trim_end, trim_range,
    trim_start,
};

verus! {

/// A CDP-speaking (or vendor-engine) browser backend.
#[derive(Debug, Clone, Copy, PartialEq, Eq, Structural)]
pub enum Backend {
    /// Google Chrome (stable): system install or Chrome for Testing fetch.
    Chrome,
    /// Chromium, the open-source build.
    Chromium,
    /// Microsoft Edge (Chromium-based).
    Edge,
    /// Mozilla Firefox, driven through the vendor engine library
    /// `libshirabe_engine_firefox`, not CDP.
    Firefox,
    /// Servo, driven through the vendor engine library `libshirabe_engine_servo`.
    Servo,
    /// Let the resolver pick the first backend that resolves. The default.
    Auto,
}

/// The concrete backends that `b` is tried as, in order.
pub open spec fn order_spec(b: Backend) -> Seq<Backend> {
    match b {
        Backend::Auto => seq![Backend::Chrome, Backend::Chromium, Backend::Edge],
        _ => seq![b],
    }
}

/// The human-readable label of `b`.
pub open spec fn label_spec(b: Backend) -> Seq<char> {
    match b {
        Backend::Chrome => "chrome"@,
        Backend::Chromium => "chromium"@,
        Backend::Edge => "edge"@,
        Backend::Firefox => "firefox"@,
        Backend::Servo => "servo"@,
        Backend::Auto => "auto"@,
    }
}

/// The vendor engine id of a foreign backend.
pub open spec fn engine_id_spec(b: Backend) -> Option<Seq<char>> {
    match b {
        Backend::Firefox => Some("firefox"@),
        Backend::Servo => Some("servo"@),
        _ => None,
    }
}

/// The environment variables that pin `b` to an explicit executable, in order.
pub open spec fn env_overrides_spec(b: Backend) -> Seq<Seq<char>> {
    match b {
        Backend::Chrome => seq!["CHROME_PATH"@],
        Backend::Chromium => seq!["CHROMIUM_PATH"@],
        Backend::Edge => seq!["EDGE_PATH"@],
        _ => seq![],
    }
}

/// `s` with every ASCII upper-case letter in lower case.
pub open spec fn lower(s: Seq<char>) -> Seq<char> {
    s.map_values(|c: char| ascii_lower(c))
}

/// The backend a `SHIRABE_BACKEND` value selects: the value is trimmed and
/// compared without ASCII case; an unknown or absent value selects `Auto`.
pub open spec fn parse_backend(raw: Option<Seq<char>>) -> Backend {
    match raw {
        None => Backend::Auto,
        Some(s) => {
            let v = lower(trim(s));
            if v == "chrome"@ {
                Backend::Chrome
            } else if v == "chromium"@ {
                Backend::Chromium
            } else if v == "edge"@ {
                Backend::Edge
            } else if v == "firefox"@ {
                Backend::Firefox
            } else if v == "servo"@ {
                Backend::Servo
            } else {
                Backend::Auto
            }
        },
    }
}

/// The executable names looked up on `$PATH` for `b`.
pub open spec fn system_names_spec(b: Backend) -> Seq<Seq<char>> {
    match b {
        Backend::Chrome => seq![
            "google-chrome"@,
            "google-chrome-stable"@,
            "chrome"@,
            "chromium-browser"@,
            "chromium"@,
        ],
        Backend::Chromium => seq!["chromium"@, "chromium-browser"@],
        Backend::Edge => seq!["microsoft-edge"@, "microsoft-edge-stable"@],
        Backend::Firefox | Backend::Servo => seq![],
        Backend::Auto => seq![
            "google-chrome"@,
            "google-chrome-stable"@,
            "chromium-browser"@,
            "chromium"@,
            "microsoft-edge"@,
        ],
    }
}

/// The file names tried in each `$PATH` directory: on Windows every name with
/// `.exe` first, then every bare name; elsewhere the bare names.
pub open spec fn try_names_spec(p: Platform, b: Backend) -> Seq<Seq<char>> {
    let names = system_names_spec(b);
    if p is Windows {
        names.map_values(|n: Seq<char>| n + ".exe"@) + names
    } else {
        names
    }
}

/// Well-known install locations of `b` on platform `p`.
pub open spec fn well_known_spec(p: Platform, b: Backend) -> Seq<Seq<char>> {
    match p {
        Platform::MacOs => match b {
            Backend::Chromium => seq!["/Applications/Chromium.app/Contents/MacOS/Chromium"@],
            Backend::Edge => seq![
                "/Applications/Microsoft Edge.app/Contents/MacOS/Microsoft Edge"@,
            ],
            _ => seq!["/Applications/Google Chrome.app/Contents/MacOS/Google Chrome"@],
        },
        Platform::Windows => match b {
            Backend::Chromium => seq!["C:\\Program Files\\Chromium\\Application\\chrome.exe"@],
            Backend::Edge => seq![
                "C:\\Program Files (x86)\\Microsoft\\Edge\\Application\\msedge.exe"@,
            ],
            _ => seq![
                "C:\\Program Files\\Google\\Chrome\\Application\\chrome.exe"@,
                "C:\\Program Files (x86)\\Google\\Chrome\\Application\\chrome.exe"@,
            ],
        },
        _ => match b {
            Backend::Chromium => seq![
                "/usr/bin/chromium"@,
                "/usr/bin/chromium-browser"@,
                "/snap/bin/chromium"@,
            ],
            Backend::Edge => seq!["/usr/bin/microsoft-edge"@, "/usr/bin/microsoft-edge-stable"@],
            _ => seq![
                "/usr/bin/google-chrome"@,
                "/usr/bin/google-chrome-stable"@,
                "/snap/bin/chromium"@,
            ],
        },
    }
}

/// Where to look for an executable of one backend: the file names to try in
/// every `$PATH` directory (directories outer, names inner), then the
/// well-known locations. The first of these that is an existing file wins;
/// [`Backend::candidate_probes`] lists them in that order.
pub struct CandidatePlan {
    /// File names to join onto each `$PATH` directory, in order.
    pub names: Vec<String>,
    /// Absolute well-known locations, tried after every `$PATH` hit.
    pub locations: Vec<&'static str>,
}

impl Backend {
    /// The concrete backends to try, in order. `Auto` expands to the CDP
    /// preference list (Chrome first). Firefox and Servo are never tried
    /// implicitly: they are opt-in via `SHIRABE_BACKEND`.
    pub fn order(self) -> (r: Vec<Backend>)
        ensures
            r@ == order_spec(self),
    {
        match self {
            Backend::Auto => vec![Backend::Chrome, Backend::Chromium, Backend::Edge],
            Backend::Chrome => vec![Backend::Chrome],
            Backend::Chromium => vec![Backend::Chromium],
            Backend::Edge => vec![Backend::Edge],
            Backend::Firefox => vec![Backend::Firefox],
            Backend::Servo => vec![Backend::Servo],
        }
    }

    /// Human-readable label, used in logs and the `/info` endpoint.
    pub fn label(self) -> (r: &'static str)
        ensures
            r@ == label_spec(self),
    {
        match self {
            Backend::Chrome => "chrome",
            Backend::Chromium => "chromium",
            Backend::Edge => "edge",
            Backend::Firefox => "firefox",
            Backend::Servo => "servo",
            Backend::Auto => "auto",
        }
    }

    /// For foreign (non-CDP) backends, the vendor engine id used to locate the
    /// dynamic library. `None` for the CDP family, which is driven in-process.
    pub fn engine_id(self) -> (r: Option<&'static str>)
        ensures
            r.deep_view() == engine_id_spec(self),
    {
        match self {
            Backend::Firefox => Some("firefox"),
            Backend::Servo => Some("servo"),
            _ => None,
        }
    }

    /// `true` for the CDP family (driven by our own engine, no vendor lib).
    pub fn is_cdp(self) -> (r: bool)
        ensures
            r == (self is Chrome || self is Chromium || self is Edge),
    {
        matches!(self, Backend::Chrome | Backend::Chromium | Backend::Edge)
    }

    /// Env vars that explicitly override this backend's executable, in order.
    pub fn env_overrides(self) -> (r: Vec<&'static str>)
        ensures
            r.deep_view() == env_overrides_spec(self),
    {
        let r = match self {
            Backend::Chrome => vec!["CHROME_PATH"],
            Backend::Chromium => vec!["CHROMIUM_PATH"],
            Backend::Edge => vec!["EDGE_PATH"],
            Backend::Firefox | Backend::Servo | Backend::Auto => Vec::new(),
        };
        assert(r.deep_view() =~= env_overrides_spec(self));
        r
    }

    /// The backend a `SHIRABE_BACKEND` value selects, or `Auto` when the
    /// variable is unset or names no backend.
    pub fn from_env_value(raw: Option<&str>) -> (r: Backend)
        ensures
            r == parse_backend(raw.deep_view()),
    {
        match raw {
            None => Backend::Auto,
            Some(s) => {
                let v = str_chars(s);
                let (a, b) = trim_range(&v, 0, v.len());
                assert(v@.subrange(0, v.len() as int) =~= v@);
                let mut low: Vec<char> = Vec::new();
                let mut i = a;
                while i < b
                    invariant
                        a <= i <= b <= v.len(),
                        low@ == lower(v@.subrange(a as int, i as int)),
                    decreases b - i,
                {
                    low.push(to_ascii_lower(v[i]));
                    assert(low@ =~= lower(v@.subrange(a as int, i + 1)));
                    i = i + 1;
                }
                let n = low.len();
                assert(low@.subrange(0, n as int) =~= low@);
                if range_eq(&low, 0, n, "chrome") {
                    Backend::Chrome
                } else if range_eq(&low, 0, n, "chromium") {
                    Backend::Chromium
                } else if range_eq(&low, 0, n, "edge") {
                    Backend::Edge
                } else if range_eq(&low, 0, n, "firefox") {
                    Backend::Firefox
                } else if range_eq(&low, 0, n, "servo") {
                    Backend::Servo
                } else {
                    Backend::Auto
                }
            },
        }
    }

    /// Where to look for this backend's executable on platform `p`. Only the
    /// CDP family has an executable; a foreign backend (or `Auto`) gets an
    /// empty plan, since it resolves a vendor library, not an executable.
    pub fn candidates(self, p: Platform) -> (r: CandidatePlan)
        ensures
            self is Chrome || self is Chromium || self is Edge ==> {
                &&& r.names.deep_view() == try_names_spec(p, self)
                &&& r.locations.deep_view() == well_known_spec(p, self)
            },
            !(self is Chrome || self is Chromium || self is Edge) ==> {
                &&& r.names@.len() == 0
                &&& r.locations@.len() == 0
            },
    {
        if !self.is_cdp() {
            return CandidatePlan { names: Vec::new(), locations: Vec::new() };
        }
        CandidatePlan { names: system_try_names(p, self), locations: well_known_locations(p, self) }
    }
}

/// One place where an executable may be: a file name inside the `$PATH`
/// directory with this index, or an absolute well-known location.
pub enum CandidateProbe {
    InDir(usize, String),
    At(&'static str),
}

/// The mathematical form of a [`CandidateProbe`].
pub enum CandidateView {
    InDir(nat, Seq<char>),
    At(Seq<char>),
}

impl View for CandidateProbe {
    type V = CandidateView;

    open spec fn view(&self) -> CandidateView {
        match self {
            CandidateProbe::InDir(d, n) => CandidateView::InDir(*d as nat, n@),
            CandidateProbe::At(l) => CandidateView::At(l@),
        }
    }
}

/// The views of a sequence of probes.
pub open spec fn probes_view(v: Seq<CandidateProbe>) -> Seq<CandidateView> {
    v.map_values(|c: CandidateProbe| c@)
}

/// Every name in each of the first `n_dirs` directories: directories outer,
/// names inner.
pub open spec fn dir_probes(names: Seq<Seq<char>>, n_dirs: nat) -> Seq<CandidateView>
    decreases n_dirs,
{
    if n_dirs == 0 {
        Seq::empty()
    } else {
        dir_probes(names, (n_dirs - 1) as nat) + names.map_values(
            |nm: Seq<char>| CandidateView::InDir((n_dirs - 1) as nat, nm),
        )
    }
}

/// The places where an executable of `b` is looked for, in order, with
/// `n_dirs` directories on `$PATH`: each directory with each file name, then
/// the well-known locations. A foreign backend (or `Auto`) has none.
pub open spec fn probe_order_spec(p: Platform, b: Backend, n_dirs: nat) -> Seq<CandidateView> {
    if b is Chrome || b is Chromium || b is Edge {
        dir_probes(try_names_spec(p, b), n_dirs) + well_known_spec(p, b).map_values(
            |l: Seq<char>| CandidateView::At(l),
        )
    } else {
        Seq::empty()
    }
}

impl Backend {
    /// The places where an executable of this backend is looked for, in the
    /// order they are tried, when `$PATH` has `n_dirs` directories. The first
    /// one that is an existing file is the backend's executable.
    pub fn candidate_probes(self, p: Platform, n_dirs: usize) -> (r: Vec<CandidateProbe>)
        ensures
            probes_view(r@) == probe_order_spec(p, self, n_dirs as nat),
    {
        let plan = self.candidates(p);
        let mut out: Vec<CandidateProbe> = Vec::new();
        if !self.is_cdp() {
            assert(probes_view(out@) =~= probe_order_spec(p, self, n_dirs as nat));
            return out;
        }
        let ghost names = try_names_spec(p, self);
        let mut d: usize = 0;
        assert(probes_view(out@) =~= dir_probes(names, 0));
        while d < n_dirs
            invariant
                d <= n_dirs,
                plan.names.deep_view() == names,
                probes_view(out@) == dir_probes(names, d as nat),
            decreases n_dirs - d,
        {
            let ghost before = probes_view(out@);
            let mut j: usize = 0;
            while j < plan.names.len()
                invariant
                    j <= plan.names@.len(),
                    plan.names.deep_view() == names,
                    probes_view(out@) == before + names.take(j as int).map_values(
                        |nm: Seq<char>| CandidateView::InDir(d as nat, nm),
                    ),
                decreases plan.names@.len() - j,
            {
                assert(plan.names.deep_view()[j as int] == plan.names@[j as int]@);
                let ghost mid = probes_view(out@);
                out.push(CandidateProbe::InDir(d, plan.names[j].clone()));
                assert(probes_view(out@) =~= mid.push(CandidateView::InDir(d as nat, names[j as int])));
                assert(names.take(j + 1).map_values(|nm: Seq<char>| CandidateView::InDir(d as nat, nm))
                    =~= names.take(j as int).map_values(
                    |nm: Seq<char>| CandidateView::InDir(d as nat, nm),
                ).push(CandidateView::InDir(d as nat, names[j as int])));
                j = j + 1;
            }
            assert(names.take(names.len() as int) =~= names);
            assert(probes_view(out@) =~= dir_probes(names, (d + 1) as nat));
            d = d + 1;
        }
        let ghost locs = well_known_spec(p, self);
        let ghost start = probes_view(out@);
        let mut k: usize = 0;
        while k < plan.locations.len()
            invariant
                k <= plan.locations@.len(),
                plan.locations.deep_view() == locs,
                probes_view(out@) == start + locs.take(k as int).map_values(
                    |l: Seq<char>| CandidateView::At(l),
                ),
            decreases plan.locations@.len() - k,
        {
            assert(plan.locations.deep_view()[k as int] == plan.locations@[k as int]@);
            let ghost mid = probes_view(out@);
            out.push(CandidateProbe::At(plan.locations[k]));
            assert(probes_view(out@) =~= mid.push(CandidateView::At(locs[k as int])));
            assert(locs.take(k + 1).map_values(|l: Seq<char>| CandidateView::At(l)) =~= locs.take(
                k as int,
            ).map_values(|l: Seq<char>| CandidateView::At(l)).push(CandidateView::At(locs[k as int])));
            k = k + 1;
        }
        assert(locs.take(locs.len() as int) =~= locs);
        out
    }
}

/// The executable names of `b` that are searched for on `$PATH`.
fn system_names(b: Backend) -> (r: Vec<&'static str>)
    ensures
        r.deep_view() == system_names_spec(b),
{
    let r = match b {
        Backend::Chrome => vec![
            "google-chrome",
            "google-chrome-stable",
            "chrome",
            "chromium-browser",
            "chromium",
        ],
        Backend::Chromium => vec!["chromium", "chromium-browser"],
        Backend::Edge => vec!["microsoft-edge", "microsoft-edge-stable"],
        Backend::Firefox | Backend::Servo => Vec::new(),
        Backend::Auto => vec![
            "google-chrome",
            "google-chrome-stable",
            "chromium-browser",
            "chromium",
            "microsoft-edge",
        ],
    };
    assert(r.deep_view() =~= system_names_spec(b));
    r
}

/// The file names tried in each `$PATH` directory for `b` on platform `p`.
pub fn system_try_names(p: Platform, b: Backend) -> (r: Vec<String>)
    ensures
        r.deep_view() == try_names_spec(p, b),
{
    let names = system_names(b);
    let mut out: Vec<String> = Vec::new();
    let ghost spec_names = system_names_spec(b);
    if p.is_windows() {
        let mut i: usize = 0;
        while i < names.len()
            invariant
                i <= names.len(),
                names.deep_view() == spec_names,
                out.deep_view() == spec_names.subrange(0, i as int).map_values(
                    |n: Seq<char>| n + ".exe"@,
                ),
            decreases names.len() - i,
        {
            let ghost before = out.deep_view();
            assert(names.deep_view()[i as int] == names@[i as int]@);
            let mut s = String::new();
            push_str(&mut s, names[i]);
            push_str(&mut s, ".exe");
            out.push(s);
            assert(out.deep_view() =~= before.push(spec_names[i as int] + ".exe"@));
            assert(out.deep_view() =~= spec_names.subrange(0, i + 1).map_values(
                |n: Seq<char>| n + ".exe"@,
            ));
            i = i + 1;
        }
        assert(spec_names.subrange(0, names.len() as int) =~= spec_names);
    }
    let ghost prefix = out.deep_view();
    let mut j: usize = 0;
    while j < names.len()
        invariant
            j <= names.len(),
            names.deep_view() == spec_names,
            out.deep_view() == prefix + spec_names.subrange(0, j as int),
        decreases names.len() - j,
    {
        let ghost before = out.deep_view();
        assert(names.deep_view()[j as int] == names@[j as int]@);
        let mut s = String::new();
        push_str(&mut s, names[j]);
        out.push(s);
        assert(out.deep_view() =~= before.push(spec_names[j as int]));
        assert(out.deep_view() =~= prefix + spec_names.subrange(0, j + 1));
        j = j + 1;
    }
    assert(spec_names.subrange(0, names.len() as int) =~= spec_names);
    assert(out.deep_view() =~= try_names_spec(p, b));
    out
}

/// Well-known install locations of `b` on platform `p`.
pub fn well_known_locations(p: Platform, b: Backend) -> (r: Vec<&'static str>)
    ensures
        r.deep_view() == well_known_spec(p, b),
{
    let r = match p {
        Platform::MacOs => match b {
            Backend::Chromium => vec!["/Applications/Chromium.app/Contents/MacOS/Chromium"],
            Backend::Edge => vec!["/Applications/Microsoft Edge.app/Contents/MacOS/Microsoft Edge"],
            _ => vec!["/Applications/Google Chrome.app/Contents/MacOS/Google Chrome"],
        },
        Platform::Windows => match b {
            Backend::Chromium => vec!["C:\\Program Files\\Chromium\\Application\\chrome.exe"],
            Backend::Edge => vec!["C:\\Program Files (x86)\\Microsoft\\Edge\\Application\\msedge.exe"],
            _ => vec![
                "C:\\Program Files\\Google\\Chrome\\Application\\chrome.exe",
                "C:\\Program Files (x86)\\Google\\Chrome\\Application\\chrome.exe",
            ],
        },
        _ => match b {
            Backend::Chromium => vec![
                "/usr/bin/chromium",
                "/usr/bin/chromium-browser",
                "/snap/bin/chromium",
            ],
            Backend::Edge => vec!["/usr/bin/microsoft-edge", "/usr/bin/microsoft-edge-stable"],
            _ => vec![
                "/usr/bin/google-chrome",
                "/usr/bin/google-chrome-stable",
                "/snap/bin/chromium",
            ],
        },
    };
    assert(r.deep_view() =~= well_known_spec(p, b));
    r
}

/// A string without whitespace, upper-case ASCII letters, is its own
/// trimmed, lower-cased form.
proof fn lemma_plain_word(s: Seq<char>)
    requires
        s.len() > 0,
        forall|i: int| 0 <= i < s.len() ==> 'a' <= #[trigger] s[i] <= 'z',
    ensures
        lower(trim(s)) == s,
{
    assert(!is_ws(s[0]));
    assert(trim_start(s) == s);
    assert(!is_ws(s.last()));
    assert(trim_end(s) == s);
    assert(lower(s) =~= s);
}

/// The value `SHIRABE_BACKEND` takes to select a backend is its label: the
/// label of every backend selects that backend.
pub proof fn label_selects_backend(b: Backend)
    ensures
        parse_backend(Some(label_spec(b))) == b,
{
    reveal_strlit("chrome");
    reveal_strlit("chromium");
    reveal_strlit("edge");
    reveal_strlit("firefox");
    reveal_strlit("servo");
    reveal_strlit("auto");
    lemma_plain_word(label_spec(b));
    if b is Chromium {
        assert(label_spec(b) != "chrome"@);
    }
    if b is Auto {
        assert(label_spec(b) != "edge"@);
        assert(label_spec(b) != "chrome"@);
        assert(label_spec(b) != "servo"@);
    }
    if b is Edge {
        assert(label_spec(b) != "chrome"@);
        assert(label_spec(b) != "chromium"@);
    }
    if b is Firefox {
        assert(label_spec(b) != "chrome"@);
        assert(label_spec(b) != "chromium"@);
        assert(label_spec(b) != "edge"@);
    }
    if b is Servo {
        assert(label_spec(b) != "chrome"@);
        assert(label_spec(b) != "chromium"@);
        assert(label_spec(b) != "edge"@);
        assert(label_spec(b) != "firefox"@);
    }
}

} // verus!
