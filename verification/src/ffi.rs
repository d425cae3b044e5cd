//! Foreign-engine contract: Firefox and Servo.
//!
//! The Chromium family is driven in-process through the CDP engine. Firefox
//! and Servo are driven through a vendor library that exports a small C ABI
//! (`shirabe_engine_new`, `_navigate`, `_evaluate`, `_screenshot`, ...) and is
//! shipped as `libshirabe_engine_<id>.{so,dylib,dll}`. This module holds the
//! decisions around that library: its file name, where it is looked for, and
//! how the vendor's status codes become results. Loading it and calling
//! through the C ABI is done by the caller.
use vstd::prelude::*;

use crate::backend::{Backend, engine_id_spec, label_spec};
use crate::platform::Platform;
use crate::text::{push_signed_decimal, push_str, result_view, signed_decimal};

verus! {

/// A driveable browser engine, independent of the wire protocol.
pub trait Engine {
    /// The engine's identity (`firefox`, `servo`, ...).
    fn id(&self) -> &str;

    /// Navigates the active page to `url`.
    fn navigate(&mut self, url: &str) -> Result<(), String>;

    /// Evaluates `js` and returns the result as a JSON string.
    fn evaluate(&mut self, js: &str) -> Result<String, String>;

    /// Captures a PNG of the page.
    fn screenshot(&mut self) -> Result<Vec<u8>, String>;
}

/// The platform file name of the vendor library for engine `id`.
pub open spec fn lib_name_spec(p: Platform, id: Seq<char>) -> Seq<char> {
    match p {
        Platform::Windows => "shirabe_engine_"@ + id + ".dll"@,
        Platform::MacOs => "libshirabe_engine_"@ + id + ".dylib"@,
        _ => "libshirabe_engine_"@ + id + ".so"@,
    }
}

/// Platform library file name for engine `id`.
pub fn lib_name(p: Platform, id: &str) -> (r: String)
    ensures
        r@ == lib_name_spec(p, id@),
{
    let mut s = String::new();
    match p {
        Platform::Windows => {
            push_str(&mut s, "shirabe_engine_");
            push_str(&mut s, id);
            push_str(&mut s, ".dll");
        },
        Platform::MacOs => {
            push_str(&mut s, "libshirabe_engine_");
            push_str(&mut s, id);
            push_str(&mut s, ".dylib");
        },
        _ => {
            push_str(&mut s, "libshirabe_engine_");
            push_str(&mut s, id);
            push_str(&mut s, ".so");
        },
    }
    assert(s@ =~= lib_name_spec(p, id@));
    s
}

/// The environment that decides the cache directory.
pub struct CacheEnv {
    /// `LOCALAPPDATA`, if set.
    pub local_app_data: Option<String>,
    /// `HOME`, if set.
    pub home: Option<String>,
    /// `XDG_CACHE_HOME`, if set.
    pub xdg_cache_home: Option<String>,
    /// The system temporary directory.
    pub temp_dir: String,
}

/// A path given as a root and the components joined onto it in order.
pub struct PathParts {
    pub root: String,
    pub parts: Vec<String>,
}

/// The mathematical form of a [`PathParts`].
pub struct PathView {
    pub root: Seq<char>,
    pub parts: Seq<Seq<char>>,
}

impl View for PathParts {
    type V = PathView;

    open spec fn view(&self) -> PathView {
        PathView { root: self.root@, parts: self.parts.deep_view() }
    }
}

/// The per-user cache directory: `LOCALAPPDATA` on Windows,
/// `$HOME/Library/Caches` on macOS, `XDG_CACHE_HOME` or else `$HOME/.cache`
/// on other Unix systems, and none elsewhere or when the variables are unset.
pub open spec fn cache_dir_spec(p: Platform, local: Option<Seq<char>>, home: Option<Seq<char>>, xdg: Option<Seq<char>>) -> Option<PathView> {
    match p {
        Platform::Windows => match local {
            Some(d) => Some(PathView { root: d, parts: seq![] }),
            None => None,
        },
        Platform::MacOs => match home {
            Some(h) => Some(PathView { root: h, parts: seq!["Library/Caches"@] }),
            None => None,
        },
        Platform::Linux | Platform::OtherUnix => match xdg {
            Some(d) => Some(PathView { root: d, parts: seq![] }),
            None => match home {
                Some(h) => Some(PathView { root: h, parts: seq![".cache"@] }),
                None => None,
            },
        },
        Platform::Other => None,
    }
}

/// `<cache>/shirabe/engines/<id>`, with `<temp>/shirabe-cache` for the cache
/// when there is no cache directory.
pub open spec fn cache_engine_path_spec(
    p: Platform,
    local: Option<Seq<char>>,
    home: Option<Seq<char>>,
    xdg: Option<Seq<char>>,
    temp: Seq<char>,
    id: Seq<char>,
) -> PathView {
    let base = match cache_dir_spec(p, local, home, xdg) {
        Some(d) => d,
        None => PathView { root: temp, parts: seq!["shirabe-cache"@] },
    };
    PathView { root: base.root, parts: base.parts + seq!["shirabe"@, "engines"@, id] }
}

/// A copy of an optional string.
fn copy_opt(o: &Option<String>) -> (r: Option<String>)
    ensures
        r.deep_view() == o.deep_view(),
{
    match o {
        Some(s) => Some(s.clone()),
        None => None,
    }
}

/// A `String` holding the characters of `s`.
fn owned(s: &str) -> (r: String)
    ensures
        r@ == s@,
{
    let mut r = String::new();
    push_str(&mut r, s);
    r
}

/// The per-user cache directory on platform `p`, if there is one.
pub fn cache_dir(p: Platform, env: &CacheEnv) -> (r: Option<PathParts>)
    ensures
        match r {
            Some(d) => cache_dir_spec(
                p,
                env.local_app_data.deep_view(),
                env.home.deep_view(),
                env.xdg_cache_home.deep_view(),
            ) == Some(d@),
            None => cache_dir_spec(
                p,
                env.local_app_data.deep_view(),
                env.home.deep_view(),
                env.xdg_cache_home.deep_view(),
            ) is None,
        },
{
    match p {
        Platform::Windows => match copy_opt(&env.local_app_data) {
            Some(d) => {
                let r = PathParts { root: d, parts: Vec::new() };
                assert(r@.parts =~= seq![]);
                Some(r)
            },
            None => None,
        },
        Platform::MacOs => match copy_opt(&env.home) {
            Some(h) => {
                let r = PathParts { root: h, parts: vec![owned("Library/Caches")] };
                assert(r@.parts =~= seq!["Library/Caches"@]);
                Some(r)
            },
            None => None,
        },
        Platform::Linux | Platform::OtherUnix => match copy_opt(&env.xdg_cache_home) {
            Some(d) => {
                let r = PathParts { root: d, parts: Vec::new() };
                assert(r@.parts =~= seq![]);
                Some(r)
            },
            None => match copy_opt(&env.home) {
                Some(h) => {
                    let r = PathParts { root: h, parts: vec![owned(".cache")] };
                    assert(r@.parts =~= seq![".cache"@]);
                    Some(r)
                },
                None => None,
            },
        },
        Platform::Other => None,
    }
}

/// `<cache>/shirabe/engines/<id>`, where release-fetched vendor libraries land.
pub fn cache_engine_path(p: Platform, env: &CacheEnv, id: &str) -> (r: PathParts)
    ensures
        r@ == cache_engine_path_spec(
            p,
            env.local_app_data.deep_view(),
            env.home.deep_view(),
            env.xdg_cache_home.deep_view(),
            env.temp_dir@,
            id@,
        ),
{
    let mut base = match cache_dir(p, env) {
        Some(d) => d,
        None => {
            let r = PathParts { root: env.temp_dir.clone(), parts: vec![owned("shirabe-cache")] };
            assert(r@.parts =~= seq!["shirabe-cache"@]);
            r
        },
    };
    let ghost before = base@;
    base.parts.push(owned("shirabe"));
    base.parts.push(owned("engines"));
    base.parts.push(owned(id));
    assert(base@.parts =~= before.parts + seq!["shirabe"@, "engines"@, id@]);
    base
}

/// One place where the vendor library may be: its path and whether it exists.
pub struct Candidate {
    pub path: String,
    pub exists: bool,
}

/// Where the vendor library was looked for, in order: `SHIRABE_ENGINE_PATH`
/// (when set), next to the current executable (when that is known), and the
/// cache; plus how the cache directory is displayed.
pub struct EngineLibProbes {
    pub engine_path: Option<Candidate>,
    pub beside_exe: Option<Candidate>,
    pub cached: Candidate,
    pub cache_display: String,
}

/// The first existing candidate of `c`, if it exists.
pub open spec fn found(c: Option<Candidate>) -> Option<Seq<char>> {
    match c {
        Some(x) => if x.exists {
            Some(x.path@)
        } else {
            None
        },
        None => None,
    }
}

/// The vendor library that was found, or the message that says where it
/// should go.
pub open spec fn locate_spec(id: Seq<char>, file: Seq<char>, pr: EngineLibProbes) -> Result<
    Seq<char>,
    Seq<char>,
> {
    if found(pr.engine_path) is Some {
        Ok(found(pr.engine_path)->0)
    } else if found(pr.beside_exe) is Some {
        Ok(found(pr.beside_exe)->0)
    } else if pr.cached.exists {
        Ok(pr.cached.path@)
    } else {
        Err(
            "no vendor engine lib for `"@ + id
                + "` found. Set SHIRABE_ENGINE_PATH, drop `"@ + file
                + "` next to the executable, or let shirabe fetch it from a release into "@
                + pr.cache_display@,
        )
    }
}

/// The vendor library file for engine `id` (whose file name is `file`): the
/// first candidate that exists, in the order of `probes`.
pub fn locate_engine_lib(id: &str, file: &str, probes: EngineLibProbes) -> (r: Result<
    String,
    String,
>)
    ensures
        result_view(r) == locate_spec(id@, file@, probes),
{
    let ghost pr = probes;
    let EngineLibProbes { engine_path, beside_exe, cached, cache_display } = probes;
    match engine_path {
        Some(c) => {
            if c.exists {
                return Ok(c.path);
            }
        },
        None => {},
    }
    match beside_exe {
        Some(c) => {
            if c.exists {
                return Ok(c.path);
            }
        },
        None => {},
    }
    if cached.exists {
        return Ok(cached.path);
    }
    let mut s = String::new();
    push_str(&mut s, "no vendor engine lib for `");
    push_str(&mut s, id);
    push_str(&mut s, "` found. Set SHIRABE_ENGINE_PATH, drop `");
    push_str(&mut s, file);
    push_str(&mut s, "` next to the executable, or let shirabe fetch it from a release into ");
    push_str(&mut s, cache_display.as_str());
    assert(s@ =~= locate_spec(id@, file@, pr)->Err_0);
    Err(s)
}

/// The engine id of `backend`, or the message refusing a CDP backend: only a
/// foreign backend has a vendor engine library.
pub fn foreign_engine_id(backend: Backend) -> (r: Result<&'static str, String>)
    ensures
        match r {
            Ok(id) => engine_id_spec(backend) == Some(id@),
            Err(m) => engine_id_spec(backend) is None && m@ == "backend "@ + label_spec(backend)
                + " is CDP-driven in-process; it has no foreign engine lib"@,
        },
{
    match backend.engine_id() {
        Some(id) => Ok(id),
        None => {
            let mut s = String::new();
            push_str(&mut s, "backend ");
            push_str(&mut s, backend.label());
            push_str(&mut s, " is CDP-driven in-process; it has no foreign engine lib");
            Err(s)
        },
    }
}

/// The result of a vendor `shirabe_engine_new` call that returned a null
/// handle or not.
pub fn start_status(id: &str, handle_is_null: bool) -> (r: Result<(), String>)
    ensures
        handle_is_null <==> r is Err,
        r matches Err(m) ==> m@ == "vendor engine "@ + id@ + " refused to start"@,
{
    if handle_is_null {
        let mut s = String::new();
        push_str(&mut s, "vendor engine ");
        push_str(&mut s, id);
        push_str(&mut s, " refused to start");
        Err(s)
    } else {
        Ok(())
    }
}

/// The result of a vendor `shirabe_engine_navigate` call that returned `rc`.
pub fn navigate_status(rc: i32) -> (r: Result<(), String>)
    ensures
        rc == 0 <==> r is Ok,
        r matches Err(m) ==> m@ == "vendor navigate failed (code "@ + signed_decimal(rc as int)
            + ")"@,
{
    if rc == 0 {
        Ok(())
    } else {
        let mut s = String::new();
        push_str(&mut s, "vendor navigate failed (code ");
        push_signed_decimal(&mut s, rc);
        push_str(&mut s, ")");
        Err(s)
    }
}

/// The result of a vendor `shirabe_engine_evaluate` call that returned a null
/// string or not.
pub fn evaluate_status(is_null: bool) -> (r: Result<(), String>)
    ensures
        is_null <==> r is Err,
        r matches Err(m) ==> m@ == "vendor evaluate returned null"@,
{
    if is_null {
        let mut s = String::new();
        push_str(&mut s, "vendor evaluate returned null");
        Err(s)
    } else {
        Ok(())
    }
}

/// The result of a vendor `shirabe_engine_screenshot` call that returned `rc`
/// and a null buffer or not.
pub fn screenshot_status(rc: i32, buf_is_null: bool) -> (r: Result<(), String>)
    ensures
        (rc != 0 || buf_is_null) <==> r is Err,
        r matches Err(m) ==> m@ == "vendor screenshot failed (code "@ + signed_decimal(rc as int)
            + ")"@,
{
    if rc != 0 || buf_is_null {
        let mut s = String::new();
        push_str(&mut s, "vendor screenshot failed (code ");
        push_signed_decimal(&mut s, rc);
        push_str(&mut s, ")");
        Err(s)
    } else {
        Ok(())
    }
}

} // verus!
