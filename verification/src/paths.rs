//! Where the application keeps its read-only bundle and its writable data.
use vstd::prelude::*;
use vstd::string::*;
use crate::text::{contains_str, ends_with_str, seq_contains, seq_ends_with, str_eq, trim_to_string, trimmed};
use crate::wrappers::{main_separator, string_push};

verus! {

/// How runtime data is stored.
#[derive(Clone, Copy, Debug, Eq, PartialEq, Structural)]
pub enum RuntimeMode {
    /// Everything next to the executable.
    Portable,
    /// Writable data in the per-user data directory, assets next to the executable.
    Installed,
}

/// The two roots of the application's files, and the platform's path separator.
#[derive(Clone, Debug)]
pub struct AppPaths {
    mode: RuntimeMode,
    bundle_dir: String,
    data_dir: String,
    separator: char,
}

/// The two settings files.
#[derive(Clone, Debug)]
pub struct SettingsPaths {
    pub settings_json: String,
    pub settings_user_json: String,
}

/// `c` separates path components on a platform whose main separator is `sep`.
pub open spec fn is_separator(c: char, sep: char) -> bool {
    c == '/' || c == sep
}

/// `base` joined with the relative component `child`: `child` alone when `base` is empty,
/// else `base`, a separator unless `base` already ends with one, and `child`.
pub open spec fn path_joined(base: Seq<char>, child: Seq<char>, sep: char) -> Seq<char> {
    if base.len() == 0 {
        child
    } else if is_separator(base.last(), sep) {
        base + child
    } else {
        base.push(sep) + child
    }
}

/// Joins the relative component `child` onto `base`.
pub fn join_path(base: &str, child: &str, sep: char) -> (r: String)
    ensures
        r@ == path_joined(base@, child@, sep),
{
    let n = base.unicode_len();
    let mut r = base.to_owned();
    if n == 0 {
        return child.to_owned();
    }
    let last = base.get_char(n - 1);
    if !(last == '/' || last == sep) {
        string_push(&mut r, sep);
    }
    r.append(child);
    r
}

/// Name of the cache directory.
pub open spec fn cache_name() -> Seq<char> {
    seq!['c', 'a', 'c', 'h', 'e']
}

impl AppPaths {
    /// The runtime mode.
    pub closed spec fn spec_mode(&self) -> RuntimeMode {
        self.mode
    }

    /// The directory of the shipped files.
    pub closed spec fn spec_bundle_dir(&self) -> Seq<char> {
        self.bundle_dir@
    }

    /// The directory of the user's data.
    pub closed spec fn spec_data_dir(&self) -> Seq<char> {
        self.data_dir@
    }

    /// The platform's path separator.
    pub closed spec fn spec_separator(&self) -> char {
        self.separator
    }

    /// `dir` joined with the components of `parts`, in order.
    pub open spec fn under(&self, dir: Seq<char>, parts: Seq<Seq<char>>) -> Seq<char>
        decreases parts.len(),
    {
        if parts.len() == 0 {
            dir
        } else {
            path_joined(self.under(dir, parts.drop_last()), parts.last(), self.spec_separator())
        }
    }

    proof fn lemma_under_one(&self, dir: Seq<char>, x: Seq<char>)
        ensures
            self.under(dir, seq![x]) == path_joined(dir, x, self.spec_separator()),
    {
        assert(seq![x].drop_last() =~= Seq::<Seq<char>>::empty());
        assert(self.under(dir, Seq::<Seq<char>>::empty()) == dir);
    }

    /// Portable mode: bundle and data share the directory `root`.
    pub fn new_portable(root: String) -> (r: AppPaths)
        ensures
            r.spec_mode() == RuntimeMode::Portable,
            r.spec_bundle_dir() == root@,
            r.spec_data_dir() == root@,
            r.spec_separator() == '/' || r.spec_separator() == '\\',
    {
        AppPaths { mode: RuntimeMode::Portable, bundle_dir: root.clone(), data_dir: root, separator: main_separator() }
    }

    /// Installed mode: assets in `bundle_dir`, writable data in `data_dir`.
    pub fn new_installed(bundle_dir: String, data_dir: String) -> (r: AppPaths)
        ensures
            r.spec_mode() == RuntimeMode::Installed,
            r.spec_bundle_dir() == bundle_dir@,
            r.spec_data_dir() == data_dir@,
            r.spec_separator() == '/' || r.spec_separator() == '\\',
    {
        AppPaths { mode: RuntimeMode::Installed, bundle_dir, data_dir, separator: main_separator() }
    }

    /// Paths with the given roots and mode.
    pub fn from_custom(bundle_dir: String, data_dir: String, mode: RuntimeMode) -> (r: AppPaths)
        ensures
            r.spec_mode() == mode,
            r.spec_bundle_dir() == bundle_dir@,
            r.spec_data_dir() == data_dir@,
            r.spec_separator() == '/' || r.spec_separator() == '\\',
    {
        AppPaths { mode, bundle_dir, data_dir, separator: main_separator() }
    }

    /// The runtime mode.
    pub fn mode(&self) -> (r: RuntimeMode)
        ensures
            r == self.spec_mode(),
    {
        self.mode
    }

    /// Whether bundle and data share one directory.
    pub fn is_portable(&self) -> (r: bool)
        ensures
            r == (self.spec_mode() == RuntimeMode::Portable),
    {
        self.mode == RuntimeMode::Portable
    }

    /// The read-only asset directory.
    pub fn bundle_dir(&self) -> (r: &str)
        ensures
            r@ == self.spec_bundle_dir(),
    {
        self.data_dir_or_bundle(true)
    }

    /// The writable data directory.
    pub fn data_dir(&self) -> (r: &str)
        ensures
            r@ == self.spec_data_dir(),
    {
        self.data_dir_or_bundle(false)
    }

    fn data_dir_or_bundle(&self, bundle: bool) -> (r: &str)
        ensures
            r@ == (if bundle { self.spec_bundle_dir() } else { self.spec_data_dir() }),
    {
        if bundle {
            self.bundle_dir.as_str()
        } else {
            self.data_dir.as_str()
        }
    }

    /// `data_dir/cache`.
    pub fn cache_dir(&self) -> (r: String)
        ensures
            r@ == self.under(self.spec_data_dir(), seq![cache_name()]),
    {
        proof {
            reveal_strlit("cache");
            assert("cache"@ =~= cache_name());
            self.lemma_under_one(self.spec_data_dir(), cache_name());
        }
        join_path(self.data_dir.as_str(), "cache", self.separator)
    }

    /// `data_dir/cache/<name>`.
    fn cache_file(&self, name: &str) -> (r: String)
        ensures
            r@ == self.under(self.spec_data_dir(), seq![cache_name(), name@]),
    {
        let dir = self.cache_dir();
        proof {
            assert(seq![cache_name(), name@].drop_last() =~= seq![cache_name()]);
        }
        join_path(dir.as_str(), name, self.separator)
    }

    /// `bundle_dir/settings.json`.
    pub fn settings_json(&self) -> (r: String)
        ensures
            r@ == self.under(self.spec_bundle_dir(), seq!["settings.json"@]),
    {
        proof {
            self.lemma_under_one(self.spec_bundle_dir(), "settings.json"@);
        }
        join_path(self.bundle_dir.as_str(), "settings.json", self.separator)
    }

    /// `data_dir/settings.user.json`.
    pub fn settings_user_json(&self) -> (r: String)
        ensures
            r@ == self.under(self.spec_data_dir(), seq!["settings.user.json"@]),
    {
        proof {
            self.lemma_under_one(self.spec_data_dir(), "settings.user.json"@);
        }
        join_path(self.data_dir.as_str(), "settings.user.json", self.separator)
    }

    /// `data_dir/cache/record.db`.
    pub fn record_db(&self) -> (r: String)
        ensures
            r@ == self.under(self.spec_data_dir(), seq![cache_name(), "record.db"@]),
    {
        self.cache_file("record.db")
    }

    /// `data_dir/cache/songs.json`.
    pub fn songs_json(&self) -> (r: String)
        ensures
            r@ == self.under(self.spec_data_dir(), seq![cache_name(), "songs.json"@]),
    {
        self.cache_file("songs.json")
    }

    /// `data_dir/cache/dlcs.json`.
    pub fn dlcs_json(&self) -> (r: String)
        ensures
            r@ == self.under(self.spec_data_dir(), seq![cache_name(), "dlcs.json"@]),
    {
        self.cache_file("dlcs.json")
    }

    /// `data_dir/cache/image_index.db`.
    pub fn image_index_db(&self) -> (r: String)
        ensures
            r@ == self.under(self.spec_data_dir(), seq![cache_name(), "image_index.db"@]),
    {
        self.cache_file("image_index.db")
    }

    /// `data_dir/cache/pattern_meta.json`.
    pub fn pattern_meta_json(&self) -> (r: String)
        ensures
            r@ == self.under(self.spec_data_dir(), seq![cache_name(), "pattern_meta.json"@]),
    {
        self.cache_file("pattern_meta.json")
    }

    /// `data_dir/cache/ipc_endpoint.json`.
    pub fn ipc_endpoint_json(&self) -> (r: String)
        ensures
            r@ == self.under(self.spec_data_dir(), seq![cache_name(), "ipc_endpoint.json"@]),
    {
        self.cache_file("ipc_endpoint.json")
    }

    /// `data_dir/cache/telemetry.log`.
    pub fn telemetry_log(&self) -> (r: String)
        ensures
            r@ == self.under(self.spec_data_dir(), seq![cache_name(), "telemetry.log"@]),
    {
        self.cache_file("telemetry.log")
    }

    /// `data_dir/cache/telemetry.prev.log`.
    pub fn telemetry_prev_log(&self) -> (r: String)
        ensures
            r@ == self.under(self.spec_data_dir(), seq![cache_name(), "telemetry.prev.log"@]),
    {
        self.cache_file("telemetry.prev.log")
    }

    /// `data_dir/cache/varchive`.
    pub fn varchive_cache_dir(&self) -> (r: String)
        ensures
            r@ == self.under(self.spec_data_dir(), seq![cache_name(), "varchive"@]),
    {
        self.cache_file("varchive")
    }

    /// Both settings files.
    pub fn settings_paths(&self) -> (r: SettingsPaths)
        ensures
            r.settings_json@ == self.under(self.spec_bundle_dir(), seq!["settings.json"@]),
            r.settings_user_json@ == self.under(self.spec_data_dir(), seq!["settings.user.json"@]),
    {
        SettingsPaths { settings_json: self.settings_json(), settings_user_json: self.settings_user_json() }
    }
}


/// `dir` looks like a cargo build directory (`target/debug`, `target/release`, with either separator).
pub open spec fn looks_like_cargo_target(d: Seq<char>) -> bool {
    seq_ends_with(d, "target\\debug"@) || seq_ends_with(d, "target/debug"@) || seq_ends_with(
        d,
        "target\\release"@,
    ) || seq_ends_with(d, "target/release"@) || seq_contains(d, "target\\debug\\"@)
        || seq_contains(d, "target/debug/"@) || seq_contains(d, "target\\release\\"@)
        || seq_contains(d, "target/release/"@)
}

/// Whether `dir` (its text) is inside a cargo build directory.
pub fn is_cargo_target_dir(dir: &str) -> (r: bool)
    ensures
        r == looks_like_cargo_target(dir@),
{
    ends_with_str(dir, "target\\debug") || ends_with_str(dir, "target/debug") || ends_with_str(
        dir,
        "target\\release",
    ) || ends_with_str(dir, "target/release") || contains_str(dir, "target\\debug\\")
        || contains_str(dir, "target/debug/") || contains_str(dir, "target\\release\\")
        || contains_str(dir, "target/release/")
}

/// The directory the bundle is taken from: the workspace root when running from a cargo build
/// directory (else the working directory, else the executable's directory); the working
/// directory when it already holds user data; the executable's directory; the working
/// directory; or `.`.
pub open spec fn base_bundle(
    exe_dir: Option<Seq<char>>,
    current_dir: Option<Seq<char>>,
    workspace_root: Option<Seq<char>>,
    cwd_has_user_data: bool,
) -> Seq<char> {
    match exe_dir {
        Some(exe) if looks_like_cargo_target(exe) => match workspace_root {
            Some(ws) => ws,
            None => match current_dir {
                Some(cwd) => cwd,
                None => exe,
            },
        },
        _ => match current_dir {
            Some(cwd) if cwd_has_user_data => cwd,
            _ => match exe_dir {
                Some(exe) => exe,
                None => match current_dir {
                    Some(cwd) => cwd,
                    None => seq!['.'],
                },
            },
        },
    }
}

/// Chooses the bundle directory. `workspace_root` is the nearest ancestor of `exe_dir` holding a
/// `Cargo.toml`, and `cwd_has_user_data` whether the working directory holds
/// `settings.user.json`, `cache/record.db` or `.portable`.
pub fn base_bundle_dir(
    exe_dir: Option<String>,
    current_dir: Option<String>,
    workspace_root: Option<String>,
    cwd_has_user_data: bool,
) -> (r: String)
    ensures
        r@ == base_bundle(
            match exe_dir { Some(e) => Some(e@), None => None },
            match current_dir { Some(c) => Some(c@), None => None },
            match workspace_root { Some(w) => Some(w@), None => None },
            cwd_has_user_data,
        ),
{
    let exe_is_target = match &exe_dir {
        Some(exe) => is_cargo_target_dir(exe.as_str()),
        None => false,
    };
    if exe_is_target {
        match workspace_root {
            Some(ws) => ws,
            None => match current_dir {
                Some(cwd) => cwd,
                None => exe_dir.unwrap(),
            },
        }
    } else {
        match current_dir {
            Some(cwd) if cwd_has_user_data => cwd,
            _ => match exe_dir {
                Some(exe) => exe,
                None => match current_dir {
                    Some(cwd) => cwd,
                    None => {
                        proof {
                            reveal_strlit(".");
                        }
                        ".".to_owned()
                    },
                },
            },
        }
    }
}

/// ASCII lower-casing of one character.
pub open spec fn ascii_lower(c: char) -> char {
    if 'A' <= c && c <= 'Z' {
        ((c as u32) + 32) as char
    } else {
        c
    }
}

/// `s` lower-cased in ASCII equals `lower`.
pub open spec fn eq_ascii_lowered(s: Seq<char>, lower: Seq<char>) -> bool {
    s.len() == lower.len() && forall|i: int| 0 <= i < s.len() ==> ascii_lower(#[trigger] s[i]) == lower[i]
}

/// Whether `s`, lower-cased in ASCII, equals the lower-case text `lower`.
pub fn ascii_lowered_equals(s: &str, lower: &str) -> (r: bool)
    ensures
        r == eq_ascii_lowered(s@, lower@),
{
    let n = s.unicode_len();
    if n != lower.unicode_len() {
        return false;
    }
    let mut i: usize = 0;
    while i < n
        invariant
            n == s@.len(),
            n == lower@.len(),
            i <= n,
            forall|k: int| 0 <= k < i ==> ascii_lower(#[trigger] s@[k]) == lower@[k],
        decreases n - i,
    {
        let c = s.get_char(i);
        let l = lower.get_char(i);
        let same = if 'A' <= c && c <= 'Z' {
            (c as u32) + 32 == (l as u32)
        } else {
            c == l
        };
        if !same {
            return false;
        }
        i = i + 1;
    }
    true
}

/// What the process environment says about the data location.
pub struct EnvOverrides {
    /// `OVERMAX_DATA_DIR`, if set.
    pub data_dir: Option<String>,
    /// `OVERMAX_PORTABLE`, if set.
    pub portable: Option<String>,
}

/// Facts about the bundle directory and the platform.
pub struct BundleProbes {
    /// `.portable` is a file in the bundle directory.
    pub portable_marker: bool,
    /// The process runs inside an MSIX package.
    pub in_msix_package: bool,
    /// The bundle directory already holds `settings.user.json` or `cache/record.db`.
    pub has_existing_data: bool,
    /// A file can be created in the bundle directory.
    pub writable: bool,
}

/// `OVERMAX_PORTABLE` asks for portable mode: `1`, `true` or `yes`, ignoring case and
/// surrounding white space.
pub open spec fn portable_requested(v: Seq<char>) -> bool {
    let t = trimmed(v);
    eq_ascii_lowered(t, seq!['1']) || eq_ascii_lowered(t, seq!['t', 'r', 'u', 'e'])
        || eq_ascii_lowered(t, seq!['y', 'e', 's'])
}

/// The mode and data directory chosen for bundle `base`:
/// a non-blank `OVERMAX_DATA_DIR` (trimmed) selects installed mode with that directory;
/// `OVERMAX_PORTABLE` requesting it, a `.portable` marker, existing writable data or a writable
/// bundle directory select portable mode; an MSIX package, or else a read-only bundle
/// directory, select installed mode with the per-user data directory (`base` when unknown).
pub open spec fn chosen_layout(
    base: Seq<char>,
    env_data_dir: Option<Seq<char>>,
    env_portable: Option<Seq<char>>,
    portable_marker: bool,
    in_msix: bool,
    has_existing_data: bool,
    writable: bool,
    local_data_dir: Option<Seq<char>>,
) -> (RuntimeMode, Seq<char>) {
    let local = match local_data_dir {
        Some(d) => d,
        None => base,
    };
    if env_data_dir is Some && trimmed(env_data_dir->0).len() > 0 {
        (RuntimeMode::Installed, trimmed(env_data_dir->0))
    } else if env_portable is Some && portable_requested(env_portable->0) {
        (RuntimeMode::Portable, base)
    } else if portable_marker {
        (RuntimeMode::Portable, base)
    } else if in_msix {
        (RuntimeMode::Installed, local)
    } else if has_existing_data && writable {
        (RuntimeMode::Portable, base)
    } else if writable {
        (RuntimeMode::Portable, base)
    } else {
        (RuntimeMode::Installed, local)
    }
}

/// How the layout is chosen, case by case. A non-blank data-directory override wins and
/// selects installed mode with that directory (trimmed). Without it, a portable request
/// or a `.portable` marker selects portable mode. Without those, an MSIX package or a
/// read-only bundle directory selects installed mode with the per-user data directory
/// whenever one is known (the bundle directory only when none is), and a writable bundle
/// directory outside a package selects portable mode. Portable mode always keeps the data
/// in the bundle directory.
pub proof fn lemma_layout_cases(
    base: Seq<char>,
    env_data_dir: Option<Seq<char>>,
    env_portable: Option<Seq<char>>,
    portable_marker: bool,
    in_msix: bool,
    has_existing_data: bool,
    writable: bool,
    local_data_dir: Option<Seq<char>>,
)
    ensures
        ({
            let (mode, data) = chosen_layout(
                base,
                env_data_dir,
                env_portable,
                portable_marker,
                in_msix,
                has_existing_data,
                writable,
                local_data_dir,
            );
            let data_override = env_data_dir is Some && trimmed(env_data_dir->0).len() > 0;
            let portable_asked = env_portable is Some && portable_requested(env_portable->0);
            let per_user = match local_data_dir {
                Some(d) => d,
                None => base,
            };
            &&& data_override ==> mode == RuntimeMode::Installed && data == trimmed(env_data_dir->0)
            &&& !data_override && (portable_asked || portable_marker) ==> mode == RuntimeMode::Portable
            &&& !data_override && !portable_asked && !portable_marker && (in_msix || !writable) ==> mode
                == RuntimeMode::Installed && data == per_user
            &&& !data_override && !portable_asked && !portable_marker && !in_msix && writable ==> mode
                == RuntimeMode::Portable
            &&& mode == RuntimeMode::Portable ==> data == base
        }),
{
}

/// Decides the runtime layout for bundle directory `base`.
pub fn decide_app_paths(base: String, env: &EnvOverrides, probes: &BundleProbes, local_data_dir: Option<String>) -> (r: AppPaths)
    ensures
        r.spec_bundle_dir() == base@,
        (r.spec_mode(), r.spec_data_dir()) == chosen_layout(
            base@,
            match &env.data_dir { Some(d) => Some(d@), None => None },
            match &env.portable { Some(p) => Some(p@), None => None },
            probes.portable_marker,
            probes.in_msix_package,
            probes.has_existing_data,
            probes.writable,
            match local_data_dir { Some(d) => Some(d@), None => None },
        ),
        r.spec_separator() == '/' || r.spec_separator() == '\\',
{
    proof {
        reveal_strlit("1");
        reveal_strlit("true");
        reveal_strlit("yes");
        assert("1"@ =~= seq!['1']);
        assert("true"@ =~= seq!['t', 'r', 'u', 'e']);
        assert("yes"@ =~= seq!['y', 'e', 's']);
    }
    if let Some(custom) = &env.data_dir {
        let t = trim_to_string(custom.as_str());
        if !t.as_str().is_empty() {
            return AppPaths::new_installed(base, t);
        }
    }
    if let Some(flag) = &env.portable {
        let t = trim_to_string(flag.as_str());
        if ascii_lowered_equals(t.as_str(), "1") || ascii_lowered_equals(t.as_str(), "true")
            || ascii_lowered_equals(t.as_str(), "yes") {
            return AppPaths::new_portable(base);
        }
    }
    if probes.portable_marker {
        return AppPaths::new_portable(base);
    }
    if probes.in_msix_package {
        let data = match local_data_dir {
            Some(d) => d,
            None => base.clone(),
        };
        return AppPaths::new_installed(base, data);
    }
    if probes.has_existing_data && probes.writable {
        return AppPaths::new_portable(base);
    }
    if probes.writable {
        return AppPaths::new_portable(base);
    }
    let data = match local_data_dir {
        Some(d) => d,
        None => base.clone(),
    };
    AppPaths::new_installed(base, data)
}

} // verus!
