//! System and application directories, computed from the environment values
//! the caller hands in; reading the environment itself stays outside this
//! crate.

use vstd::prelude::*;

verus! {

/// `base` and `tail` joined with one separating `/`.
pub open spec fn spec_join(base: Seq<char>, tail: Seq<char>) -> Seq<char> {
    base + "/"@ + tail
}

/// Joins a base directory and a path component with a `/`.
pub fn join_path(base: &str, tail: &str) -> (r: String)
    ensures
        r@ == spec_join(base@, tail@),
{
    String::from_str(base).concat("/").concat(tail)
}

/// The user's cache directory: the dedicated environment override, or a
/// `.cache` directory under the home directory.
pub fn get_app_cache(xdg_cache_home: Option<String>, home: Option<&str>) -> (r: Option<String>)
    ensures
        match xdg_cache_home {
            Some(x) => r matches Some(p) && p@ == x@,
            None => match home {
                Some(h) => r matches Some(p) && p@ == spec_join(h@, ".cache"@),
                None => r is None,
            },
        },
{
    match xdg_cache_home {
        Some(x) => Some(x),
        None => match home {
            Some(h) => Some(join_path(h, ".cache")),
            None => None,
        },
    }
}

/// The user's configuration directory: the dedicated environment override,
/// or a `.config` directory under the home directory.
pub fn get_app_config(xdg_config_home: Option<String>, home: Option<&str>) -> (r: Option<String>)
    ensures
        match xdg_config_home {
            Some(x) => r matches Some(p) && p@ == x@,
            None => match home {
                Some(h) => r matches Some(p) && p@ == spec_join(h@, ".config"@),
                None => r is None,
            },
        },
{
    match xdg_config_home {
        Some(x) => Some(x),
        None => match home {
            Some(h) => Some(join_path(h, ".config")),
            None => None,
        },
    }
}

/// The user's data directory: the dedicated environment override, or a
/// `.local/share` directory under the home directory.
pub fn get_app_data(xdg_data_home: Option<String>, home: Option<&str>) -> (r: Option<String>)
    ensures
        match xdg_data_home {
            Some(x) => r matches Some(p) && p@ == x@,
            None => match home {
                Some(h) => r matches Some(p) && p@ == spec_join(h@, ".local/share"@),
                None => r is None,
            },
        },
{
    match xdg_data_home {
        Some(x) => Some(x),
        None => match home {
            Some(h) => Some(join_path(h, ".local/share")),
            None => None,
        },
    }
}

/// Per-application log directories have no system-wide home on this
/// platform.
pub fn get_app_logs() -> (r: Option<String>)
    ensures
        r is None,
{
    None
}

/// Per-application document directories have no system-wide home on this
/// platform.
pub fn get_app_documents() -> (r: Option<String>)
    ensures
        r is None,
{
    None
}

/// The user's home directory, exactly as the environment reports it.
pub fn get_user_home(home: Option<String>) -> (r: Option<String>)
    ensures
        match home {
            Some(h) => r matches Some(p) && p@ == h@,
            None => r is None,
        },
{
    home
}

/// The user's documents directory: the dedicated environment override, or
/// `Documents` under the home directory.
pub fn get_user_documents(xdg_documents_dir: Option<String>, home: Option<&str>) -> (r: Option<
    String,
>)
    ensures
        match xdg_documents_dir {
            Some(x) => r matches Some(p) && p@ == x@,
            None => match home {
                Some(h) => r matches Some(p) && p@ == spec_join(h@, "Documents"@),
                None => r is None,
            },
        },
{
    match xdg_documents_dir {
        Some(x) => Some(x),
        None => match home {
            Some(h) => Some(join_path(h, "Documents")),
            None => None,
        },
    }
}

/// The user's downloads directory: the dedicated environment override, or
/// `Downloads` under the home directory.
pub fn get_user_downloads(xdg_download_dir: Option<String>, home: Option<&str>) -> (r: Option<
    String,
>)
    ensures
        match xdg_download_dir {
            Some(x) => r matches Some(p) && p@ == x@,
            None => match home {
                Some(h) => r matches Some(p) && p@ == spec_join(h@, "Downloads"@),
                None => r is None,
            },
        },
{
    match xdg_download_dir {
        Some(x) => Some(x),
        None => match home {
            Some(h) => Some(join_path(h, "Downloads")),
            None => None,
        },
    }
}

/// The system directories an application's own directories derive from,
/// queried once by the caller.
pub struct SystemDirs {
    /// The system cache directory.
    pub cache: Option<String>,
    /// The system configuration directory.
    pub config: Option<String>,
    /// The system data directory.
    pub data: Option<String>,
    /// The system log directory.
    pub logs: Option<String>,
    /// The system per-application documents directory.
    pub documents: Option<String>,
}

/// The mathematical image of the optional texts of [SystemDirs].
pub ghost struct SystemDirsView {
    /// The system cache directory.
    pub cache: Option<Seq<char>>,
    /// The system configuration directory.
    pub config: Option<Seq<char>>,
    /// The system data directory.
    pub data: Option<Seq<char>>,
    /// The system log directory.
    pub logs: Option<Seq<char>>,
    /// The system per-application documents directory.
    pub documents: Option<Seq<char>>,
}

/// The view of one optional text.
pub open spec fn opt_view(o: Option<String>) -> Option<Seq<char>> {
    match o {
        Some(s) => Some(s@),
        None => None,
    }
}

impl View for SystemDirs {
    type V = SystemDirsView;

    open spec fn view(&self) -> SystemDirsView {
        SystemDirsView {
            cache: opt_view(self.cache),
            config: opt_view(self.config),
            data: opt_view(self.data),
            logs: opt_view(self.logs),
            documents: opt_view(self.documents),
        }
    }
}

/// The application's data directory: the system data directory with the
/// application's name appended.
pub open spec fn spec_app_data(sys: SystemDirsView, name: Seq<char>) -> Option<Seq<char>> {
    match sys.data {
        Some(d) => Some(spec_join(d, name)),
        None => None,
    }
}

/// The application's cache: the system cache with the name appended, else
/// `Cache` under the application's data directory.
pub open spec fn spec_app_cache(sys: SystemDirsView, name: Seq<char>) -> Option<Seq<char>> {
    match sys.cache {
        Some(c) => Some(spec_join(c, name)),
        None => match spec_app_data(sys, name) {
            Some(d) => Some(spec_join(d, "Cache"@)),
            None => None,
        },
    }
}

/// The application's documents: the system per-application documents
/// directory, else `Documents` under the application's data directory.
pub open spec fn spec_app_documents(sys: SystemDirsView, name: Seq<char>) -> Option<Seq<char>> {
    match sys.documents {
        Some(d) => Some(d),
        None => match spec_app_data(sys, name) {
            Some(d) => Some(spec_join(d, "Documents"@)),
            None => None,
        },
    }
}

/// The application's logs: the system log directory with the name
/// appended, else `Logs` under the application's documents.
pub open spec fn spec_app_logs(sys: SystemDirsView, name: Seq<char>) -> Option<Seq<char>> {
    match sys.logs {
        Some(l) => Some(spec_join(l, name)),
        None => match spec_app_documents(sys, name) {
            Some(d) => Some(spec_join(d, "Logs"@)),
            None => None,
        },
    }
}

/// The application's configuration: the system configuration directory
/// with the name appended, else `Config` under the application's data
/// directory.
pub open spec fn spec_app_config(sys: SystemDirsView, name: Seq<char>) -> Option<Seq<char>> {
    match sys.config {
        Some(c) => Some(spec_join(c, name)),
        None => match spec_app_data(sys, name) {
            Some(d) => Some(spec_join(d, "Config"@)),
            None => None,
        },
    }
}

/// Represents the application's directories: the main entry point to
/// obtain any directory for an application. The system-level directories
/// are handed in once; every accessor derives from them and falls back as
/// documented, without touching the system again.
pub struct App {
    name: String,
    sys: SystemDirs,
}

impl App {
    /// The application's name.
    pub closed spec fn name_view(&self) -> Seq<char> {
        self.name@
    }

    /// The system directories this application derives from.
    pub closed spec fn sys_view(&self) -> SystemDirsView {
        self.sys@
    }

    /// Creates a new application with no known system directories: every
    /// accessor then returns nothing.
    pub fn new(name: &str) -> (r: App)
        ensures
            r.name_view() == name@,
            r.sys_view() == (SystemDirsView {
                cache: None::<Seq<char>>,
                config: None::<Seq<char>>,
                data: None::<Seq<char>>,
                logs: None::<Seq<char>>,
                documents: None::<Seq<char>>,
            }),
    {
        App {
            name: String::from_str(name),
            sys: SystemDirs { cache: None, config: None, data: None, logs: None, documents: None },
        }
    }

    /// Creates a new application over the given system directories.
    pub fn with_dirs(name: &str, sys: SystemDirs) -> (r: App)
        ensures
            r.name_view() == name@,
            r.sys_view() == sys@,
    {
        App { name: String::from_str(name), sys }
    }

    /// The application's data directory.
    pub fn get_data(&self) -> (r: Option<String>)
        ensures
            opt_view(r) == spec_app_data(self.sys_view(), self.name_view()),
    {
        match &self.sys.data {
            Some(d) => Some(join_path(d.as_str(), self.name.as_str())),
            None => None,
        }
    }

    /// The application's cache directory.
    pub fn get_cache(&self) -> (r: Option<String>)
        ensures
            opt_view(r) == spec_app_cache(self.sys_view(), self.name_view()),
    {
        match &self.sys.cache {
            Some(c) => Some(join_path(c.as_str(), self.name.as_str())),
            None => match self.get_data() {
                Some(d) => Some(join_path(d.as_str(), "Cache")),
                None => None,
            },
        }
    }

    /// The application's public documents directory.
    pub fn get_documents(&self) -> (r: Option<String>)
        ensures
            opt_view(r) == spec_app_documents(self.sys_view(), self.name_view()),
    {
        match &self.sys.documents {
            Some(d) => Some(String::from_str(d.as_str())),
            None => match self.get_data() {
                Some(d) => Some(join_path(d.as_str(), "Documents")),
                None => None,
            },
        }
    }

    /// The application's log directory.
    pub fn get_logs(&self) -> (r: Option<String>)
        ensures
            opt_view(r) == spec_app_logs(self.sys_view(), self.name_view()),
    {
        match &self.sys.logs {
            Some(l) => Some(join_path(l.as_str(), self.name.as_str())),
            None => match self.get_documents() {
                Some(d) => Some(join_path(d.as_str(), "Logs")),
                None => None,
            },
        }
    }

    /// The application's configuration directory.
    pub fn get_config(&self) -> (r: Option<String>)
        ensures
            opt_view(r) == spec_app_config(self.sys_view(), self.name_view()),
    {
        match &self.sys.config {
            Some(c) => Some(join_path(c.as_str(), self.name.as_str())),
            None => match self.get_data() {
                Some(d) => Some(join_path(d.as_str(), "Config")),
                None => None,
            },
        }
    }
}

/// An application path, ready to be created on disk and joined further.
pub struct AppPath {
    path: String,
}

impl AppPath {
    /// The path itself.
    pub closed spec fn path_view(&self) -> Seq<char> {
        self.path@
    }

    /// Wraps a computed application path.
    pub fn new(path: String) -> (r: AppPath)
        ensures
            r.path_view() == path@,
    {
        AppPath { path }
    }

    /// The underlying path text.
    pub fn as_str(&self) -> (r: &str)
        ensures
            r@ == self.path_view(),
    {
        self.path.as_str()
    }

    /// Joins the underlying path with another component.
    pub fn join(&self, path: &str) -> (r: String)
        ensures
            r@ == spec_join(self.path_view(), path@),
    {
        join_path(self.path.as_str(), path)
    }
}

} // verus!
