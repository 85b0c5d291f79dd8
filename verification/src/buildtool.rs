//! The build-time generator of a module crate's glue: its embedded
//! metadata descriptor, its mandatory init and uninit hooks, optional open,
//! close and diagnostics hooks, and the virtual library table for fully
//! static builds. Reading the build environment and writing the generated
//! file stay outside this crate; the text is assembled and pinned down
//! here. The generated code names the paths a host runtime exposes to
//! module crates for attaching to the shared loader.

use vstd::prelude::*;

use crate::strutil::{normalize_name, spec_normalize_name, spec_upper, to_upper};

verus! {

/// The embedded metadata descriptor of a module, NUL-guarded on both
/// sides, as it stands in the generated static.
pub open spec fn spec_descriptor(
    name: Seq<char>,
    version: Seq<char>,
    rustc: Seq<char>,
    deps: Seq<char>,
    features: Seq<char>,
) -> Seq<char> {
    "\"\u{0}BP3D_OS_MODULE|TYPE=RUST|NAME="@ + name + "|VERSION="@ + version + "|RUSTC="@ + rustc
        + "|DEPS="@ + deps + "|FEATURES="@ + features + "\u{0}\""@
}

/// The generated static holding the descriptor.
pub open spec fn spec_descriptor_static(const_name: Seq<char>, descriptor: Seq<char>) -> Seq<
    char,
> {
    "\n    #[unsafe(no_mangle)]\n    static mut "@ + const_name + ": *const std::ffi::c_char = "@
        + descriptor + ".as_ptr() as _;\n"@
}

/// One generated hook function: exported under `symbol`, with the given
/// ABI, parameter list and body line.
pub open spec fn spec_hook(
    abi: Seq<char>,
    symbol: Seq<char>,
    params: Seq<char>,
    body: Seq<char>,
) -> Seq<char> {
    "\n    #[unsafe(no_mangle)]\n    #[inline(never)]\n    pub extern "@ + abi + " fn "@ + symbol
        + "("@ + params + ") {\n        "@ + body + "\n    }\n"@
}

/// One more entry of the generated virtual library table.
pub open spec fn spec_export_entry(func_name: Seq<char>) -> Seq<char> {
    ",\n        (\""@ + func_name + "\", "@ + func_name + " as _)"@
}

/// Builds the glue code of one module crate. The caller gathers the build
/// environment — crate name and version, toolchain fingerprint, the locked
/// dependency list and the enabled features — and writes the finished text
/// where the build expects it.
pub struct ModuleMain {
    rust_code: String,
    out_path: String,
    crate_name: String,
    virtual_lib: String,
}

impl ModuleMain {
    /// The generated code so far.
    pub closed spec fn code_view(&self) -> Seq<char> {
        self.rust_code@
    }

    /// The generated virtual library table so far, still open.
    pub closed spec fn virtual_lib_view(&self) -> Seq<char> {
        self.virtual_lib@
    }

    /// The normalized crate name.
    pub closed spec fn crate_name_view(&self) -> Seq<char> {
        self.crate_name@
    }

    /// Where the generated file belongs.
    pub closed spec fn out_path_view(&self) -> Seq<char> {
        self.out_path@
    }

    /// The header of the generated virtual library table.
    pub open spec fn spec_table_open(name: Seq<char>, const_name: Seq<char>) -> Seq<char> {
        "\n    #[allow(static_mut_refs)]\n    pub static VIRTUAL_MODULE: bp3d_os::loader::VirtualLibrary = bp3d_os::loader::VirtualLibrary::new(\""@
            + name + "\", &[\n        (\""@ + const_name + "\", unsafe { &"@ + const_name
            + " as *const *const i8 as *const std::ffi::c_void })"@
    }

    /// The init hook body: the freshly loaded module attaches to the
    /// loader that loaded it instead of creating its own.
    pub open spec fn spec_init_hook(name: Seq<char>) -> Seq<char> {
        spec_hook(
            "\"C\""@,
            "bp3d_os_module_"@ + name + "_init"@,
            "loader: &'static std::sync::Mutex<bp3d_os::loader::ModuleLoader>"@,
            "bp3d_os::loader::install_from_existing(loader);"@,
        )
    }

    /// The uninit hook body: the module detaches on its final unload.
    pub open spec fn spec_uninit_hook(name: Seq<char>) -> Seq<char> {
        spec_hook(
            "\"C\""@,
            "bp3d_os_module_"@ + name + "_uninit"@,
            Seq::<char>::empty(),
            "bp3d_os::loader::uninstall();"@,
        )
    }

    /// Starts the glue of one module crate: the descriptor static, the
    /// mandatory init and uninit hooks, and the opening of the virtual
    /// library table, both hooks already exported.
    pub fn new(
        crate_name: &str,
        crate_version: &str,
        rustc_version: &str,
        deps_list: &str,
        features_list: &str,
        out_path: &str,
    ) -> (r: ModuleMain)
        ensures
            r.crate_name_view() == spec_normalize_name(crate_name@),
            r.out_path_view() == out_path@,
            r.code_view() == spec_descriptor_static(
                "BP3D_OS_MODULE_"@ + spec_upper(spec_normalize_name(crate_name@)),
                spec_descriptor(
                    spec_normalize_name(crate_name@),
                    crate_version@,
                    rustc_version@,
                    deps_list@,
                    features_list@,
                ),
            ) + ModuleMain::spec_init_hook(spec_normalize_name(crate_name@))
                + ModuleMain::spec_uninit_hook(spec_normalize_name(crate_name@)),
            r.virtual_lib_view() == ModuleMain::spec_table_open(
                spec_normalize_name(crate_name@),
                "BP3D_OS_MODULE_"@ + spec_upper(spec_normalize_name(crate_name@)),
            ) + spec_export_entry("bp3d_os_module_"@ + spec_normalize_name(crate_name@) + "_init"@)
                + spec_export_entry(
                "bp3d_os_module_"@ + spec_normalize_name(crate_name@) + "_uninit"@,
            ),
    {
        let name = normalize_name(crate_name);
        let const_name = String::from_str("BP3D_OS_MODULE_").concat(
            to_upper(name.as_str()).as_str(),
        );
        let descriptor = String::from_str("\"\u{0}BP3D_OS_MODULE|TYPE=RUST|NAME=").concat(
            name.as_str(),
        ).concat("|VERSION=").concat(crate_version).concat("|RUSTC=").concat(rustc_version).concat(
            "|DEPS=",
        ).concat(deps_list).concat("|FEATURES=").concat(features_list).concat("\u{0}\"");
        proof {
            assert(descriptor@ =~= spec_descriptor(
                name@,
                crate_version@,
                rustc_version@,
                deps_list@,
                features_list@,
            ));
        }
        let rust_code = String::from_str("\n    #[unsafe(no_mangle)]\n    static mut ").concat(
            const_name.as_str(),
        ).concat(": *const std::ffi::c_char = ").concat(descriptor.as_str()).concat(
            ".as_ptr() as _;\n",
        );
        proof {
            assert(rust_code@ =~= spec_descriptor_static(const_name@, descriptor@));
        }
        let virtual_lib = String::from_str(
            "\n    #[allow(static_mut_refs)]\n    pub static VIRTUAL_MODULE: bp3d_os::loader::VirtualLibrary = bp3d_os::loader::VirtualLibrary::new(\"",
        ).concat(name.as_str()).concat("\", &[\n        (\"").concat(const_name.as_str()).concat(
            "\", unsafe { &",
        ).concat(const_name.as_str()).concat(" as *const *const i8 as *const std::ffi::c_void })");
        proof {
            assert(virtual_lib@ =~= ModuleMain::spec_table_open(name@, const_name@));
        }
        let this = ModuleMain {
            rust_code,
            out_path: String::from_str(out_path),
            crate_name: name,
            virtual_lib,
        };
        let this = this.add_init();
        let this = this.add_uninit();
        this
    }

    /// Appends one exported symbol to the generated virtual library table.
    pub fn add_export(self, func_name: &str) -> (r: Self)
        ensures
            r.virtual_lib_view() == self.virtual_lib_view() + spec_export_entry(func_name@),
            r.code_view() == self.code_view(),
            r.crate_name_view() == self.crate_name_view(),
            r.out_path_view() == self.out_path_view(),
    {
        let entry = String::from_str(",\n        (\"").concat(func_name).concat("\", ").concat(
            func_name,
        ).concat(" as _)");
        proof {
            assert(entry@ =~= spec_export_entry(func_name@));
        }
        ModuleMain {
            rust_code: self.rust_code,
            out_path: self.out_path,
            crate_name: self.crate_name,
            virtual_lib: self.virtual_lib.concat(entry.as_str()),
        }
    }

    /// Generates one hook function and exports it.
    fn add_hook(self, abi: &str, symbol: &str, params: &str, body: &str) -> (r: Self)
        ensures
            r.code_view() == self.code_view() + spec_hook(abi@, symbol@, params@, body@),
            r.virtual_lib_view() == self.virtual_lib_view() + spec_export_entry(symbol@),
            r.crate_name_view() == self.crate_name_view(),
            r.out_path_view() == self.out_path_view(),
    {
        let code = String::from_str("\n    #[unsafe(no_mangle)]\n    #[inline(never)]\n    pub extern ")
            .concat(abi).concat(" fn ").concat(symbol).concat("(").concat(params).concat(
            ") {\n        ",
        ).concat(body).concat("\n    }\n");
        proof {
            assert(code@ =~= spec_hook(abi@, symbol@, params@, body@));
        }
        let this = ModuleMain {
            rust_code: self.rust_code.concat(code.as_str()),
            out_path: self.out_path,
            crate_name: self.crate_name,
            virtual_lib: self.virtual_lib,
        };
        this.add_export(symbol)
    }

    /// Generates the mandatory init hook.
    fn add_init(self) -> (r: Self)
        ensures
            r.code_view() == self.code_view() + ModuleMain::spec_init_hook(
                self.crate_name_view(),
            ),
            r.virtual_lib_view() == self.virtual_lib_view() + spec_export_entry(
                "bp3d_os_module_"@ + self.crate_name_view() + "_init"@,
            ),
            r.crate_name_view() == self.crate_name_view(),
            r.out_path_view() == self.out_path_view(),
    {
        let symbol = crate::loader::init_symbol(self.crate_name.as_str());
        self.add_hook(
            "\"C\"",
            symbol.as_str(),
            "loader: &'static std::sync::Mutex<bp3d_os::loader::ModuleLoader>",
            "bp3d_os::loader::install_from_existing(loader);",
        )
    }

    /// Generates the mandatory uninit hook.
    fn add_uninit(self) -> (r: Self)
        ensures
            r.code_view() == self.code_view() + ModuleMain::spec_uninit_hook(
                self.crate_name_view(),
            ),
            r.virtual_lib_view() == self.virtual_lib_view() + spec_export_entry(
                "bp3d_os_module_"@ + self.crate_name_view() + "_uninit"@,
            ),
            r.crate_name_view() == self.crate_name_view(),
            r.out_path_view() == self.out_path_view(),
    {
        let symbol = crate::loader::uninit_symbol(self.crate_name.as_str());
        let empty = String::new();
        self.add_hook(
            "\"C\"",
            symbol.as_str(),
            empty.as_str(),
            "bp3d_os::loader::uninstall();",
        )
    }

    /// Generates the optional open hook, which forwards to a `module_open`
    /// the module crate defines.
    pub fn add_open(self) -> (r: Self)
        ensures
            r.code_view() == self.code_view() + spec_hook(
                "\"C\""@,
                "bp3d_os_module_"@ + self.crate_name_view() + "_open"@,
                Seq::<char>::empty(),
                "module_open();"@,
            ),
            r.virtual_lib_view() == self.virtual_lib_view() + spec_export_entry(
                "bp3d_os_module_"@ + self.crate_name_view() + "_open"@,
            ),
            r.crate_name_view() == self.crate_name_view(),
            r.out_path_view() == self.out_path_view(),
    {
        let symbol = crate::loader::open_symbol(self.crate_name.as_str());
        let empty = String::new();
        self.add_hook("\"C\"", symbol.as_str(), empty.as_str(), "module_open();")
    }

    /// Generates the optional close hook, which forwards to a
    /// `module_close` the module crate defines.
    pub fn add_close(self) -> (r: Self)
        ensures
            r.code_view() == self.code_view() + spec_hook(
                "\"C\""@,
                "bp3d_os_module_"@ + self.crate_name_view() + "_close"@,
                Seq::<char>::empty(),
                "module_close();"@,
            ),
            r.virtual_lib_view() == self.virtual_lib_view() + spec_export_entry(
                "bp3d_os_module_"@ + self.crate_name_view() + "_close"@,
            ),
            r.crate_name_view() == self.crate_name_view(),
            r.out_path_view() == self.out_path_view(),
    {
        let symbol = crate::loader::close_symbol(self.crate_name.as_str());
        let empty = String::new();
        self.add_hook("\"C\"", symbol.as_str(), empty.as_str(), "module_close();")
    }

    /// Generates the optional diagnostics wiring hook.
    pub fn add_bp3d_debug(self) -> (r: Self)
        ensures
            r.code_view() == self.code_view() + spec_hook(
                "\"Rust\""@,
                "bp3d_os_module_"@ + self.crate_name_view() + "_init_bp3d_debug"@,
                "engine: &'static dyn bp3d_debug::engine::Engine"@,
                "bp3d_debug::engine::set(engine);"@,
            ),
            r.virtual_lib_view() == self.virtual_lib_view() + spec_export_entry(
                "bp3d_os_module_"@ + self.crate_name_view() + "_init_bp3d_debug"@,
            ),
            r.crate_name_view() == self.crate_name_view(),
            r.out_path_view() == self.out_path_view(),
    {
        let symbol = crate::loader::debug_init_symbol(self.crate_name.as_str());
        self.add_hook(
            "\"Rust\"",
            symbol.as_str(),
            "engine: &'static dyn bp3d_debug::engine::Engine",
            "bp3d_debug::engine::set(engine);",
        )
    }

    /// Closes the virtual library table and hands back the whole generated
    /// text with the path it belongs at; writing it is the caller's step.
    pub fn build(self) -> (r: (String, String))
        ensures
            r.0@ == self.out_path_view(),
            r.1@ == self.code_view() + self.virtual_lib_view() + "\n    ]);"@,
    {
        let text = self.rust_code.concat(self.virtual_lib.as_str()).concat("\n    ]);");
        (self.out_path, text)
    }
}

} // verus!
