//! The registry life cycle: reference counting, resolution kinds, and the
//! whole negotiation driven through the loader.

use bp3d_os::deps::{Dependency, DepsMap};
use bp3d_os::error::Error;
use bp3d_os::loader::{ModuleLoader, RefResult, UnloadOutcome, VirtualLibrary};
use bp3d_os::metadata::{Metadata, Value};

const RUSTC: &str = "rustc-1.85.0-fingerprint";

fn descriptor(name: &str, version: &str, deps: &str, features: &str) -> Vec<u8> {
    let text = format!(
        "BP3D_OS_MODULE|TYPE=RUST|NAME={}|VERSION={}|RUSTC={}|DEPS={}|FEATURES={}\0",
        name, version, RUSTC, deps, features
    );
    text.into_bytes()
}

#[test]
fn idempotent_increment() {
    let mut loader = ModuleLoader::new(Vec::new());
    let id = loader
        .register_module("mod-a", &descriptor("mod_a", "1.0.0", "", ""), false, RUSTC)
        .unwrap();
    // A second load of the same name returns the same identifier and only
    // raises the counter.
    match loader.try_ref("mod-a", false) {
        RefResult::Incremented(second) => assert_eq!(second, id),
        _ => panic!("expected an incremented reference"),
    }
    // One unload after two loads must not finalize the module.
    match loader.unload("mod-a").unwrap() {
        UnloadOutcome::StillHeld(held, rc) => {
            assert_eq!(held, id);
            assert_eq!(rc, 1);
        }
        _ => panic!("the module must still be held"),
    }
    assert_eq!(loader.get_module("mod-a"), Some(id));
}

#[test]
fn reference_count_symmetry() {
    let mut loader = ModuleLoader::new(Vec::new());
    let id = loader
        .register_module("m", &descriptor("m", "1.0.0", "", ""), false, RUSTC)
        .unwrap();
    // Two more loads: three in all.
    assert!(matches!(loader.try_ref("m", false), RefResult::Incremented(_)));
    assert!(matches!(loader.try_ref("m", false), RefResult::Incremented(_)));
    // Two unloads leave the module registered.
    assert!(matches!(
        loader.unload("m").unwrap(),
        UnloadOutcome::StillHeld(_, 2)
    ));
    assert!(matches!(
        loader.unload("m").unwrap(),
        UnloadOutcome::StillHeld(_, 1)
    ));
    // The third unload balances the loads and finalizes exactly once.
    match loader.unload("m").unwrap() {
        UnloadOutcome::Finalized(fid, builtin) => {
            assert_eq!(fid, id);
            assert!(!builtin);
        }
        _ => panic!("the balancing unload must finalize"),
    }
    // Afterwards the name is unknown.
    assert!(matches!(loader.unload("m"), Err(Error::NotFound(_))));
    assert_eq!(loader.get_module("m"), None);
}

#[test]
fn resolution_precedence() {
    // A name registered as a builtin is never served by the OS-module
    // lookup, and the other way round: the two sources resolve
    // independently and never fall through to each other.
    let mut loader = ModuleLoader::new(Vec::new());
    let builtin_id = loader
        .register_module("built", &descriptor("built", "1.0.0", "", ""), true, RUSTC)
        .unwrap();
    let os_id = loader
        .register_module("osmod", &descriptor("osmod", "1.0.0", "", ""), false, RUSTC)
        .unwrap();
    assert_eq!(loader.get_builtin("built"), Some(builtin_id));
    assert_eq!(loader.get_module("built"), None);
    assert_eq!(loader.get_module("osmod"), Some(os_id));
    assert_eq!(loader.get_builtin("osmod"), None);
    assert!(matches!(loader.try_ref("built", false), RefResult::WrongKind));
    assert!(matches!(loader.try_ref("osmod", true), RefResult::WrongKind));
    assert!(matches!(loader.try_ref("absent", false), RefResult::Absent));
}

#[test]
fn master_scenario() {
    // Master dependency a=1.0.0 with features ["a/abc", "*"].
    let mut deps = DepsMap::new();
    deps.add_dep(
        "a".into(),
        Dependency {
            version: "1.0.0".into(),
            features: vec!["a/abc".into(), "*".into()],
            negative_features: vec![],
        },
    );
    // Candidate m with DEPS="a=1.0.0", FEATURES="a/abc" succeeds.
    let mut metadata = Metadata::new();
    metadata.insert("TYPE".into(), Value::new("RUST".into()));
    metadata.insert("RUSTC".into(), Value::new(RUSTC.into()));
    metadata.insert("NAME".into(), Value::new("m".into()));
    metadata.insert("VERSION".into(), Value::new("1.0.0".into()));
    metadata.insert("DEPS".into(), Value::new("a=1.0.0".into()));
    metadata.insert("FEATURES".into(), Value::new("a/abc".into()));
    bp3d_os::deps::check_metadata(&metadata, &mut deps, RUSTC).unwrap();
    // Candidate n declaring m itself succeeds: the module-on-module
    // version check passes.
    metadata.insert("NAME".into(), Value::new("n".into()));
    metadata.insert("DEPS".into(), Value::new("a=1.0.0,m=1.0.0".into()));
    bp3d_os::deps::check_metadata(&metadata, &mut deps, RUSTC).unwrap();
    // Candidate p declaring a=2.0.0 fails with a version incompatibility
    // naming dependency a.
    metadata.insert("NAME".into(), Value::new("p".into()));
    metadata.insert("DEPS".into(), Value::new("a=2.0.0".into()));
    match bp3d_os::deps::check_metadata(&metadata, &mut deps, RUSTC) {
        Err(Error::IncompatibleDep(d)) => {
            assert_eq!(d.name, "a");
            assert_eq!(d.expected_version, "1.0.0");
            assert_eq!(d.actual_version, "2.0.0");
        }
        other => panic!("expected a version incompatibility, got {:?}", other),
    }
}

#[test]
fn module_on_module_version_error() {
    // A candidate declaring an accepted module at the wrong version is
    // rejected naming the recorded version as expected and the declared
    // one as actual.
    let mut deps = DepsMap::new();
    let mut metadata = Metadata::new();
    metadata.insert("TYPE".into(), Value::new("RUST".into()));
    metadata.insert("RUSTC".into(), Value::new(RUSTC.into()));
    metadata.insert("NAME".into(), Value::new("test".into()));
    metadata.insert("VERSION".into(), Value::new("1.0.0".into()));
    metadata.insert("DEPS".into(), Value::new("".into()));
    metadata.insert("FEATURES".into(), Value::new("".into()));
    bp3d_os::deps::check_metadata(&metadata, &mut deps, RUSTC).unwrap();
    metadata.insert("NAME".into(), Value::new("test1".into()));
    metadata.insert("DEPS".into(), Value::new("test=0.1.0".into()));
    match bp3d_os::deps::check_metadata(&metadata, &mut deps, RUSTC) {
        Err(Error::IncompatibleDep(d)) => {
            assert_eq!(d.name, "test");
            assert_eq!(d.expected_version, "1.0.0");
            assert_eq!(d.actual_version, "0.1.0");
        }
        other => panic!("expected a version incompatibility, got {:?}", other),
    }
}

#[test]
fn version_equality_not_range() {
    // 1.0.1 is semver-compatible with 1.0.0; the loader still rejects it.
    let mut deps = DepsMap::new();
    deps.add_dep(
        "dep".into(),
        Dependency {
            version: "1.0.0".into(),
            features: vec![],
            negative_features: vec![],
        },
    );
    let mut metadata = Metadata::new();
    metadata.insert("TYPE".into(), Value::new("RUST".into()));
    metadata.insert("RUSTC".into(), Value::new(RUSTC.into()));
    metadata.insert("NAME".into(), Value::new("m".into()));
    metadata.insert("VERSION".into(), Value::new("1.0.0".into()));
    metadata.insert("DEPS".into(), Value::new("dep=1.0.1".into()));
    metadata.insert("FEATURES".into(), Value::new("".into()));
    match bp3d_os::deps::check_metadata(&metadata, &mut deps, RUSTC) {
        Err(Error::IncompatibleDep(d)) => {
            assert_eq!(d.name, "dep");
            assert_eq!(d.expected_version, "1.0.0");
            assert_eq!(d.actual_version, "1.0.1");
        }
        other => panic!("expected a version incompatibility, got {:?}", other),
    }
}

#[test]
fn wildcard_absorption() {
    // A master with features ["*"] accepts any feature subset, the empty
    // one included.
    let mut deps = DepsMap::new();
    deps.add_dep(
        "dep".into(),
        Dependency {
            version: "1.0.0".into(),
            features: vec!["*".into()],
            negative_features: vec![],
        },
    );
    let mut metadata = Metadata::new();
    metadata.insert("TYPE".into(), Value::new("RUST".into()));
    metadata.insert("RUSTC".into(), Value::new(RUSTC.into()));
    metadata.insert("NAME".into(), Value::new("m1".into()));
    metadata.insert("VERSION".into(), Value::new("1.0.0".into()));
    metadata.insert("DEPS".into(), Value::new("dep=1.0.0".into()));
    metadata.insert("FEATURES".into(), Value::new("".into()));
    bp3d_os::deps::check_metadata(&metadata, &mut deps, RUSTC).unwrap();
    metadata.insert("NAME".into(), Value::new("m2".into()));
    metadata.insert("FEATURES".into(), Value::new("dep/x,dep/y".into()));
    bp3d_os::deps::check_metadata(&metadata, &mut deps, RUSTC).unwrap();
    // A negative feature rejects a candidate enabling it even under the
    // wildcard.
    let mut deps2 = DepsMap::new();
    deps2.add_dep(
        "dep".into(),
        Dependency {
            version: "1.0.0".into(),
            features: vec!["*".into()],
            negative_features: vec!["dep/x".into()],
        },
    );
    metadata.insert("NAME".into(), Value::new("m3".into()));
    metadata.insert("FEATURES".into(), Value::new("dep/x".into()));
    match bp3d_os::deps::check_metadata(&metadata, &mut deps2, RUSTC) {
        Err(Error::IncompatibleFeatureSet(name)) => assert_eq!(name, "dep"),
        other => panic!("expected a feature-set incompatibility, got {:?}", other),
    }
}

#[test]
fn symmetric_feature_coverage() {
    // Master ["dep/a","dep/b"], no wildcard: a missing feature fails, an
    // extra feature fails, the exact set passes.
    let make_deps = || {
        let mut deps = DepsMap::new();
        deps.add_dep(
            "dep".into(),
            Dependency {
                version: "1.0.0".into(),
                features: vec!["dep/a".into(), "dep/b".into()],
                negative_features: vec![],
            },
        );
        deps
    };
    let mut metadata = Metadata::new();
    metadata.insert("TYPE".into(), Value::new("RUST".into()));
    metadata.insert("RUSTC".into(), Value::new(RUSTC.into()));
    metadata.insert("NAME".into(), Value::new("m".into()));
    metadata.insert("VERSION".into(), Value::new("1.0.0".into()));
    metadata.insert("DEPS".into(), Value::new("dep=1.0.0".into()));

    metadata.insert("FEATURES".into(), Value::new("dep/a".into()));
    assert!(matches!(
        bp3d_os::deps::check_metadata(&metadata, &mut make_deps(), RUSTC),
        Err(Error::IncompatibleFeatureSet(_))
    ));

    metadata.insert("FEATURES".into(), Value::new("dep/a,dep/b,dep/c".into()));
    assert!(matches!(
        bp3d_os::deps::check_metadata(&metadata, &mut make_deps(), RUSTC),
        Err(Error::IncompatibleFeatureSet(_))
    ));

    metadata.insert("FEATURES".into(), Value::new("dep/a,dep/b".into()));
    bp3d_os::deps::check_metadata(&metadata, &mut make_deps(), RUSTC).unwrap();
}

#[test]
fn register_rejects_bad_rustc() {
    let mut loader = ModuleLoader::new(Vec::new());
    let bytes = format!(
        "BP3D_OS_MODULE|TYPE=RUST|NAME=m|VERSION=1.0.0|RUSTC=other|DEPS=|FEATURES=\0"
    )
    .into_bytes();
    match loader.register_module("m", &bytes, false, RUSTC) {
        Err(Error::RustcVersionMismatch(v)) => {
            assert_eq!(v.expected, RUSTC);
            assert_eq!(v.actual, "other");
        }
        other => panic!("expected a fingerprint mismatch, got {:?}", other),
    }
    assert_eq!(loader.get_module("m"), None);
}

#[test]
fn register_missing_keys() {
    let mut loader = ModuleLoader::new(Vec::new());
    let cases: &[(&str, Error)] = &[
        ("BP3D_OS_MODULE|NAME=m\0", Error::InvalidMetadata),
        ("BP3D_OS_MODULE|TYPE=RUST\0", Error::MissingVersionForRust),
        (
            "BP3D_OS_MODULE|TYPE=RUST|RUSTC=rustc-1.85.0-fingerprint\0",
            Error::MissingDepsForRust,
        ),
        (
            "BP3D_OS_MODULE|TYPE=RUST|RUSTC=rustc-1.85.0-fingerprint|DEPS=\0",
            Error::MissingModuleName,
        ),
        (
            "BP3D_OS_MODULE|TYPE=RUST|RUSTC=rustc-1.85.0-fingerprint|DEPS=|NAME=m\0",
            Error::MissingModuleName,
        ),
        (
            "BP3D_OS_MODULE|TYPE=RUST|RUSTC=rustc-1.85.0-fingerprint|DEPS=|NAME=m|VERSION=1.0.0\0",
            Error::MissingFeaturesForRust,
        ),
    ];
    for (text, expected) in cases {
        let got = loader
            .register_module("m", text.as_bytes(), false, RUSTC)
            .unwrap_err();
        assert_eq!(&got, expected);
    }
}

#[test]
fn register_invalid_dep_format() {
    let mut loader = ModuleLoader::new(Vec::new());
    let bytes = descriptor("m", "1.0.0", "garbage", "");
    assert!(matches!(
        loader.register_module("m", &bytes, false, RUSTC),
        Err(Error::InvalidDepFormat)
    ));
}

#[test]
fn unmanaged_module_skips_negotiation() {
    let mut loader = ModuleLoader::new(Vec::new());
    let bytes = b"BP3D_OS_MODULE|TYPE=C|NAME=plain\0".to_vec();
    let id = loader.register_module("plain", &bytes, false, RUSTC).unwrap();
    assert_eq!(loader.get_module("plain"), Some(id));
    assert_eq!(
        loader.module_metadata_key("plain", "TYPE").as_deref(),
        Some("C")
    );
}

#[test]
fn virtual_library_symbols() {
    let lib = VirtualLibrary::new(
        "built".into(),
        vec![("sym_one".into(), 0x1000usize), ("sym_two".into(), 0x2000usize)],
    );
    assert_eq!(lib.name(), "built");
    let sym = lib.load_symbol("sym_two").unwrap().unwrap();
    assert_eq!(sym.as_ptr(), 0x2000);
    assert!(lib.load_symbol("missing").unwrap().is_none());
    assert!(matches!(lib.load_symbol("bad\0name"), Err(Error::Null)));
}

#[test]
fn find_builtin_by_name() {
    let lib = VirtualLibrary::new("built_mod".into(), vec![("s".into(), 1usize)]);
    let loader = ModuleLoader::new(vec![lib]);
    let found = loader.find_builtin("built-mod").expect("normalized name must match");
    assert_eq!(found.name(), "built_mod");
    assert!(loader.find_builtin("other").is_none());
}

#[test]
fn symbol_names() {
    assert_eq!(
        bp3d_os::loader::descriptor_symbol("my-mod"),
        "BP3D_OS_MODULE_MY_MOD"
    );
    assert_eq!(bp3d_os::loader::init_symbol("m"), "bp3d_os_module_m_init");
    assert_eq!(bp3d_os::loader::uninit_symbol("m"), "bp3d_os_module_m_uninit");
    assert_eq!(bp3d_os::loader::open_symbol("m"), "bp3d_os_module_m_open");
    assert_eq!(bp3d_os::loader::close_symbol("m"), "bp3d_os_module_m_close");
    assert_eq!(
        bp3d_os::loader::debug_init_symbol("m"),
        "bp3d_os_module_m_init_bp3d_debug"
    );
    let (plain, lib) = bp3d_os::loader::module_file_names("m", "so");
    assert_eq!(plain, "m.so");
    assert_eq!(lib, "libm.so");
}

#[test]
fn search_paths_in_order() {
    let mut loader = ModuleLoader::new(Vec::new());
    loader.add_search_path("/usr/lib/mods".into());
    loader.add_search_path("/opt/mods".into());
    let paths = loader.search_paths();
    assert_eq!(paths.len(), 2);
    assert_eq!(paths[0], "/usr/lib/mods");
    assert_eq!(paths[1], "/opt/mods");
}

#[test]
fn public_dependency_qualification() {
    let mut loader = ModuleLoader::new(Vec::new());
    loader.add_public_dependency("a", "1.0.0", &vec!["/abc".into(), "*".into()]);
    // The declared master constraint behaves like a=1.0.0 with features
    // ["a/abc", "*"]: the qualified feature must be enabled.
    let bytes = descriptor("m", "1.0.0", "a=1.0.0", "a/abc");
    loader.register_module("m", &bytes, false, RUSTC).unwrap();
    let bytes2 = descriptor("n", "1.0.0", "a=1.0.0", "");
    assert!(matches!(
        loader.register_module("n", &bytes2, false, RUSTC),
        Err(Error::IncompatibleFeatureSet(_))
    ));
}
