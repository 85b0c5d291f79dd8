//! A second suite of the negotiation checks: the engine answers the same
//! wherever a load enters it.

use bp3d_os::deps::{Dependency, DepsMap};
use bp3d_os::metadata::{Metadata, Value};

const RUSTC_VERSION: &str = "rustc-1.85.0-fingerprint";

fn base_metadata() -> Metadata {
    let mut metadata = Metadata::new();
    metadata.insert("TYPE".into(), Value::new("RUST".into()));
    metadata.insert("RUSTC".into(), Value::new(RUSTC_VERSION.into()));
    metadata.insert("NAME".into(), Value::new("test".into()));
    metadata.insert("VERSION".into(), Value::new("1.0.0".into()));
    metadata.insert("DEPS".into(), Value::new("".into()));
    metadata.insert("FEATURES".into(), Value::new("".into()));
    metadata
}

fn check(metadata: &Metadata, deps: &mut DepsMap) -> Result<(), bp3d_os::error::Error> {
    bp3d_os::deps::check_metadata(metadata, deps, RUSTC_VERSION)
}

#[test]
fn util_test_basic() {
    let mut deps = DepsMap::new();
    let metadata = base_metadata();
    check(&metadata, &mut deps).unwrap();
}

#[test]
fn util_test_deps_no_relations() {
    let mut deps = DepsMap::new();
    let mut metadata = base_metadata();
    metadata.insert("DEPS".into(), Value::new("a=1.0.0,b=2.0.0".into()));
    check(&metadata, &mut deps).unwrap();

    // A differently named module with no relation to the other: no ABI
    // incompatibility exists.
    metadata.insert("DEPS".into(), Value::new("a=0.1.0,b=0.2.0".into()));
    metadata.insert("NAME".into(), Value::new("test1".into()));
    check(&metadata, &mut deps).unwrap();
}

#[test]
fn util_test_deps_with_relation_1() {
    let mut deps = DepsMap::new();
    let mut metadata = base_metadata();
    metadata.insert("DEPS".into(), Value::new("a=1.0.0,b=2.0.0".into()));
    check(&metadata, &mut deps).unwrap();

    metadata.insert("DEPS".into(), Value::new("a=1.0.0,test=1.0.0".into()));
    metadata.insert("NAME".into(), Value::new("test1".into()));
    check(&metadata, &mut deps).unwrap();

    metadata.insert("DEPS".into(), Value::new("b=2.0.0,test=1.0.0".into()));
    metadata.insert("NAME".into(), Value::new("test2".into()));
    check(&metadata, &mut deps).unwrap();

    metadata.insert("DEPS".into(), Value::new("a=1.0.0,b=2.0.0,test=1.0.0".into()));
    metadata.insert("NAME".into(), Value::new("test3".into()));
    check(&metadata, &mut deps).unwrap();

    metadata.insert("DEPS".into(), Value::new("test=1.0.0".into()));
    metadata.insert("NAME".into(), Value::new("test4".into()));
    check(&metadata, &mut deps).unwrap();
}

#[test]
fn util_test_deps_with_relation_2() {
    let mut deps = DepsMap::new();
    let mut metadata = base_metadata();
    metadata.insert("DEPS".into(), Value::new("a=1.0.0,b=2.0.0".into()));
    check(&metadata, &mut deps).unwrap();

    metadata.insert("DEPS".into(), Value::new("a=1.0.0,b=1.2.0,test=1.0.0".into()));
    metadata.insert("NAME".into(), Value::new("test1".into()));
    check(&metadata, &mut deps).unwrap_err();

    metadata.insert("DEPS".into(), Value::new("a=0.1.0,test=1.0.0".into()));
    metadata.insert("NAME".into(), Value::new("test2".into()));
    check(&metadata, &mut deps).unwrap_err();
}

#[test]
fn util_test_deps_with_relation_incompatible_version() {
    let mut deps = DepsMap::new();
    let mut metadata = base_metadata();
    metadata.insert("DEPS".into(), Value::new("a=1.0.0,b=2.0.0".into()));
    check(&metadata, &mut deps).unwrap();

    metadata.insert("DEPS".into(), Value::new("a=1.0.0,test=0.1.0".into()));
    metadata.insert("NAME".into(), Value::new("test1".into()));
    check(&metadata, &mut deps).unwrap_err();
}

#[test]
fn util_test_deps_features() {
    let mut deps = DepsMap::new();
    let mut metadata = base_metadata();
    metadata.insert("DEPS".into(), Value::new("a=1.0.0,b=2.0.0".into()));
    metadata.insert("FEATURES".into(), Value::new("a/abc,a/def".into()));
    check(&metadata, &mut deps).unwrap();

    metadata.insert("DEPS".into(), Value::new("a=1.0.0,test=1.0.0".into()));
    metadata.insert("NAME".into(), Value::new("test1".into()));
    metadata.insert("FEATURES".into(), Value::new("a/abc,a/def".into()));
    check(&metadata, &mut deps).unwrap();
}

#[test]
fn util_test_deps_features_incompatible() {
    let mut deps = DepsMap::new();
    let mut metadata = base_metadata();
    metadata.insert("DEPS".into(), Value::new("a=1.0.0,b=2.0.0".into()));
    metadata.insert("FEATURES".into(), Value::new("a/abc,a/def".into()));
    check(&metadata, &mut deps).unwrap();

    metadata.insert("DEPS".into(), Value::new("a=1.0.0,test=1.0.0".into()));
    metadata.insert("NAME".into(), Value::new("test1".into()));
    metadata.insert("FEATURES".into(), Value::new("a/abc".into()));
    check(&metadata, &mut deps).unwrap_err();

    metadata.insert("DEPS".into(), Value::new("a=1.0.0,b=2.0.0,test=1.0.0".into()));
    metadata.insert("NAME".into(), Value::new("test3".into()));
    metadata.insert("FEATURES".into(), Value::new("a/abc,a/def,a/ghi".into()));
    check(&metadata, &mut deps).unwrap_err();

    metadata.insert("DEPS".into(), Value::new("a=1.0.0,b=2.0.0,test=1.0.0".into()));
    metadata.insert("NAME".into(), Value::new("test2".into()));
    metadata.insert("FEATURES".into(), Value::new("a/abc,a/def,b/ghi".into()));
    check(&metadata, &mut deps).unwrap_err();
}

#[test]
fn util_test_master_1() {
    let mut deps = DepsMap::new();
    deps.add_dep(
        "a".into(),
        Dependency {
            version: "1.0.0".into(),
            features: vec!["*".into()],
            negative_features: vec![],
        },
    );
    let mut metadata = base_metadata();
    metadata.insert("DEPS".into(), Value::new("a=1.0.0,b=2.0.0".into()));
    metadata.insert("FEATURES".into(), Value::new("a/abc,a/def".into()));
    check(&metadata, &mut deps).unwrap();
}

#[test]
fn util_test_master_2() {
    let mut deps = DepsMap::new();
    deps.add_dep(
        "a".into(),
        Dependency {
            version: "1.0.0".into(),
            features: vec!["a/abc".into(), "*".into()],
            negative_features: vec![],
        },
    );
    let mut metadata = base_metadata();
    metadata.insert("DEPS".into(), Value::new("a=1.0.0,b=2.0.0".into()));
    metadata.insert("FEATURES".into(), Value::new("a/abc,a/def".into()));
    check(&metadata, &mut deps).unwrap();
}

#[test]
fn util_test_master_3() {
    let mut deps = DepsMap::new();
    deps.add_dep(
        "a".into(),
        Dependency {
            version: "1.0.0".into(),
            features: vec!["a/abc".into(), "a/def".into(), "*".into()],
            negative_features: vec![],
        },
    );
    let mut metadata = base_metadata();
    metadata.insert("DEPS".into(), Value::new("a=1.0.0,b=2.0.0".into()));
    metadata.insert("FEATURES".into(), Value::new("a/abc,a/def".into()));
    check(&metadata, &mut deps).unwrap();
}

#[test]
fn util_test_master_incompatible_version() {
    let mut deps = DepsMap::new();
    deps.add_dep(
        "a".into(),
        Dependency {
            version: "1.0.0".into(),
            features: vec!["a/abc".into(), "a/def".into(), "*".into()],
            negative_features: vec![],
        },
    );
    let mut metadata = base_metadata();
    metadata.insert("DEPS".into(), Value::new("a=0.1.0,b=2.0.0".into()));
    metadata.insert("FEATURES".into(), Value::new("a/abc,a/def".into()));
    check(&metadata, &mut deps).unwrap_err();
}

#[test]
fn util_test_master_incompatible_feature_set_1() {
    let mut deps = DepsMap::new();
    deps.add_dep(
        "a".into(),
        Dependency {
            version: "1.0.0".into(),
            features: vec!["a/abc".into(), "a/def".into(), "*".into()],
            negative_features: vec![],
        },
    );
    let mut metadata = base_metadata();
    metadata.insert("DEPS".into(), Value::new("a=1.0.0,b=2.0.0".into()));
    metadata.insert("FEATURES".into(), Value::new("a/abc".into()));
    check(&metadata, &mut deps).unwrap_err();
}

#[test]
fn util_test_master_4() {
    let mut deps = DepsMap::new();
    deps.add_dep(
        "a".into(),
        Dependency {
            version: "1.0.0".into(),
            features: vec!["a/abc".into(), "*".into()],
            negative_features: vec!["a/def".into()],
        },
    );
    let mut metadata = base_metadata();
    metadata.insert("DEPS".into(), Value::new("a=1.0.0,b=2.0.0".into()));
    metadata.insert("FEATURES".into(), Value::new("a/abc".into()));
    check(&metadata, &mut deps).unwrap();
}

#[test]
fn util_test_master_incompatible_feature_set_2() {
    let mut deps = DepsMap::new();
    deps.add_dep(
        "a".into(),
        Dependency {
            version: "1.0.0".into(),
            features: vec!["a/abc".into(), "*".into()],
            negative_features: vec!["a/def".into()],
        },
    );
    let mut metadata = base_metadata();
    metadata.insert("DEPS".into(), Value::new("a=1.0.0,b=2.0.0".into()));
    metadata.insert("FEATURES".into(), Value::new("a/abc,a/def".into()));
    check(&metadata, &mut deps).unwrap_err();
}
