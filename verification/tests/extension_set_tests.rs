use denocore::extension_set::check_dependencies;
use denocore::extension_set::check_extensions_dependencies;
use denocore::extension_set::check_no_duplicate_op_names;
use denocore::extension_set::ExtensionDeps;
use denocore::extension_set::ExtensionSet;
use denocore::extension_set::ExtensionSetState;

#[test]
fn extension_set_phases_advance() {
    let mut set = ExtensionSet::new("core", vec!["a", "b"]);
    assert_eq!(set.state(), ExtensionSetState::Created);
    set.advance_state(ExtensionSetState::Created, ExtensionSetState::OpsConsumed);
    set.advance_state(ExtensionSetState::OpsConsumed, ExtensionSetState::OpStateConsumed);
    assert_eq!(set.state(), ExtensionSetState::OpStateConsumed);
    assert_eq!(set.consume(), vec!["a", "b"]);
}

#[test]
fn dependency_checks() {
    assert_eq!(check_dependencies("b", &["a"], &["core", "a"]), None);
    assert_eq!(
        check_dependencies("b", &["b"], &["core"]),
        Some("Extension 'b' is either depending on itself or there is another extension with the same name".to_string())
    );
    assert_eq!(
        check_dependencies("b", &["a", "c"], &["a"]),
        Some("Extension 'b' is missing dependency 'c'".to_string())
    );
    let exts = vec![
        ExtensionDeps { name: "a", deps: vec!["core"] },
        ExtensionDeps { name: "b", deps: vec!["a"] },
        ExtensionDeps { name: "c", deps: vec!["d"] },
    ];
    assert_eq!(
        check_extensions_dependencies("core", &exts),
        Some("Extension 'c' is missing dependency 'd'".to_string())
    );
    let ok = vec![ExtensionDeps { name: "a", deps: vec![] }, ExtensionDeps { name: "b", deps: vec!["a", "core"] }];
    assert_eq!(check_extensions_dependencies("core", &ok), None);
}

#[test]
fn duplicate_op_names() {
    assert_eq!(check_no_duplicate_op_names(&["op_a", "op_b"]), None);
    assert_eq!(
        check_no_duplicate_op_names(&["op_b", "op_a", "op_b", "op_a", "op_c", "op_b"]),
        Some("Found ops with duplicate names:\n  - op_b\n  - op_a\nOp names need to be unique.".to_string())
    );
}
