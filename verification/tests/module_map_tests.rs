use denocore::module_map_data::ModuleMapData;
use denocore::module_map_data::second_main_error;
use denocore::module_map_data::SymbolicModule;
use denocore::modules::AssertedModuleType;
use denocore::modules::RequestedModuleType;

fn js() -> RequestedModuleType {
    RequestedModuleType::NoAttribute
}

#[test]
fn module_map_data_registers_modules_in_order() {
    let mut data = ModuleMapData::new();
    let a = data.create_module_info(
        "file:///a.js".to_string(),
        &js(),
        AssertedModuleType::JavaScriptOrWasm,
        true,
        Vec::new(),
    );
    let b = data.create_module_info(
        "file:///b.json".to_string(),
        &RequestedModuleType::Json,
        AssertedModuleType::Json,
        false,
        Vec::new(),
    );
    assert_eq!(a, 0);
    assert_eq!(b, 1);
    assert_eq!(data.main_module_id, Some(0));
    assert_eq!(data.info.len(), 2);
    assert_eq!(data.info[1].name, "file:///b.json");
    assert!(!data.info[1].main);
    assert_eq!(data.get_id("file:///a.js", &js()), Some(0));
    assert_eq!(data.get_id("file:///b.json", &RequestedModuleType::Json), Some(1));
    // The same name under another requested type is another module.
    assert_eq!(data.get_id("file:///b.json", &js()), None);
    assert!(data.is_registered("file:///a.js", &js()));
    assert!(!data.is_registered("file:///c.js", &js()));
    assert_eq!(data.get_name_by_id(1), Some("file:///b.json".to_string()));
    assert_eq!(data.get_name_by_id(2), None);
}

#[test]
fn module_map_data_follows_aliases() {
    let mut data = ModuleMapData::new();
    let id = data.create_module_info(
        "file:///real.js".to_string(),
        &js(),
        AssertedModuleType::JavaScriptOrWasm,
        false,
        Vec::new(),
    );
    data.alias("file:///redirect.js".to_string(), &js(), "file:///real.js".to_string());
    data.alias("file:///twice.js".to_string(), &js(), "file:///redirect.js".to_string());
    assert!(data.is_alias("file:///twice.js", &js()));
    assert!(!data.is_alias("file:///real.js", &js()));
    assert_eq!(data.get_id("file:///twice.js", &js()), Some(id));
    assert_eq!(data.get_id("file:///redirect.js", &js()), Some(id));
    // An alias to a name that was never registered resolves to nothing.
    data.alias("file:///dangling.js".to_string(), &js(), "file:///missing.js".to_string());
    assert_eq!(data.get_id("file:///dangling.js", &js()), None);
    assert!(!data.is_registered("file:///dangling.js", &js()));
}

#[test]
fn module_map_data_remove_follows_the_chain() {
    let mut data = ModuleMapData::new();
    let id = data.create_module_info(
        "file:///main.js".to_string(),
        &js(),
        AssertedModuleType::JavaScriptOrWasm,
        true,
        Vec::new(),
    );
    data.alias("file:///start.js".to_string(), &js(), "file:///main.js".to_string());
    assert_eq!(data.remove_id("file:///start.js", &js(), true), Some(id));
    assert_eq!(data.main_module_id, None);
    assert!(!data.is_registered("file:///main.js", &js()));
    assert!(!data.is_registered("file:///start.js", &js()));
    assert_eq!(data.remove_id("file:///main.js", &js(), false), None);
    // The records of the module stay.
    assert_eq!(data.get_name_by_id(id), Some("file:///main.js".to_string()));
}

#[test]
fn module_map_data_remove_keeps_main_when_not_asked() {
    let mut data = ModuleMapData::new();
    data.create_module_info(
        "file:///main.js".to_string(),
        &js(),
        AssertedModuleType::JavaScriptOrWasm,
        true,
        Vec::new(),
    );
    let other = data.create_module_info(
        "file:///other.js".to_string(),
        &js(),
        AssertedModuleType::JavaScriptOrWasm,
        false,
        Vec::new(),
    );
    assert_eq!(data.remove_id("file:///other.js", &js(), false), Some(other));
    assert_eq!(data.main_module_id, Some(0));
    assert_eq!(data.get_id("file:///main.js", &js()), Some(0));
}

#[test]
fn symbolic_module_variants() {
    let m = SymbolicModule::Mod(3);
    assert!(matches!(m, SymbolicModule::Mod(3)));
    let a = SymbolicModule::Alias("x".to_string());
    assert!(matches!(a, SymbolicModule::Alias(ref t) if t == "x"));
}

#[test]
fn module_map_snapshot_round_trip() {
    let mut data = ModuleMapData::new();
    data.create_module_info(
        "file:///main.js".to_string(),
        &js(),
        AssertedModuleType::JavaScriptOrWasm,
        true,
        Vec::new(),
    );
    data.create_module_info(
        "file:///data.json".to_string(),
        &RequestedModuleType::Json,
        AssertedModuleType::Json,
        false,
        Vec::new(),
    );
    data.alias("file:///entry.js".to_string(), &js(), "file:///main.js".to_string());
    data.next_load_id = 3;
    let snapshot = data.serialize_for_snapshotting();
    assert_eq!(snapshot.next_load_id, 3);
    assert_eq!(snapshot.main_module_id, Some(0));
    assert_eq!(snapshot.modules.len(), 2);
    assert_eq!(snapshot.by_name.len(), 3);

    let mut restored = ModuleMapData::new();
    restored.update_with_snapshotted_data(snapshot);
    assert_eq!(restored.next_load_id, 3);
    assert_eq!(restored.main_module_id, Some(0));
    assert_eq!(restored.info.len(), 2);
    assert_eq!(restored.get_id("file:///entry.js", &js()), Some(0));
    assert_eq!(restored.get_id("file:///data.json", &RequestedModuleType::Json), Some(1));
    assert!(restored.is_alias("file:///entry.js", &js()));
    assert_eq!(restored.get_name_by_id(1), Some("file:///data.json".to_string()));
}

#[test]
fn module_map_remove_returns_what_lookup_returns() {
    let mut data = ModuleMapData::new();
    let id = data.create_module_info(
        "file:///m.js".to_string(),
        &js(),
        AssertedModuleType::JavaScriptOrWasm,
        false,
        Vec::new(),
    );
    data.alias("file:///a.js".to_string(), &js(), "file:///m.js".to_string());
    data.alias("file:///b.js".to_string(), &js(), "file:///a.js".to_string());
    data.alias("file:///dangling.js".to_string(), &js(), "file:///nowhere.js".to_string());
    let looked_up = data.get_id("file:///b.js", &js());
    assert_eq!(looked_up, Some(id));
    assert_eq!(data.remove_id("file:///b.js", &js(), false), looked_up);
    assert_eq!(data.get_id("file:///dangling.js", &js()), None);
    assert_eq!(data.remove_id("file:///dangling.js", &js(), false), None);
    assert!(!data.is_registered("file:///dangling.js", &js()));
}

#[test]
fn module_map_registers_redirects_of_fetched_modules() {
    let mut data = ModuleMapData::new();
    let (name, id) = data.register_fetched("file:///asked.js".to_string(), None, &js());
    assert_eq!(name, "file:///asked.js");
    assert_eq!(id, None);
    let real = data.create_module_info(
        "file:///real.js".to_string(),
        &js(),
        AssertedModuleType::JavaScriptOrWasm,
        false,
        Vec::new(),
    );
    let (name, id) = data.register_fetched(
        "file:///redirected.js".to_string(),
        Some("file:///real.js".to_string()),
        &js(),
    );
    assert_eq!(name, "file:///real.js");
    assert_eq!(id, Some(real));
    assert!(data.is_alias("file:///redirected.js", &js()));
    assert_eq!(data.get_id("file:///redirected.js", &js()), Some(real));
}

#[test]
fn module_map_refuses_a_second_main_module() {
    let mut data = ModuleMapData::new();
    assert!(data.check_main_module("file:///main.js", true).is_ok());
    data.create_module_info(
        "file:///main.js".to_string(),
        &js(),
        AssertedModuleType::JavaScriptOrWasm,
        true,
        Vec::new(),
    );
    assert!(data.check_main_module("file:///side.js", false).is_ok());
    let err = data.check_main_module("file:///other.js", true).unwrap_err();
    assert_eq!(err.get_class(), "Error");
    assert_eq!(
        err.get_message(),
        "Trying to create \"main\" module (\"file:///other.js\"), when one already exists (\"file:///main.js\")"
    );
}

#[test]
fn module_map_lookups_are_sound_until_an_alias_loops() {
    let mut data = ModuleMapData::new();
    assert!(data.lookups_are_sound());
    data.create_module_info(
        "file:///a.js".to_string(),
        &js(),
        AssertedModuleType::JavaScriptOrWasm,
        false,
        Vec::new(),
    );
    data.alias("file:///b.js".to_string(), &js(), "file:///a.js".to_string());
    assert!(data.lookups_are_sound());
    data.alias("file:///c.js".to_string(), &js(), "file:///d.js".to_string());
    data.alias("file:///d.js".to_string(), &js(), "file:///c.js".to_string());
    assert!(!data.lookups_are_sound());
}

#[test]
fn second_main_error_shows_names_as_debug_does() {
    let err = second_main_error("\"a\"", "\"b\"");
    assert_eq!(err.get_class(), "Error");
    assert_eq!(
        err.get_message(),
        "Trying to create \"main\" module (\"a\"), when one already exists (\"b\")"
    );
    let mut data = ModuleMapData::new();
    data.create_module_info(
        "file:///ma\u{e9}n \"x\".js".to_string(),
        &js(),
        AssertedModuleType::JavaScriptOrWasm,
        true,
        Vec::new(),
    );
    let err = data.check_main_module("file:///tab\t.js", true).unwrap_err();
    assert_eq!(
        err.get_message(),
        format!(
            "Trying to create \"main\" module ({:?}), when one already exists ({:?})",
            "file:///tab\t.js", "file:///ma\u{e9}n \"x\".js"
        )
    );
    assert!(err.get_message().contains("\\t.js"));
}
