use denocore::module_map_data::ModuleMapData;
use denocore::module_map_data::ModuleRequest;
use denocore::modules::AssertedModuleType;
use denocore::modules::RequestedModuleType;
use denocore::recursive_load::LoadInit;
use denocore::recursive_load::LoadState;
use denocore::recursive_load::RecursiveModuleLoad;

fn req(specifier: &str) -> ModuleRequest {
    ModuleRequest { specifier: specifier.to_string(), requested_module_type: RequestedModuleType::NoAttribute }
}

fn register(data: &mut ModuleMapData, name: &str, imports: &[&str]) -> usize {
    data.create_module_info(
        name.to_string(),
        &RequestedModuleType::NoAttribute,
        AssertedModuleType::JavaScriptOrWasm,
        false,
        imports.iter().map(|s| req(s)).collect(),
    )
}

fn specifiers(loads: &[ModuleRequest]) -> Vec<String> {
    loads.iter().map(|r| r.specifier.clone()).collect()
}

#[test]
fn recursive_load_of_unregistered_root_loads_it_first() {
    let mut data = ModuleMapData::new();
    let mut load = RecursiveModuleLoad::new(data.next_load_id(), LoadInit::Main("file:///main.js".to_string()), None);
    assert_eq!(load.id(), 1);
    assert_eq!(load.state(), LoadState::Init);
    let loads = load.start(&data, &req("file:///main.js"));
    assert_eq!(specifiers(&loads), vec!["file:///main.js"]);
    assert_eq!(load.state(), LoadState::LoadingRoot);
    assert!(load.is_currently_loading_main_module());
    assert_eq!(load.pending(), 1);

    // The root arrives: it imports a and b, and a is registered already and imports c.
    let a = register(&mut data, "file:///a.js", &["file:///c.js", "file:///b.js"]);
    let main = register(&mut data, "file:///main.js", &["file:///a.js", "file:///b.js"]);
    assert_eq!(a, 0);
    let loads = load.register_and_recurse(&data, main, &req("file:///main.js"));
    assert_eq!(specifiers(&loads), vec!["file:///b.js", "file:///c.js"]);
    assert_eq!(load.root_module_id(), Some(main));
    assert_eq!(load.state(), LoadState::LoadingImports);
    assert_eq!(load.pending(), 2);
    assert!(!load.is_currently_loading_main_module());

    // b arrives and imports c, which is already being loaded.
    let b = register(&mut data, "file:///b.js", &["file:///c.js"]);
    let loads = load.register_and_recurse(&data, b, &req("file:///b.js"));
    assert!(loads.is_empty());
    assert_eq!(load.pending(), 1);
    assert_eq!(load.state(), LoadState::LoadingImports);

    // c was found under a redirect that was loaded before.
    load.note_redirect("file:///c.js".to_string());
    assert!(load.found_by_redirect("file:///c.js"));
    load.load_skipped();
    assert_eq!(load.pending(), 0);
    assert_eq!(load.state(), LoadState::Done);
}

#[test]
fn recursive_load_of_registered_graph_is_done_at_once() {
    let mut data = ModuleMapData::new();
    register(&mut data, "file:///leaf.js", &[]);
    let root = register(&mut data, "file:///root.js", &["file:///leaf.js", "file:///leaf.js"]);
    let mut load = RecursiveModuleLoad::new(
        7,
        LoadInit::DynamicImport(
            "./root.js".to_string(),
            "file:///x.js".to_string(),
            RequestedModuleType::NoAttribute,
        ),
        Some(root),
    );
    assert!(load.is_dynamic_import());
    assert!(matches!(load.root_requested_module_type(), RequestedModuleType::NoAttribute));
    let loads = load.start(&data, &req("file:///root.js"));
    assert!(loads.is_empty());
    assert_eq!(load.state(), LoadState::Done);
    assert_eq!(load.pending(), 0);
}

#[test]
fn recursive_load_follows_aliases_and_skips_redirects() {
    let mut data = ModuleMapData::new();
    let real = register(&mut data, "file:///real.js", &["file:///dep.js"]);
    data.alias("file:///redirect.js".to_string(), &RequestedModuleType::NoAttribute, "file:///real.js".to_string());
    let root = register(&mut data, "file:///root.js", &["file:///redirect.js", "file:///gone.js"]);
    assert_eq!(real, 0);
    let mut load = RecursiveModuleLoad::new(1, LoadInit::Side("file:///root.js".to_string()), Some(root));
    load.note_redirect("file:///gone.js".to_string());
    let loads = load.start(&data, &req("file:///root.js"));
    // The alias leads to the registered module, whose import is loaded; the
    // specifier found by redirect is not loaded again.
    assert_eq!(specifiers(&loads), vec!["file:///dep.js"]);
    assert_eq!(load.state(), LoadState::LoadingImports);
}

#[test]
fn recursive_load_skips_loads_found_by_redirect() {
    let data = ModuleMapData::new();
    let mut load = RecursiveModuleLoad::new(1, LoadInit::Main("file:///main.js".to_string()), None);
    let loads = load.start(&data, &req("file:///main.js"));
    assert_eq!(loads.len(), 1);
    assert!(load.continue_load(&loads[0]));
    assert_eq!(load.pending(), 1);
    load.note_redirect("file:///main.js".to_string());
    assert!(!load.continue_load(&loads[0]));
    assert_eq!(load.pending(), 0);
    assert_eq!(load.state(), LoadState::Done);
}
