use denocore::loaders::ExtModuleLoader;
use denocore::loaders::FsModuleLoader;
use denocore::loaders::LazyEsmModuleLoader;
use denocore::loaders::ModuleLoadEventCounts;
use denocore::loaders::ModuleLoaderError;
use denocore::loaders::NoopModuleLoader;
use denocore::loaders::StaticModuleLoader;
use denocore::module_map_data::ModuleNameTypeMap;
use denocore::module_specifier::ModuleSpecifier;
use denocore::modules::default_import_meta_resolve_cb;
use denocore::modules::get_asserted_module_type_from_assertions;
use denocore::modules::validate_import_attributes;
use denocore::modules::AssertedModuleType;
use denocore::modules::ModuleSource;
use denocore::modules::ModuleType;
use denocore::modules::RequestedModuleType;
use denocore::str_map::StrMap;
use url::Url;

fn spec(s: &str) -> ModuleSpecifier {
    ModuleSpecifier::parse(s).unwrap()
}

#[test]
fn module_name_map_test() {
    let mut data: ModuleNameTypeMap<usize> = ModuleNameTypeMap::default();
    data.insert(&RequestedModuleType::Json, "http://example.com/".to_string(), 1);
    assert_eq!(
        Some(&1),
        data.get(&RequestedModuleType::Json, Url::parse("http://example.com/").unwrap().as_str())
    );
}

#[test]
fn module_name_map_counts_new_keys_only() {
    let mut data: ModuleNameTypeMap<&str> = ModuleNameTypeMap::default();
    data.insert(&RequestedModuleType::NoAttribute, "a".to_string(), "js");
    data.insert(&RequestedModuleType::Json, "a".to_string(), "json");
    data.insert(&RequestedModuleType::Other("text".to_string()), "a".to_string(), "text");
    data.insert(&RequestedModuleType::Json, "a".to_string(), "json2");
    assert_eq!(data.len(), 3);
    assert_eq!(data.get(&RequestedModuleType::NoAttribute, "a"), Some(&"js"));
    assert_eq!(data.get(&RequestedModuleType::Json, "a"), Some(&"json2"));
    assert_eq!(data.get(&RequestedModuleType::Other("text".to_string()), "a"), Some(&"text"));
    assert_eq!(data.get(&RequestedModuleType::Other("css".to_string()), "a"), None);
    assert_eq!(data.remove(&RequestedModuleType::Json, "a"), Some("json2"));
    assert_eq!(data.remove(&RequestedModuleType::Json, "a"), None);
    assert_eq!(data.len(), 3);
    let mut drained = data.drain();
    drained.sort_by(|x, y| x.2.cmp(y.2));
    assert_eq!(drained.len(), 2);
    assert_eq!(drained[0].1, "a");
    assert_eq!(drained[0].2, "js");
    assert_eq!(drained[1].2, "text");
}

#[test]
fn specifier_parsing_normalizes() {
    let s = spec("HTTP://Example.com");
    assert_eq!(s.as_str(), "http://example.com/");
    assert!(ModuleSpecifier::parse("not a url").is_none());
    assert!(s.same_as(&spec("http://example.com/")));
    assert_eq!(s.duplicate().to_string(), "http://example.com/");
}

#[test]
fn module_sources_and_redirects() {
    let a = spec("file:///a.js");
    let b = spec("file:///b.js");
    let src = ModuleSource::new(ModuleType::Json, "{}".to_string(), &a);
    assert_eq!(src.code, "{}");
    assert_eq!(src.module_type, ModuleType::Json);
    assert_eq!(src.module_url_specified(), "file:///a.js");
    assert_eq!(src.module_url_found(), None);
    let same = ModuleSource::new_with_redirect(ModuleType::JavaScript, String::new(), &a, &a);
    assert_eq!(same.module_url_found(), None);
    let moved = ModuleSource::new_with_redirect(ModuleType::JavaScript, String::new(), &a, &b);
    assert_eq!(moved.module_url_found(), Some("file:///b.js"));
    let t = ModuleSource::for_test("x", "file:///t.js");
    assert_eq!(t.module_type, ModuleType::JavaScript);
    let r = ModuleSource::for_test_with_redirect("x", "file:///t.js", "file:///t.js");
    assert_eq!(r.module_url_found(), None);
    let r = ModuleSource::for_test_with_redirect("x", "file:///t.js", "file:///u.js");
    assert_eq!(r.module_url_found(), Some("file:///u.js"));
}

#[test]
fn module_type_names() {
    assert_eq!(ModuleType::Json.to_display_string(), "JSON");
    assert_eq!(ModuleType::CssModule.to_display_string(), "CssModule");
    assert_eq!(AssertedModuleType::Other("wasm".to_string()).to_display_string(), "Other(wasm)");
    assert_eq!(AssertedModuleType::Text.to_display_string(), "text");
    assert!(AssertedModuleType::from_module_type(ModuleType::Json).matches_module_type(ModuleType::Json));
    assert!(!AssertedModuleType::Url.matches_module_type(ModuleType::Text));
}

#[test]
fn asserted_module_type_from_attributes() {
    let mut attrs = StrMap::new();
    assert!(matches!(
        get_asserted_module_type_from_assertions(&attrs),
        AssertedModuleType::JavaScriptOrWasm
    ));
    attrs.insert("type".to_string(), "json".to_string());
    assert!(matches!(get_asserted_module_type_from_assertions(&attrs), AssertedModuleType::Json));
    attrs.insert("type".to_string(), "url".to_string());
    assert!(matches!(get_asserted_module_type_from_assertions(&attrs), AssertedModuleType::Url));
    attrs.insert("type".to_string(), "bytes".to_string());
    assert!(matches!(
        get_asserted_module_type_from_assertions(&attrs),
        AssertedModuleType::JavaScriptOrWasm
    ));
}

#[test]
fn import_attribute_validation() {
    let mut attrs = StrMap::new();
    assert_eq!(validate_import_attributes(&attrs), None);
    attrs.insert("type".to_string(), "json".to_string());
    assert_eq!(validate_import_attributes(&attrs), None);
    attrs.insert("type".to_string(), "bar".to_string());
    assert_eq!(
        validate_import_attributes(&attrs),
        Some("\"bar\" is not a valid module type.".to_string())
    );
    let mut other = StrMap::new();
    other.insert("foo".to_string(), "bar".to_string());
    assert_eq!(
        validate_import_attributes(&other),
        Some("\"foo\" attribute is not supported.".to_string())
    );
}

#[test]
fn static_loader_serves_its_modules() {
    let loader = StaticModuleLoader::new(vec![
        (spec("file:///a.js"), "1".to_string()),
        (spec("file:///a.js"), "2".to_string()),
    ]);
    let src = loader.load(&spec("file:///a.js")).unwrap();
    assert_eq!(src.code, "2");
    assert_eq!(src.module_type, ModuleType::JavaScript);
    let err = loader.load(&spec("file:///b.js")).err().unwrap();
    assert_eq!(err.to_display_string(), "Module not found");
    let one = StaticModuleLoader::with(spec("file:///c.js"), "3".to_string());
    assert_eq!(one.load(&spec("file:///c.js")).unwrap().code, "3");
}

#[test]
fn ext_loader_serves_each_module_once() {
    let mut loader =
        ExtModuleLoader::new(vec![("ext:a.js".to_string(), "a".to_string()), ("ext:b.js".to_string(), "b".to_string())]);
    let a = loader.load(&spec("ext:a.js")).unwrap();
    assert_eq!(a.code, "a");
    let again = loader.load(&spec("ext:a.js")).err().unwrap();
    assert_eq!(
        again.to_display_string(),
        "Specifier \"ext:a.js\" was not passed as an extension module and was not included in the snapshot."
    );
    let unused = loader.finalize().err().unwrap();
    assert_eq!(unused.get_class(), "Error");
    assert_eq!(
        unused.get_message(),
        "Following modules were passed to ExtModuleLoader but never used:\n  - ext:b.js\n"
    );
    let empty = ExtModuleLoader::new(vec![]);
    assert!(empty.finalize().is_ok());
}

#[test]
fn lazy_loader_reports_missing_modules() {
    let mut sources = StrMap::new();
    sources.insert("ext:lazy.js".to_string(), "l".to_string());
    let mut loader = LazyEsmModuleLoader::new(sources);
    assert_eq!(loader.load(&spec("ext:lazy.js")).unwrap().code, "l");
    match loader.load(&spec("ext:lazy.js")) {
        Err(ModuleLoaderError::SpecifierMissingLazyLoadable(s)) => assert_eq!(s.as_str(), "ext:lazy.js"),
        _ => panic!("expected a missing lazy module"),
    }
}

#[test]
fn noop_loader_refuses() {
    let err = NoopModuleLoader.load(&spec("file:///a.js"), None).err().unwrap();
    assert_eq!(
        err.to_display_string(),
        "Module loading is not supported; attempted to load: \"file:///a.js\" from \"(no referrer)\""
    );
    assert_eq!(err.get_class(), "Error");
    let referrer = spec("file:///main.js");
    let err = NoopModuleLoader.load(&spec("file:///a.js"), Some(&referrer)).err().unwrap();
    assert_eq!(
        err.to_display_string(),
        "Module loading is not supported; attempted to load: \"file:///a.js\" from \"file:///main.js\""
    );
}

#[test]
fn fs_loader_module_types() {
    assert_eq!(
        FsModuleLoader::module_type_for(Some("JSON"), &RequestedModuleType::Json).ok(),
        Some(ModuleType::Json)
    );
    assert!(matches!(
        FsModuleLoader::module_type_for(Some("json"), &RequestedModuleType::NoAttribute),
        Err(ModuleLoaderError::JsonMissingAttribute)
    ));
    assert_eq!(
        FsModuleLoader::module_type_for(Some("ts"), &RequestedModuleType::NoAttribute).ok(),
        Some(ModuleType::JavaScript)
    );
    assert_eq!(
        FsModuleLoader::module_type_for(None, &RequestedModuleType::Json).ok(),
        Some(ModuleType::JavaScript)
    );
    let e = FsModuleLoader::not_a_file_url(&spec("http://x.com/a.js"));
    assert_eq!(e.get_message(), "Provided module specifier \"http://x.com/a.js\" is not a file URL.");
}

#[test]
fn load_event_counts() {
    let c = ModuleLoadEventCounts::new(1, 2, 3);
    assert_eq!((c.resolve, c.prepare, c.load), (1, 2, 3));
    assert_eq!(ModuleLoadEventCounts::default(), ModuleLoadEventCounts::new(0, 0, 0));
}

#[test]
fn str_map_basics() {
    let mut m: StrMap<u32> = StrMap::new();
    assert!(m.is_empty());
    assert!(m.insert("a".to_string(), 1));
    assert!(!m.insert("a".to_string(), 2));
    assert_eq!(m.get("a"), Some(&2));
    assert!(m.contains_key("a"));
    assert_eq!(m.keys(), vec!["a".to_string()]);
    assert_eq!(m.remove("a"), Some(2));
    assert_eq!(m.remove("a"), None);
    assert!(m.is_empty());
}

#[test]
fn import_meta_resolve_refuses_npm_specifiers() {
    let refused = default_import_meta_resolve_cb(|| Ok(spec("file:///x.js")), "npm:react");
    assert!(matches!(refused, Err(ModuleLoaderError::NpmUnsupportedMetaResolve)));
    let resolved = default_import_meta_resolve_cb(|| Ok(spec("file:///x.js")), "./x.js");
    assert_eq!(resolved.unwrap().as_str(), "file:///x.js");
    let failed = default_import_meta_resolve_cb(|| Err(ModuleLoaderError::NotFound), "./y.js");
    assert!(matches!(failed, Err(ModuleLoaderError::NotFound)));
}

#[test]
fn ext_loader_keeps_the_last_code_of_a_name() {
    let mut loader = ExtModuleLoader::new(vec![
        ("ext:a.js".to_string(), "first".to_string()),
        ("ext:a.js".to_string(), "second".to_string()),
    ]);
    let a = loader.load(&spec("ext:a.js")).unwrap();
    assert_eq!(a.code, "second");
    assert!(loader.finalize().is_ok());
}
