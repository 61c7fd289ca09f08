use upsclr_server::error::AppError;
use upsclr_server::plugin_ffi::UpsclrErrorCode;
use upsclr_server::plugin_manager::{
    assemble_loaded_plugin, c_str_to_rust_string, is_plugin_library, plugins_dir_missing_error,
    LoadedPlugin, PluginInfo, PluginManager, RawEngineInfo, RawPluginInfo, ScannedEntry,
};

fn raw_engine(name: &str, schema: &str) -> Option<RawEngineInfo> {
    Some(RawEngineInfo {
        name: Some(name.as_bytes().to_vec()),
        description: Some(b"desc".to_vec()),
        version: Some(b"2.0".to_vec()),
        config_json_schema: Some(schema.as_bytes().to_vec()),
    })
}

fn raw_info() -> Option<RawPluginInfo> {
    Some(RawPluginInfo {
        name: Some(b"Plugin".to_vec()),
        version: Some(b"1.2".to_vec()),
        description: Some(b"Does things".to_vec()),
    })
}

#[test]
fn plugin_libraries_are_recognised_by_name() {
    assert!(is_plugin_library(Some("upsclr-plugin-x.so"), Some("so")));
    assert!(is_plugin_library(Some("upsclr-plugin-x.dll"), Some("dll")));
    assert!(is_plugin_library(Some("upsclr-plugin-x.dylib"), Some("dylib")));
    assert!(!is_plugin_library(Some("libfoo.so"), Some("so")));
    assert!(!is_plugin_library(Some("upsclr-plugin-x.txt"), Some("txt")));
    assert!(!is_plugin_library(None, Some("so")));
}

#[test]
fn c_strings_from_plugins() {
    assert_eq!(c_str_to_rust_string(Some(b"h\xC3\xA9")).unwrap(), "hé");
    assert_eq!(
        c_str_to_rust_string(None).unwrap_err(),
        "Encountered a null string pointer from plugin"
    );
    assert!(c_str_to_rust_string(Some(&[0xC3])).unwrap_err().starts_with(
        "Invalid UTF-8 sequence in string from plugin: "
    ));
}

#[test]
fn plugin_is_assembled_from_its_metadata() {
    let p = assemble_loaded_plugin(
        "upsclr-plugin-a.so".to_string(),
        "/p/upsclr-plugin-a.so".to_string(),
        "\"/p/upsclr-plugin-a.so\"",
        UpsclrErrorCode::Success,
        &raw_info(),
        &vec![raw_engine("fast", "{\"type\":\"object\"}"), raw_engine("slow", "{}")],
    )
    .unwrap();
    assert_eq!(p.id, "upsclr-plugin-a.so");
    assert_eq!(p.plugin_info.id, "upsclr-plugin-a.so");
    assert_eq!(p.plugin_info.name, "Plugin");
    assert_eq!(p.plugin_info.version, "1.2");
    assert_eq!(p.engines_info.len(), 2);
    assert_eq!(p.engines_info[1].name, "slow");
    assert_eq!(p.engines_info[1].engine_index_in_plugin, 1);
    assert_eq!(p.engines_info[0].config_schema, "{\"type\":\"object\"}");
    assert_eq!(p.find_engine_index("slow"), Some(1));
    assert_eq!(p.find_engine_index("none"), None);
}

#[test]
fn plugin_assembly_errors() {
    let path = "\"/p/x.so\"";
    let e = assemble_loaded_plugin("x".into(), "/p/x.so".into(), path, UpsclrErrorCode::Success, &None, &vec![]).unwrap_err();
    assert_eq!(e, "Plugin at \"/p/x.so\" returned NULL from upsclr_plugin_get_info");
    let e = assemble_loaded_plugin("x".into(), "/p/x.so".into(), path, UpsclrErrorCode::Success, &raw_info(), &vec![raw_engine("a", "{}"), None])
        .unwrap_err();
    assert_eq!(e, "Plugin at \"/p/x.so\" returned NULL from upsclr_plugin_get_engine_info for engine index 1");
    let e = assemble_loaded_plugin("x".into(), "/p/x.so".into(), path, UpsclrErrorCode::Success, &raw_info(), &vec![raw_engine("a", "{oops")])
        .unwrap_err();
    assert!(e.starts_with("Invalid JSON schema (idx 0) from \"/p/x.so\": "));
    let e = assemble_loaded_plugin("x".into(), "/p/x.so".into(), path, UpsclrErrorCode::Other, &raw_info(), &vec![])
        .unwrap_err();
    assert_eq!(e, "Plugin at \"/p/x.so\" failed to initialize with error code: Other");
    let bad_name = Some(RawPluginInfo { name: None, version: None, description: None });
    let e = assemble_loaded_plugin("x".into(), "/p/x.so".into(), path, UpsclrErrorCode::Success, &bad_name, &vec![]).unwrap_err();
    assert_eq!(e, "Invalid plugin name from \"/p/x.so\": Encountered a null string pointer from plugin");
}

#[test]
fn the_last_plugin_with_an_id_is_found() {
    let mk = |id: &str, name: &str| LoadedPlugin {
        id: id.to_string(),
        path: format!("/{}", name),
        plugin_info: PluginInfo {
            id: id.to_string(),
            name: name.to_string(),
            version: "1".into(),
            description: "".into(),
        },
        engines_info: vec![],
    };
    let mut pm = PluginManager::from_loaded(vec![mk("a", "first"), mk("b", "other"), mk("a", "second")]);
    assert_eq!(pm.count_plugins(), 3);
    assert_eq!(pm.find_plugin_by_id("a").unwrap().plugin_info.name, "second");
    assert!(pm.find_plugin_by_id("c").is_none());
    assert_eq!(pm.export_state().plugin_paths, vec!["/first", "/other", "/second"]);
    pm.cleanup();
    assert!(pm.is_empty());
}

#[test]
fn missing_plugins_directory() {
    match plugins_dir_missing_error("plugins") {
        AppError::PluginLoadError(m) => {
            assert_eq!(m, "Plugins directory not found or is not a directory: 'plugins'")
        }
        _ => panic!("expected PluginLoadError"),
    }
}

fn scanned(is_file: bool, name: Option<&str>, ext: Option<&str>) -> ScannedEntry {
    ScannedEntry {
        is_file,
        file_name: name.map(str::to_string),
        extension: ext.map(str::to_string),
    }
}

#[test]
fn scan_loads_only_plugin_libraries_in_directory_order() {
    let entries = vec![
        scanned(true, Some("upsclr-plugin-b.so"), Some("so")),
        scanned(true, Some("readme.txt"), Some("txt")),
        scanned(false, Some("upsclr-plugin-dir.so"), Some("so")),
        scanned(true, Some("upsclr-plugin-bad.dll"), Some("dll")),
        scanned(true, Some("upsclr-plugin-a.dylib"), Some("dylib")),
        scanned(true, None, Some("so")),
    ];
    let asked = std::cell::RefCell::new(Vec::new());
    let (pm, failures) = PluginManager::from_scan(&entries, |i: usize| {
        asked.borrow_mut().push(i);
        let name = entries[i].file_name.clone().unwrap();
        if name.contains("bad") {
            return Err("broken".to_string());
        }
        Ok(LoadedPlugin {
            id: name.clone(),
            path: format!("/plugins/{}", name),
            plugin_info: PluginInfo {
                id: name,
                name: "n".to_string(),
                version: "1".to_string(),
                description: "d".to_string(),
            },
            engines_info: vec![],
        })
    });
    assert_eq!(asked.into_inner(), vec![0, 3, 4]);
    let ids: Vec<String> = pm.plugins.iter().map(|p| p.id.clone()).collect();
    assert_eq!(ids, vec!["upsclr-plugin-b.so".to_string(), "upsclr-plugin-a.dylib".to_string()]);
    assert_eq!(failures, vec![(3, "broken".to_string())]);
}
