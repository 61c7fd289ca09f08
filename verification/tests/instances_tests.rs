use std::cell::RefCell;
use upsclr_server::error::AppError;
use upsclr_server::handlers::{
    create_instance_handler, get_plugins, preload_outcome, preload_target, reset,
    validation_desc_from_raw, RawValidationResult, ResetQuery,
};
use upsclr_server::instance_manager::{InstanceManager, InstanceManagerState, InstanceState};
use upsclr_server::models::{CreateInstanceQuery, CreateInstanceRequest};
use upsclr_server::plugin_ffi::UpsclrErrorCode;
use upsclr_server::plugin_manager::{
    EngineInfo, LoadedPlugin, PluginInfo, PluginManager, PluginManagerState,
};

fn engine(plugin_id: &str, name: &str, index: usize) -> EngineInfo {
    EngineInfo {
        name: name.to_string(),
        description: format!("{} engine", name),
        version: "1.0".to_string(),
        config_schema: "{}".to_string(),
        plugin_id: plugin_id.to_string(),
        engine_index_in_plugin: index,
    }
}

fn plugin(id: &str, engines: &[&str]) -> LoadedPlugin {
    LoadedPlugin {
        id: id.to_string(),
        path: format!("/plugins/{}", id),
        plugin_info: PluginInfo {
            id: id.to_string(),
            name: format!("{} name", id),
            version: "0.1".to_string(),
            description: "test plugin".to_string(),
        },
        engines_info: engines.iter().enumerate().map(|(i, e)| engine(id, e, i)).collect(),
    }
}

fn manager() -> PluginManager {
    PluginManager::from_loaded(vec![plugin("upsclr-plugin-a.so", &["fast", "slow"])])
}

fn request(plugin_id: &str, engine_name: &str, config: &str) -> CreateInstanceRequest {
    CreateInstanceRequest {
        plugin_id: plugin_id.to_string(),
        engine_name: engine_name.to_string(),
        config: config.to_string(),
    }
}

fn valid(_p: &LoadedPlugin, _i: usize, _c: &str) -> Option<RawValidationResult> {
    Some(RawValidationResult {
        is_valid: true,
        error_count: 0,
        error_messages: None,
        warning_count: 1,
        warning_messages: Some(vec![Some(b"careful".to_vec())]),
    })
}

fn invalid(_p: &LoadedPlugin, _i: usize, _c: &str) -> Option<RawValidationResult> {
    Some(RawValidationResult {
        is_valid: false,
        error_count: 2,
        error_messages: Some(vec![Some(b"bad \"x\"".to_vec()), None]),
        warning_count: 0,
        warning_messages: None,
    })
}

#[test]
fn create_list_get_delete_instance() {
    let pm = manager();
    let mut im = InstanceManager::new();
    let seen = RefCell::new(Vec::new());
    let create = |p: &LoadedPlugin, i: usize, c: &str| {
        seen.borrow_mut().push((p.id.clone(), i, c.to_string()));
        0x1000
    };
    let (resp, displaced) = create_instance_handler(
        &pm,
        &mut im,
        CreateInstanceQuery { dry_run: None },
        &request("upsclr-plugin-a.so", "slow", "{\"tile\":256}"),
        valid,
        create,
    )
    .unwrap();
    assert!(displaced.is_none());
    assert_eq!(seen.borrow().clone(), vec![("upsclr-plugin-a.so".to_string(), 1, "{\"tile\":256}".to_string())]);
    let desc = resp.validation.unwrap();
    assert!(desc.is_valid);
    assert_eq!(desc.warning_messages, vec!["careful".to_string()]);
    let id = resp.instance_id.unwrap();

    let inst = im.get_instance(id).unwrap();
    assert_eq!(inst.instance_handle, 0x1000);
    assert_eq!(inst.plugin_name, "upsclr-plugin-a.so name");
    assert_eq!(inst.engine_name, Some("slow".to_string()));
    assert_eq!(inst.config_json_string, "{\"tile\":256}");

    let list = im.list_instances_info();
    assert_eq!(list.len(), 1);
    assert_eq!(list[0].instance_id, id);
    assert_eq!(list[0].engine_name, "slow");

    let (handle, plugin_id) = preload_target(&im, id, 2).unwrap();
    assert_eq!(handle, 0x1000);
    assert_eq!(plugin_id, "upsclr-plugin-a.so");

    let removed = im.delete_instance(id).unwrap();
    assert_eq!(removed.uuid, id);
    assert!(im.get_instance(id).is_none());
    assert!(matches!(im.delete_instance(id), Err(AppError::InstanceNotFound)));
    assert!(im.is_empty());
}

#[test]
fn dry_run_only_validates() {
    let pm = manager();
    let mut im = InstanceManager::new();
    let (resp, _) = create_instance_handler(
        &pm,
        &mut im,
        CreateInstanceQuery { dry_run: Some(true) },
        &request("upsclr-plugin-a.so", "fast", "{}"),
        invalid,
        |_p: &LoadedPlugin, _i: usize, _c: &str| panic!("must not create"),
    )
    .unwrap();
    assert!(resp.instance_id.is_none());
    let desc = resp.validation.unwrap();
    assert!(!desc.is_valid);
    assert_eq!(desc.error_count, 2);
    assert_eq!(
        desc.error_messages,
        vec![
            "bad \"x\"".to_string(),
            "Failed to parse error message from plugin: Encountered a null string pointer from plugin".to_string()
        ]
    );
    assert!(im.is_empty());
}

#[test]
fn invalid_configuration_is_a_bad_request() {
    let pm = manager();
    let mut im = InstanceManager::new();
    let r = create_instance_handler(
        &pm,
        &mut im,
        CreateInstanceQuery { dry_run: Some(false) },
        &request("upsclr-plugin-a.so", "fast", "{}"),
        invalid,
        |_p: &LoadedPlugin, _i: usize, _c: &str| panic!("must not create"),
    );
    match r {
        Err(AppError::BadRequest(m)) => assert_eq!(
            m,
            "Engine configuration is invalid. Errors: [\"bad \\\"x\\\"\", \"Failed to parse error message from plugin: Encountered a null string pointer from plugin\"]"
        ),
        _ => panic!("expected BadRequest"),
    }
    assert!(im.is_empty());
}

#[test]
fn create_instance_errors() {
    let pm = manager();
    let mut im = InstanceManager::new();
    let never = |_p: &LoadedPlugin, _i: usize, _c: &str| -> usize { panic!("must not create") };
    match create_instance_handler(&pm, &mut im, CreateInstanceQuery { dry_run: None }, &request("nope", "fast", "{}"), valid, never) {
        Err(AppError::PluginNotFound(m)) => assert_eq!(m, "nope"),
        _ => panic!("expected PluginNotFound"),
    }
    match create_instance_handler(&pm, &mut im, CreateInstanceQuery { dry_run: None }, &request("upsclr-plugin-a.so", "medium", "{}"), valid, never) {
        Err(AppError::EngineNotFound(m)) => assert_eq!(m, "Engine 'medium' not found in plugin 'upsclr-plugin-a.so'"),
        _ => panic!("expected EngineNotFound"),
    }
    match create_instance_handler(&pm, &mut im, CreateInstanceQuery { dry_run: None }, &request("upsclr-plugin-a.so", "fast", "{\"a\":\"\0\"}"), valid, never) {
        Err(AppError::CStringError(m)) => assert_eq!(m, "nul byte found in provided data at position: 6"),
        _ => panic!("expected CStringError"),
    }
    match create_instance_handler(&pm, &mut im, CreateInstanceQuery { dry_run: None }, &request("upsclr-plugin-a.so", "fast", "{}"), valid, |_p: &LoadedPlugin, _i: usize, _c: &str| 0) {
        Err(AppError::InstanceCreationFailed(m)) => {
            assert_eq!(m, "Plugin returned a null pointer, indicating instance creation failed.")
        }
        _ => panic!("expected InstanceCreationFailed"),
    }
    assert!(im.is_empty());
}

#[test]
fn null_validation_result_means_valid_without_messages() {
    let d = validation_desc_from_raw(&None);
    assert!(d.is_valid);
    assert_eq!(d.error_count, 0);
    assert!(d.error_messages.is_empty() && d.warning_messages.is_empty());
    let raw = Some(RawValidationResult {
        is_valid: true,
        error_count: 0,
        error_messages: None,
        warning_count: 1,
        warning_messages: Some(vec![Some(vec![0xFF, 0xFE])]),
    });
    let d = validation_desc_from_raw(&raw);
    assert_eq!(d.warning_count, 1);
    assert!(d.warning_messages[0].starts_with(
        "Failed to parse warning message from plugin: Invalid UTF-8 sequence in string from plugin: "
    ));
}

#[test]
fn export_then_import_restores_instances() {
    let pm = manager();
    let mut im = InstanceManager::new();
    let mut ids = Vec::new();
    for (k, e) in ["fast", "slow"].iter().enumerate() {
        let (id, _) = im
            .create_instance(&pm.plugins[0], k, &format!("{{\"n\":{}}}", k), |_p: &LoadedPlugin, _i: usize, _c: &str| 7 + k)
            .unwrap();
        ids.push((id, e.to_string()));
    }
    let state = im.export_state();
    assert_eq!(state.instances.len(), 2);
    let (imported, cleared) = im.import_state(state, &pm, |_p: &LoadedPlugin, i: usize, _c: &str| 100 + i).unwrap();
    assert_eq!(cleared.len(), 2);
    assert_eq!(imported.len(), 2);
    for (id, name) in ids {
        let inst = im.get_instance(id).unwrap();
        assert_eq!(inst.engine_name, Some(name));
        assert!(inst.instance_handle >= 100);
    }
}

#[test]
fn import_skips_what_cannot_be_recreated() {
    let pm = manager();
    let mut im = InstanceManager::new();
    let entry = |id: u128, plugin: &str, index: usize, config: &str| InstanceState {
        instance_id: id,
        plugin_id: plugin.to_string(),
        engine_index_in_plugin: index,
        config_json_string: config.to_string(),
    };
    let state = InstanceManagerState {
        instances: vec![
            entry(1, "upsclr-plugin-a.so", 0, "{}"),
            entry(1, "upsclr-plugin-a.so", 1, "{}"),
            entry(2, "missing", 0, "{}"),
            entry(3, "upsclr-plugin-a.so", 5, "{}"),
            entry(4, "upsclr-plugin-a.so", 0, "\0"),
            entry(5, "upsclr-plugin-a.so", 1, "refused"),
            entry(6, "upsclr-plugin-a.so", 1, "{}"),
        ],
    };
    let create = |_p: &LoadedPlugin, _i: usize, c: &str| if c == "refused" { 0 } else { 42 };
    let (imported, cleared) = im.import_state(state, &pm, create).unwrap();
    assert!(cleared.is_empty());
    assert_eq!(imported, vec![1, 6]);
    assert_eq!(im.get_instance(1).unwrap().engine_index_in_plugin, 0);
    assert!(im.get_instance(5).is_none());
}

#[test]
fn reset_recreates_instances_and_can_reload_plugins() {
    let mut pm = manager();
    let mut im = InstanceManager::new();
    let (id, _) = im
        .create_instance(&pm.plugins[0], 0, "{}", |_p: &LoadedPlugin, _i: usize, _c: &str| 1)
        .unwrap();
    let destroyed = RefCell::new(Vec::new());
    let reload = |st: PluginManagerState| -> Result<Vec<LoadedPlugin>, AppError> {
        assert_eq!(st.plugin_paths, vec!["/plugins/upsclr-plugin-a.so".to_string()]);
        Ok(vec![plugin("upsclr-plugin-a.so", &["fast", "slow"])])
    };
    let ids = reset(
        &mut pm,
        &mut im,
        &ResetQuery { plugins: Some(true) },
        reload,
        |_p: &LoadedPlugin, _i: usize, _c: &str| 2,
        |a: &upsclr_server::instance_manager::ActiveInstance| destroyed.borrow_mut().push(a.instance_handle),
    )
    .unwrap();
    assert_eq!(ids, vec![id]);
    assert_eq!(destroyed.borrow().clone(), vec![1]);
    assert_eq!(im.get_instance(id).unwrap().instance_handle, 2);

    let failing = |_st: PluginManagerState| -> Result<Vec<LoadedPlugin>, AppError> {
        Err(AppError::PluginLoadError("gone".to_string()))
    };
    let r = reset(
        &mut pm,
        &mut im,
        &ResetQuery { plugins: Some(true) },
        failing,
        |_p: &LoadedPlugin, _i: usize, _c: &str| 3,
        |_a: &upsclr_server::instance_manager::ActiveInstance| {},
    );
    assert!(matches!(r, Err(AppError::PluginLoadError(_))));
    assert_eq!(pm.count_plugins(), 0);
    assert!(im.is_empty());
}

#[test]
fn plugins_are_described_with_their_engines() {
    let pm = PluginManager::from_loaded(vec![
        plugin("upsclr-plugin-a.so", &["fast"]),
        plugin("upsclr-plugin-b.so", &["x", "y"]),
    ]);
    let d = get_plugins(&pm);
    assert_eq!(d.len(), 2);
    assert_eq!(d[1].plugin_info.name, "upsclr-plugin-b.so name");
    assert_eq!(d[1].engines.len(), 2);
    assert_eq!(d[1].engines[1].name, "y");
    assert_eq!(d[1].engines[1].engine_index_in_plugin, 1);
}

#[test]
fn preload_answers() {
    let im = InstanceManager::new();
    assert!(matches!(preload_target(&im, 9, 2), Err(AppError::InstanceNotFound)));
    assert!(matches!(preload_target(&im, 9, 1), Err(AppError::BadRequest(_))));
    assert!(preload_outcome(1, UpsclrErrorCode::Success).is_ok());
    match preload_outcome(0x67e5504410b1426f9247bb680e5fe0c8, UpsclrErrorCode::UpscaleFailed) {
        Err(AppError::PluginOperationFailed { operation, details }) => {
            assert_eq!(operation, "preload_instance");
            assert_eq!(
                details,
                "Plugin preload failed with code: UpscaleFailed for instance 67e55044-10b1-426f-9247-bb680e5fe0c8"
            );
        }
        _ => panic!("expected PluginOperationFailed"),
    }
}

#[test]
fn reset_without_reload_keeps_the_same_instances() {
    let mut pm = manager();
    let mut im = InstanceManager::new();
    let (a, _) = im
        .create_instance(&pm.plugins[0], 0, "{\"n\":1}", |_p: &LoadedPlugin, _i: usize, _c: &str| 1)
        .unwrap();
    let (b, _) = im
        .create_instance(&pm.plugins[0], 1, "{\"n\":2}", |_p: &LoadedPlugin, _i: usize, _c: &str| 2)
        .unwrap();
    let mut before: Vec<(u128, String, usize, String)> = im
        .export_state()
        .instances
        .into_iter()
        .map(|e| (e.instance_id, e.plugin_id, e.engine_index_in_plugin, e.config_json_string))
        .collect();
    let destroyed = RefCell::new(Vec::new());
    let mut ids = reset(
        &mut pm,
        &mut im,
        &ResetQuery { plugins: None },
        |_st: PluginManagerState| -> Result<Vec<LoadedPlugin>, AppError> { panic!("no reload") },
        |_p: &LoadedPlugin, i: usize, _c: &str| 10 + i,
        |x: &upsclr_server::instance_manager::ActiveInstance| destroyed.borrow_mut().push(x.instance_handle),
    )
    .unwrap();
    ids.sort();
    let mut expected = vec![a, b];
    expected.sort();
    assert_eq!(ids, expected);
    let mut d = destroyed.into_inner();
    d.sort();
    assert_eq!(d, vec![1, 2]);
    let mut after: Vec<(u128, String, usize, String)> = im
        .export_state()
        .instances
        .into_iter()
        .map(|e| (e.instance_id, e.plugin_id, e.engine_index_in_plugin, e.config_json_string))
        .collect();
    before.sort();
    after.sort();
    assert_eq!(before, after);
    assert_eq!(im.get_instance(a).unwrap().instance_handle, 10);
    assert_eq!(im.get_instance(b).unwrap().instance_handle, 11);
}
