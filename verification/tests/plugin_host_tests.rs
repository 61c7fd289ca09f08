use std::cell::RefCell;
use upsclr_server::handlers::RawValidationResult;
use upsclr_server::models::{
    ColorFormat, EngineInstanceConfig, HostEngineInfo, HostPluginInfo, PluginHostError,
    PreloadParams, UpscaleParams,
};
use upsclr_server::plugin_host::instance_manager::{InstanceManager, UpscaleCall};
use upsclr_server::plugin_host::plugin::{assemble_host_plugin, LoadedPlugin};
use upsclr_server::plugin_host::plugin_ffi::{UpsclrColorFormat, UpsclrErrorCode};
use upsclr_server::plugin_host::plugin_host_impl::{OperationStats, PluginHostServiceImpl};
use upsclr_server::plugin_manager::{RawEngineInfo, RawPluginInfo};

fn host_plugin(id: u128) -> LoadedPlugin {
    LoadedPlugin {
        id,
        path: "/p".to_string(),
        plugin_info: HostPluginInfo {
            plugin_id: id,
            path: "/p".to_string(),
            name: "P".to_string(),
            version: "1".to_string(),
            author: "".to_string(),
            description: "".to_string(),
            supported_engines: vec![
                HostEngineInfo { engine_name: "a".to_string(), engine_config_schema: "{}".to_string() },
                HostEngineInfo { engine_name: "b".to_string(), engine_config_schema: "{}".to_string() },
            ],
            engine_instances: vec![],
        },
    }
}

fn config(id: u128, plugin: u128, engine: &str, json: &str) -> EngineInstanceConfig {
    EngineInstanceConfig {
        instance_id: id,
        plugin_id: plugin,
        engine_name: engine.to_string(),
        engine_config: json.to_string(),
    }
}

#[test]
fn host_plugin_is_assembled_with_compact_schemas() {
    let engines = vec![Some(RawEngineInfo {
        name: Some(b"a".to_vec()),
        description: None,
        version: None,
        config_json_schema: Some(b"{ \"type\" : \"object\" }".to_vec()),
    })];
    let info = Some(RawPluginInfo {
        name: Some(b"P".to_vec()),
        version: Some(b"1".to_vec()),
        description: Some(b"d".to_vec()),
    });
    let p = assemble_host_plugin(7, "/p".into(), "\"/p\"", UpsclrErrorCode::Success, &info, &engines).unwrap();
    assert_eq!(p.plugin_id, 7);
    assert_eq!(p.name, "P");
    assert_eq!(p.author, "");
    assert_eq!(p.supported_engines[0].engine_config_schema, "{\"type\":\"object\"}");
    match assemble_host_plugin(7, "/p".into(), "\"/p\"", UpsclrErrorCode::PluginNotInitialized, &info, &engines) {
        Err(PluginHostError::PluginLoadError(m)) => {
            assert_eq!(m, "Plugin at \"/p\" failed to initialize with error code: PluginNotInitialized")
        }
        _ => panic!("expected PluginLoadError"),
    }
    let bad = vec![None];
    match assemble_host_plugin(7, "/p".into(), "\"/p\"", UpsclrErrorCode::Success, &None, &bad) {
        Err(PluginHostError::PluginLoadError(m)) => {
            assert_eq!(m, "Plugin at \"/p\" returned NULL from upsclr_plugin_get_info")
        }
        _ => panic!("expected PluginLoadError"),
    }
}

#[test]
fn host_validation_keeps_readable_messages() {
    let p = host_plugin(1);
    let answer = |_i: usize, _c: &str| {
        Some(RawValidationResult {
            is_valid: false,
            error_count: 3,
            error_messages: Some(vec![Some(b"e1".to_vec()), None, Some(vec![0xFF])]),
            warning_count: 0,
            warning_messages: Some(vec![Some(b"ignored".to_vec())]),
        })
    };
    let r = p.validate_engine_config("b", "{}", answer).unwrap();
    assert!(!r.is_valid);
    assert_eq!(r.error_messages, vec!["e1".to_string()]);
    assert!(r.warning_messages.is_empty());
    assert!(matches!(p.validate_engine_config("zz", "{}", answer), Err(PluginHostError::EngineNotFound(m)) if m == "zz"));
    assert!(matches!(p.validate_engine_config("a", "{}", |_i: usize, _c: &str| None), Err(PluginHostError::OperationFailed(m)) if m == "Plugin returned NULL from validation function."));
    assert!(matches!(p.validate_engine_config("a", "\0", answer), Err(PluginHostError::InvalidParameter(m)) if m == "Invalid config JSON: nul byte found in provided data at position: 0"));
}

#[test]
fn host_instances_lifecycle() {
    let mut m = InstanceManager::new(host_plugin(1));
    let destroyed = RefCell::new(Vec::new());
    let inst = m.create_instance(config(5, 1, "b", "{}"), 1000, |i: usize, _c: &str| 10 + i).unwrap();
    assert_eq!(inst.uptime_ms, 0);
    assert_eq!(m.get_instance(5).unwrap().instance_handle, 11);
    assert!(matches!(m.create_instance(config(6, 1, "b", "{}"), 0, |_i: usize, _c: &str| 0), Err(PluginHostError::EngineCreationFailed(_))));
    let all = m.get_all_instances(1500);
    assert_eq!(all.len(), 1);
    assert_eq!(all[0].uptime_ms, 500);
    assert_eq!(m.get_instance_ids(), vec![5]);
    let re = m
        .recreate_instance(5, None, 2000, |h: usize| destroyed.borrow_mut().push(h), |i: usize, _c: &str| 20 + i)
        .unwrap();
    assert_eq!(re.config.engine_name, "b");
    assert_eq!(destroyed.borrow().clone(), vec![11]);
    assert_eq!(m.get_instance(5).unwrap().instance_handle, 21);
    assert!(matches!(m.destroy_instance(9, |_h: usize| {}), Err(PluginHostError::EngineInstanceNotFound(9))));
    m.destroy_instance(5, |h: usize| destroyed.borrow_mut().push(h)).unwrap();
    assert_eq!(destroyed.borrow().clone(), vec![11, 21]);
    assert!(m.get_instance(5).is_none());
}

#[test]
fn host_preload_and_upscale() {
    let mut m = InstanceManager::new(host_plugin(1));
    m.create_instance(config(5, 1, "a", "{}"), 0, |_i: usize, _c: &str| 99).unwrap();
    let asked = RefCell::new(Vec::new());
    m.preload(5, PreloadParams { width: 640, height: 1920, channels: 3 }, |h: usize, s: i32| {
        asked.borrow_mut().push((h, s));
        UpsclrErrorCode::Success
    })
    .unwrap();
    assert_eq!(asked.borrow().clone(), vec![(99, 1920)]);
    assert!(matches!(m.preload(5, PreloadParams { width: 1, height: 1, channels: 3 }, |_h: usize, _s: i32| UpsclrErrorCode::PreloadFailed), Err(PluginHostError::OperationFailed(msg)) if msg == "Preload operation failed with error code: PreloadFailed"));
    let params = UpscaleParams {
        scale: 2,
        input_width: 2,
        input_height: 3,
        channels: 3,
        input_color_format: ColorFormat::Bgr,
        desired_color_format: ColorFormat::Rgb,
        input_data: vec![0; 18],
    };
    let r = m
        .upscale(5, params, |c: &UpscaleCall, d: &[u8], out: &mut [u8]| {
            assert_eq!(c.output_size, 4 * 6 * 3);
            assert_eq!(c.input_color_format, UpsclrColorFormat::Bgr);
            assert_eq!(d.len(), 18);
            assert_eq!(out.len(), c.output_size);
            assert!(out.iter().all(|b| *b == 0));
            out[0] = 7;
            (UpsclrErrorCode::Success, 12)
        })
        .unwrap();
    assert_eq!((r.output_width, r.output_height, r.channels, r.processing_time_us), (4, 6, 3, 12));
    assert_eq!(r.output_data.len(), 72);
    assert_eq!(r.output_data[0], 7);
    assert!(matches!(
        m.upscale(
            5,
            UpscaleParams {
                scale: 2,
                input_width: 1,
                input_height: 1,
                channels: 3,
                input_color_format: ColorFormat::Rgb,
                desired_color_format: ColorFormat::Rgb,
                input_data: vec![0; 3],
            },
            |_c: &UpscaleCall, _d: &[u8], _out: &mut [u8]| (UpsclrErrorCode::UpscaleFailed, 1)
        ),
        Err(PluginHostError::OperationFailed(msg)) if msg == "Upscale operation failed with error code: UpscaleFailed"
    ));
}

#[test]
fn service_counts_operations_and_checks_plugin_ids() {
    let mut svc = PluginHostServiceImpl::new();
    assert!(svc.check_can_load().is_ok());
    assert!(matches!(svc.plugin_with_id(1), Err(PluginHostError::PluginNotFound(m)) if m == "No plugin loaded in this plugin host"));
    svc.complete_load(Ok(host_plugin(1))).unwrap();
    assert!(svc.check_can_load().is_err());
    match svc.plugin_with_id(2) {
        Err(PluginHostError::PluginNotFound(m)) => assert_eq!(
            m,
            "Plugin ID mismatch. Expected: 00000000-0000-0000-0000-000000000002, but this host has: 00000000-0000-0000-0000-000000000001"
        ),
        _ => panic!("expected PluginNotFound"),
    }
    svc.create_engine_instance(config(5, 1, "a", "{}"), 0, |_i: usize, _c: &str| 3).unwrap();
    assert!(svc.destroy_engine_instance(6, |_h: usize| {}).is_err());
    let s: OperationStats = svc.stats();
    assert_eq!((s.total_operations, s.successful_operations, s.failed_operations), (3, 2, 1));
}

#[test]
fn service_status_reports_counts_and_instance_ages() {
    let mut svc = PluginHostServiceImpl::new();
    let empty = svc.get_status(42, 10, 100);
    assert_eq!(empty.process_id, 42);
    assert_eq!(empty.uptime_ms, 10);
    assert!(empty.loaded_plugins.is_empty());
    svc.complete_load(Ok(host_plugin(1))).unwrap();
    svc.create_engine_instance(config(5, 1, "a", "{}"), 40, |_i: usize, _c: &str| 3).unwrap();
    let st = svc.get_status(42, 10, 100);
    assert_eq!((st.total_operations, st.successful_operations, st.failed_operations), (2, 2, 0));
    assert_eq!(st.memory_usage_bytes, 0);
    assert_eq!(st.loaded_plugins.len(), 1);
    assert_eq!(st.loaded_plugins[0].name, "P");
    assert_eq!(st.loaded_plugins[0].engine_instances.len(), 1);
    assert_eq!(st.loaded_plugins[0].engine_instances[0].config.instance_id, 5);
    assert_eq!(st.loaded_plugins[0].engine_instances[0].uptime_ms, 60);
}

#[test]
fn service_exit_destroys_every_instance() {
    let mut svc = PluginHostServiceImpl::new();
    svc.complete_load(Ok(host_plugin(1))).unwrap();
    svc.create_engine_instance(config(5, 1, "a", "{}"), 0, |_i: usize, _c: &str| 3).unwrap();
    svc.create_engine_instance(config(6, 1, "b", "{}"), 0, |_i: usize, _c: &str| 4).unwrap();
    let destroyed = RefCell::new(Vec::new());
    svc.exit_cleanup(|h: usize| destroyed.borrow_mut().push(h));
    let mut d = destroyed.into_inner();
    d.sort();
    assert_eq!(d, vec![3, 4]);
    let st = svc.get_status(1, 0, 0);
    assert!(st.loaded_plugins[0].engine_instances.is_empty());
    assert_eq!(st.total_operations, 3);
}
