use upsclr_server::headers::MediaType;
use upsclr_server::main_process::plugin_host_client::{
    check_plugin_loadable, check_plugin_ready, PluginHostRespawnMode, ProcessObservation,
    RespawnOutcome, RespawnSupervisor, SupervisorAction,
};
use upsclr_server::main_process::web::error::ApiError;
use upsclr_server::main_process::web::handlers::{
    check_scale, creation_decision, find_instance_plugin, preload_params_for_scale, validation_desc,
};
use upsclr_server::main_process::web::image_codec::{decode_input_image, encode_output_image, OutputFormat};
use upsclr_server::main_process::web::models::{CreateInstanceQuery, ValidationResultDesc};
use upsclr_server::models::{
    ColorFormat, EngineConfigValidationResult, EngineInstance, EngineInstanceConfig, HostPluginInfo,
    PluginHostError,
};
use upsclr_server::listeners::{listen_plan, ListenPlan};
use upsclr_server::rpc_ipc_framework;
use upsclr_server::rpc_ipc_framework2;

#[test]
fn supervisor_suspends_after_five_failed_respawns() {
    let mut s = RespawnSupervisor::new();
    assert_eq!(s.on_observation(ProcessObservation::Running), SupervisorAction::Continue { pause_ms: 0 });
    assert_eq!(s.on_observation(ProcessObservation::Exited), SupervisorAction::Respawn);
    for k in 1..5u64 {
        assert_eq!(s.on_respawn(RespawnOutcome::Failed), SupervisorAction::Continue { pause_ms: 1000 });
        assert_eq!(s.consecutive_crashes, k);
        assert_eq!(s.mode, PluginHostRespawnMode::RestartOnCrash);
    }
    assert_eq!(s.on_respawn(RespawnOutcome::Failed), SupervisorAction::Continue { pause_ms: 0 });
    assert_eq!(s.mode, PluginHostRespawnMode::Suspended);
    assert_eq!(s.on_observation(ProcessObservation::Exited), SupervisorAction::Continue { pause_ms: 5000 });
}

#[test]
fn supervisor_success_clears_the_count_and_no_restart_stops() {
    let mut s = RespawnSupervisor::new();
    s.on_respawn(RespawnOutcome::Failed);
    s.on_respawn(RespawnOutcome::BootstrapFailed);
    assert_eq!(s.consecutive_crashes, 1);
    assert_eq!(s.on_respawn(RespawnOutcome::Respawned), SupervisorAction::Continue { pause_ms: 0 });
    assert_eq!(s.consecutive_crashes, 0);
    s.set_respawn_mode(PluginHostRespawnMode::NoRestart);
    assert_eq!(s.on_observation(ProcessObservation::Exited), SupervisorAction::Stop);
    assert_eq!(s.on_observation(ProcessObservation::WaitFailed), SupervisorAction::Stop);
}

#[test]
fn plugin_host_connection_guards() {
    assert!(matches!(check_plugin_ready(false, true), Err(PluginHostError::PluginNotFound(m)) if m == "Plugin not loaded"));
    assert!(matches!(check_plugin_ready(true, false), Err(PluginHostError::InternalError(m)) if m == "Plugin host process not available"));
    assert!(check_plugin_ready(true, true).is_ok());
    assert!(matches!(check_plugin_loadable(true, true), Err(PluginHostError::PluginLoadError(m)) if m == "Plugin already loaded"));
    assert!(check_plugin_loadable(false, true).is_ok());
}

#[test]
fn host_errors_map_to_api_errors() {
    let e: ApiError = PluginHostError::EngineInstanceNotFound(0x2a).into();
    assert_eq!(e.status_code(), 404);
    assert_eq!(e.message(), "Instance with ID 00000000-0000-0000-0000-00000000002a not found");
    let e: ApiError = PluginHostError::EngineCreationFailed("x".into()).into();
    assert_eq!(e.status_code(), 400);
    assert_eq!(e.message(), "x");
    let e: ApiError = PluginHostError::Timeout("t".into()).into();
    assert_eq!(e.status_code(), 408);
    let e: ApiError = PluginHostError::ResourceLimitExceeded("r".into()).into();
    assert_eq!(e.status_code(), 429);
    let e: ApiError = PluginHostError::UnsupportedOperation("u".into()).into();
    assert_eq!(e.status_code(), 501);
    assert_eq!(ApiError::ImageProcessingError("i".into()).status_code(), 400);
}

#[test]
fn web_output_formats() {
    let f = |t: &str| OutputFormat::try_from_media_type(&MediaType::parse(t).unwrap());
    assert_eq!(f("image/png;compression=9"), Some(OutputFormat::Png { compression: 9 }));
    assert_eq!(f("image/jpeg"), Some(OutputFormat::Jpeg { quality: 85 }));
    assert_eq!(f("image/x-bmp"), Some(OutputFormat::Bmp));
    assert_eq!(f("image/x-targa"), Some(OutputFormat::Tga));
    assert_eq!(f("image/x-qoi"), Some(OutputFormat::Qoi));
    assert_eq!(f("image/webp"), None);
    assert_eq!(ColorFormat::from(OutputFormat::Bmp), ColorFormat::Rgb);
}

#[test]
fn web_codec_round_trips_through_bmp() {
    let pixels = vec![1u8, 2, 3, 4, 5, 6];
    let (ct, body) = encode_output_image(&pixels, 2, 1, 3, OutputFormat::Bmp).unwrap();
    assert_eq!(ct, "image/bmp");
    let (p, w, h, c, f) = decode_input_image(&body, Some("image/bmp")).unwrap();
    assert_eq!((p, w, h, c, f), (pixels, 2, 1, 3, ColorFormat::Rgb));
    assert!(matches!(decode_input_image(&body, Some("image/gif")), Err(ApiError::UnsupportedMediaType(m)) if m == "Content type 'image/gif' is not supported."));
    assert!(matches!(encode_output_image(&[0; 2], 1, 1, 258, OutputFormat::Qoi), Err(ApiError::ImageProcessingError(m)) if m == "Unsupported channel count (258)."));
}

#[test]
fn web_handler_decisions() {
    assert!(check_scale(2).is_ok());
    assert!(matches!(check_scale(1), Err(ApiError::BadRequest(m)) if m == "Invalid scale parameter: must be greater than 1"));
    let p = preload_params_for_scale(2);
    assert_eq!((p.width, p.height, p.channels), (3840, 3840, 3));
    let inst = |id: u128| EngineInstance {
        config: EngineInstanceConfig { instance_id: id, plugin_id: 0, engine_name: "e".into(), engine_config: "{}".into() },
        uptime_ms: 0,
    };
    let host = |pid: u128, ids: Vec<u128>| HostPluginInfo {
        plugin_id: pid,
        path: "".into(),
        name: "".into(),
        version: "".into(),
        author: "".into(),
        description: "".into(),
        supported_engines: vec![],
        engine_instances: ids.into_iter().map(inst).collect(),
    };
    let plugins = vec![host(10, vec![1, 2]), host(20, vec![3])];
    assert_eq!(find_instance_plugin(&plugins, 3).unwrap(), 20);
    assert!(matches!(find_instance_plugin(&plugins, 4), Err(ApiError::NotFound(m)) if m == "Instance with ID 00000000-0000-0000-0000-000000000004 not found"));
    let d = validation_desc(EngineConfigValidationResult {
        is_valid: false,
        warning_messages: vec![],
        error_messages: vec!["e1".into(), "e2".into()],
    });
    assert_eq!(d.error_count, 2);
    match creation_decision(CreateInstanceQuery { dry_run: None }, d) {
        Err(ApiError::BadRequest(m)) => assert_eq!(m, "Engine configuration is invalid: [\"e1\", \"e2\"]"),
        _ => panic!("expected BadRequest"),
    }
    let ok = ValidationResultDesc { is_valid: true, error_count: 0, error_messages: vec![], warning_count: 0, warning_messages: vec![] };
    assert!(matches!(creation_decision(CreateInstanceQuery { dry_run: None }, ok), Ok(Ok(_))));
}

#[test]
fn listening_plans_and_rpc_settings() {
    match listen_plan("*", 6795) {
        ListenPlan::Wildcard { ipv6, ipv4 } => {
            assert_eq!(ipv6, "[::]:6795");
            assert_eq!(ipv4, "0.0.0.0:6795");
        }
        _ => panic!("expected a wildcard plan"),
    }
    match listen_plan("localhost", 80) {
        ListenPlan::Address(a) => assert_eq!(a, "localhost:80"),
        _ => panic!("expected an address"),
    }
    let c = rpc_ipc_framework::RpcClientConfig::default();
    assert_eq!((c.timeout_ms, c.shutdown_timeout_ms), (5000, 5000));
    assert_eq!(rpc_ipc_framework::RpcServerConfig::default().shutdown_timeout_ms, 5000);
    assert_eq!(rpc_ipc_framework2::RpcClientConfig::default().shutdown_timeout_ms, 5000);
    assert_eq!(rpc_ipc_framework2::RpcServerConfig::default().shutdown_timeout_ms, 5000);
    assert_ne!(rpc_ipc_framework2::BootstrapConfirmation::Ready, rpc_ipc_framework2::BootstrapConfirmation::Shutdown);
}
