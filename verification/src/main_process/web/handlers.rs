//! Decisions of the multi-process server's HTTP handlers: scale checks,
//! locating the plugin host of an instance, the preload size and the
//! instance-creation outcome.
use crate::handlers::{debug_list, debug_list_string, texts};
use crate::main_process::web::error::ApiError;
use crate::main_process::web::models::{CreateInstanceQuery, CreateInstanceResponse, ValidationResultDesc};
use crate::models::{EngineConfigValidationResult, HostPluginInfo, PreloadParams};
use vstd::prelude::*;
use vstd::string::*;

verus! {

/// A scale factor is accepted when it is greater than 1.
pub fn check_scale(scale: u32) -> (r: Result<(), ApiError>)
    ensures
        scale > 1 ==> r is Ok,
        scale <= 1 ==> (r matches Err(ApiError::BadRequest(m)) && m@
            == "Invalid scale parameter: must be greater than 1"@),
{
    if scale <= 1 {
        Err(ApiError::BadRequest(String::from_str("Invalid scale parameter: must be greater than 1")))
    } else {
        Ok(())
    }
}

/// The plugin whose host runs the instance: the first plugin, in order,
/// that lists an instance with that UUID.
pub open spec fn plugin_of_instance(plugins: Seq<HostPluginInfo>, id: u128) -> Option<u128>
    decreases plugins.len(),
{
    if plugins.len() == 0 {
        None
    } else if exists|j: int|
        0 <= j < plugins[0].engine_instances@.len()
            && (#[trigger] plugins[0].engine_instances@[j]).config.instance_id == id {
        Some(plugins[0].plugin_id)
    } else {
        plugin_of_instance(plugins.subrange(1, plugins.len() as int), id)
    }
}

proof fn lemma_plugin_of_instance_skip(plugins: Seq<HostPluginInfo>, id: u128, i: int)
    requires
        0 <= i <= plugins.len(),
        forall|k: int, j: int|
            0 <= k < i && 0 <= j < plugins[k].engine_instances@.len() ==> (
            #[trigger] plugins[k].engine_instances@[j]).config.instance_id != id,
    ensures
        plugin_of_instance(plugins, id) == plugin_of_instance(
            plugins.subrange(i, plugins.len() as int),
            id,
        ),
    decreases i,
{
    if i > 0 {
        let t = plugins.subrange(1, plugins.len() as int);
        assert forall|k: int, j: int|
            0 <= k < i - 1 && 0 <= j < t[k].engine_instances@.len() implies (
            #[trigger] t[k].engine_instances@[j]).config.instance_id != id by {
            assert(t[k] == plugins[k + 1]);
        }
        lemma_plugin_of_instance_skip(t, id, i - 1);
        assert(t.subrange(i - 1, t.len() as int) =~= plugins.subrange(i, plugins.len() as int));
        assert(!exists|j: int|
            0 <= j < plugins[0].engine_instances@.len()
                && (#[trigger] plugins[0].engine_instances@[j]).config.instance_id == id);
    } else {
        assert(plugins.subrange(0, plugins.len() as int) =~= plugins);
    }
}

/// Finds the plugin whose host runs the instance; `NotFound` when none does.
pub fn find_instance_plugin(plugins: &Vec<HostPluginInfo>, instance_id: u128) -> (r: Result<
    u128,
    ApiError,
>)
    ensures
        match plugin_of_instance(plugins@, instance_id) {
            Some(p) => r == Ok::<u128, ApiError>(p),
            None => r matches Err(ApiError::NotFound(m)) && m@ == api_not_found(instance_id),
        },
{
    let n = plugins.len();
    let mut i: usize = 0;
    while i < n
        invariant
            n == plugins@.len(),
            0 <= i <= n,
            forall|k: int, j: int|
                0 <= k < i && 0 <= j < plugins@[k].engine_instances@.len() ==> (
                #[trigger] plugins@[k].engine_instances@[j]).config.instance_id != instance_id,
        decreases n - i,
    {
        let insts = &plugins[i].engine_instances;
        let m = insts.len();
        let mut j: usize = 0;
        while j < m
            invariant
                n == plugins@.len(),
                0 <= i < n,
                forall|k: int, j: int|
                    0 <= k < i && 0 <= j < plugins@[k].engine_instances@.len() ==> (
                    #[trigger] plugins@[k].engine_instances@[j]).config.instance_id != instance_id,
                m == insts@.len(),
                insts@ == plugins@[i as int].engine_instances@,
                0 <= j <= m,
                forall|t: int| 0 <= t < j ==> (#[trigger] insts@[t]).config.instance_id != instance_id,
            decreases m - j,
        {
            if insts[j].config.instance_id == instance_id {
                proof {
                    lemma_plugin_of_instance_skip(plugins@, instance_id, i as int);
                    let s = plugins@.subrange(i as int, n as int);
                    assert(s[0] == plugins@[i as int]);
                    assert(s[0].engine_instances@[j as int].config.instance_id == instance_id);
                }
                return Ok(plugins[i].plugin_id);
            }
            j = j + 1;
        }
        proof {
            assert forall|k: int, j: int|
                0 <= k < i + 1 && 0 <= j < plugins@[k].engine_instances@.len() implies (
                #[trigger] plugins@[k].engine_instances@[j]).config.instance_id != instance_id by {
                if k == i {
                    assert(plugins@[k].engine_instances@[j] == insts@[j]);
                }
            }
        }
        i = i + 1;
    }
    proof {
        lemma_plugin_of_instance_skip(plugins@, instance_id, n as int);
    }
    Err(ApiError::NotFound(not_found_text(instance_id)))
}

/// The message answered when no plugin host runs the instance.
pub open spec fn api_not_found(id: u128) -> Seq<char> {
    "Instance with ID "@ + crate::instance_manager::uuid_hyphenated(id) + " not found"@
}

fn not_found_text(id: u128) -> (r: String)
    ensures
        r@ == api_not_found(id),
{
    String::from_str("Instance with ID ").concat(crate::instance_manager::uuid_text(id).as_str()).concat(
        " not found",
    )
}

/// Side of the square, in pixels, a preload prepares for before scaling.
pub const PRELOAD_BASE_DIMENSION: u32 = 1920;

/// What a preload for a scale factor asks the plugin host to prepare: a
/// 1920 × 1920 RGB image scaled by that factor.
pub fn preload_params_for_scale(scale: u32) -> (r: PreloadParams)
    requires
        PRELOAD_BASE_DIMENSION * scale <= u32::MAX,
    ensures
        r.width == PRELOAD_BASE_DIMENSION * scale,
        r.height == PRELOAD_BASE_DIMENSION * scale,
        r.channels == 3,
{
    PreloadParams {
        width: PRELOAD_BASE_DIMENSION * scale,
        height: PRELOAD_BASE_DIMENSION * scale,
        channels: 3,
    }
}

/// Describes a plugin host's validation answer; the counts are those of
/// the messages.
pub fn validation_desc(result: EngineConfigValidationResult) -> (r: ValidationResultDesc)
    ensures
        r.is_valid == result.is_valid,
        r.error_count == result.error_messages@.len(),
        r.error_messages@ == result.error_messages@,
        r.warning_count == result.warning_messages@.len(),
        r.warning_messages@ == result.warning_messages@,
{
    let error_count = result.error_messages.len();
    let warning_count = result.warning_messages.len();
    ValidationResultDesc {
        is_valid: result.is_valid,
        error_count,
        error_messages: result.error_messages,
        warning_count,
        warning_messages: result.warning_messages,
    }
}

/// What `POST /instances` answers once the configuration has been
/// validated: the validation alone for a dry run (`Ok(Err(..))`), a
/// `BadRequest` listing the errors for an invalid configuration, else the
/// go-ahead to create the instance (`Ok(Ok(desc))`).
pub fn creation_decision(query: CreateInstanceQuery, desc: ValidationResultDesc) -> (r: Result<
    Result<ValidationResultDesc, CreateInstanceResponse>,
    ApiError,
>)
    ensures
        query.dry_run == Some(true) ==> (r matches Ok(Err(resp)) && resp.instance_id is None
            && resp.validation == Some(desc)),
        query.dry_run != Some(true) && !desc.is_valid ==> (r matches Err(ApiError::BadRequest(m))
            && m@ == "Engine configuration is invalid: "@ + debug_list(texts(desc.error_messages@))),
        query.dry_run != Some(true) && desc.is_valid ==> r == Ok::<
            Result<ValidationResultDesc, CreateInstanceResponse>,
            ApiError,
        >(Ok(desc)),
{
    let dry_run = match query.dry_run {
        Some(b) => b,
        None => false,
    };
    if dry_run {
        return Ok(Err(CreateInstanceResponse { instance_id: None, validation: Some(desc) }));
    }
    if !desc.is_valid {
        return Err(
            ApiError::BadRequest(
                String::from_str("Engine configuration is invalid: ").concat(
                    debug_list_string(&desc.error_messages).as_str(),
                ),
            ),
        );
    }
    Ok(Ok(desc))
}

} // verus!
