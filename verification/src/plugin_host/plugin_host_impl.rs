//! The service a plugin host process offers the main process: one plugin,
//! its engine instances, and counts of the operations it ran.
use crate::handlers::RawValidationResult;
use crate::instance_manager::{uuid_hyphenated, uuid_text};
use crate::models::{
    EngineConfigValidationResult, EngineInstance, EngineInstanceConfig, HostEngineInfo,
    HostPluginInfo, PluginHostError, PluginHostStatus, PreloadParams, UpscaleParams, UpscaleResult,
};
use crate::plugin_host::instance_manager::{
    config_view, create_outcome, destroy_outcome, preload_scale, recreate_outcome, upscale_answer,
    InstanceManager, UpscaleCall,
};
use crate::plugin_host::plugin::{host_engine_view, host_engine_views, validation_outcome, LoadedPlugin};
use crate::plugin_host::plugin_ffi::UpsclrErrorCode;
use vstd::prelude::*;
use vstd::string::*;

verus! {

/// How many operations the plugin host ran, and how many succeeded or failed.
#[derive(Debug, Clone, Copy)]
pub struct OperationStats {
    pub total_operations: u64,
    pub successful_operations: u64,
    pub failed_operations: u64,
}

impl OperationStats {
    /// Every operation counted has either succeeded or failed.
    pub open spec fn consistent(self) -> bool {
        self.total_operations == self.successful_operations + self.failed_operations
    }

    /// `next` is `self` with one more operation counted, as a success or a
    /// failure.
    pub open spec fn counted(self, next: OperationStats, succeeded: bool) -> bool {
        &&& next.total_operations == self.total_operations + 1
        &&& next.successful_operations == self.successful_operations + (if succeeded { 1int } else { 0int })
        &&& next.failed_operations == self.failed_operations + (if succeeded { 0int } else { 1int })
    }

    /// No operation counted yet.
    pub fn new() -> (r: OperationStats)
        ensures
            r.total_operations == 0,
            r.successful_operations == 0,
            r.failed_operations == 0,
    {
        OperationStats { total_operations: 0, successful_operations: 0, failed_operations: 0 }
    }

    /// Counts one more operation, as a success or a failure.
    pub fn track(&mut self, succeeded: bool)
        requires
            old(self).total_operations < u64::MAX,
            old(self).consistent(),
        ensures
            final(self).consistent(),
            final(self).total_operations == old(self).total_operations + 1,
            succeeded ==> final(self).successful_operations == old(self).successful_operations + 1
                && final(self).failed_operations == old(self).failed_operations,
            !succeeded ==> final(self).failed_operations == old(self).failed_operations + 1
                && final(self).successful_operations == old(self).successful_operations,
    {
        self.total_operations = self.total_operations + 1;
        if succeeded {
            self.successful_operations = self.successful_operations + 1;
        } else {
            self.failed_operations = self.failed_operations + 1;
        }
    }
}

/// Law: counting operations keeps the counts consistent: whatever the
/// outcomes, the total is the number of successes plus failures.
pub proof fn law_counts_add_up(s: OperationStats, succeeded: bool)
    requires
        s.consistent(),
        s.total_operations < u64::MAX,
    ensures
        (OperationStats {
            total_operations: (s.total_operations + 1) as u64,
            successful_operations: if succeeded {
                (s.successful_operations + 1) as u64
            } else {
                s.successful_operations
            },
            failed_operations: if succeeded {
                s.failed_operations
            } else {
                (s.failed_operations + 1) as u64
            },
        }).consistent(),
{
}

/// Plain view of a plugin host's plugin description, without its instances.
pub open spec fn host_info_view(p: HostPluginInfo) -> (
    u128,
    Seq<char>,
    Seq<char>,
    Seq<char>,
    Seq<char>,
    Seq<char>,
    Seq<(Seq<char>, Seq<char>)>,
) {
    (p.plugin_id, p.path@, p.name@, p.version@, p.author@, p.description@, host_engine_views(p.supported_engines@))
}

/// A copy of a plugin description, without its instances.
pub fn copy_host_info(p: &HostPluginInfo) -> (r: HostPluginInfo)
    ensures
        host_info_view(r) == host_info_view(*p),
        r.engine_instances@.len() == 0,
{
    let n = p.supported_engines.len();
    let mut engines: Vec<HostEngineInfo> = Vec::new();
    let mut i: usize = 0;
    while i < n
        invariant
            n == p.supported_engines@.len(),
            0 <= i <= n,
            engines@.len() == i,
            forall|k: int| 0 <= k < i ==> host_engine_view(#[trigger] engines@[k]) == host_engine_view(
                p.supported_engines@[k],
            ),
        decreases n - i,
    {
        let e = &p.supported_engines[i];
        engines.push(
            HostEngineInfo {
                engine_name: e.engine_name.clone(),
                engine_config_schema: e.engine_config_schema.clone(),
            },
        );
        i = i + 1;
    }
    proof {
        assert(host_engine_views(engines@) =~= host_engine_views(p.supported_engines@));
    }
    HostPluginInfo {
        plugin_id: p.plugin_id,
        path: p.path.clone(),
        name: p.name.clone(),
        version: p.version.clone(),
        author: p.author.clone(),
        description: p.description.clone(),
        supported_engines: engines,
        engine_instances: Vec::new(),
    }
}

/// The plugin host's service state: the operation counts and, once loaded,
/// the plugin with its instances.
pub struct PluginHostServiceImpl {
    stats: OperationStats,
    host: Option<InstanceManager>,
}

/// The message answered when a request names another plugin than the one
/// loaded.
pub open spec fn plugin_mismatch_message(expected: u128, loaded: u128) -> Seq<char> {
    "Plugin ID mismatch. Expected: "@ + uuid_hyphenated(expected) + ", but this host has: "@
        + uuid_hyphenated(loaded)
}

impl PluginHostServiceImpl {
    /// The loaded plugin with its instances, if a plugin is loaded.
    pub closed spec fn host_spec(&self) -> Option<InstanceManager> {
        self.host
    }

    /// The operation counts.
    pub closed spec fn stats_spec(&self) -> OperationStats {
        self.stats
    }

    /// The operation counts.
    pub fn stats(&self) -> (r: OperationStats)
        ensures
            r == self.stats_spec(),
    {
        self.stats
    }

    /// A service with no plugin loaded and no operation counted.
    pub fn new() -> (r: PluginHostServiceImpl)
        ensures
            r.host_spec() is None,
            r.stats_spec().total_operations == 0 && r.stats_spec().consistent(),
    {
        PluginHostServiceImpl { stats: OperationStats::new(), host: None }
    }

    /// The loaded plugin with its instances, if a plugin is loaded.
    pub fn host(&self) -> (r: Option<&InstanceManager>)
        ensures
            match r {
                Some(m) => self.host_spec() == Some(*m),
                None => self.host_spec() is None,
            },
    {
        match &self.host {
            Some(m) => Some(m),
            None => None,
        }
    }

    /// Checks that a plugin may be loaded: each plugin host loads one plugin.
    pub fn check_can_load(&self) -> (r: Result<(), PluginHostError>)
        ensures
            self.host_spec() is None ==> r is Ok,
            self.host_spec() is Some ==> (r matches Err(PluginHostError::PluginLoadError(m)) && m@
                == "Plugin host already has a plugin loaded. Each plugin host can only load one plugin."@),
    {
        if self.host.is_some() {
            return Err(
                PluginHostError::PluginLoadError(
                    String::from_str(
                        "Plugin host already has a plugin loaded. Each plugin host can only load one plugin.",
                    ),
                ),
            );
        }
        Ok(())
    }

    /// Takes the outcome of loading the plugin: counts it, and keeps the
    /// plugin (with no instances yet) when it loaded.
    pub fn complete_load(&mut self, loaded: Result<LoadedPlugin, PluginHostError>) -> (r: Result<
        (),
        PluginHostError,
    >)
        requires
            old(self).host_spec() is None,
            old(self).stats_spec().total_operations < u64::MAX,
            old(self).stats_spec().consistent(),
        ensures
            final(self).stats_spec().consistent(),
            final(self).stats_spec().total_operations == old(self).stats_spec().total_operations + 1,
            match loaded {
                Ok(p) => (final(self).host_spec() matches Some(m) && m.plugin_spec() == p
                    && m@.dom() == Set::<u128>::empty()) && r is Ok
                    && final(self).stats_spec().successful_operations == old(self).stats_spec().successful_operations
                    + 1,
                Err(e) => r == Err::<(), PluginHostError>(e) && final(self).host_spec() is None
                    && final(self).stats_spec().failed_operations == old(self).stats_spec().failed_operations + 1,
            },
    {
        self.stats.track(loaded.is_ok());
        match loaded {
            Ok(p) => {
                let m = InstanceManager::new(p);
                proof {
                    assert(m@.dom() =~= Set::<u128>::empty());
                }
                self.host = Some(m);
                Ok(())
            },
            Err(e) => Err(e),
        }
    }

    /// The loaded plugin, when it is the one with the given id; else
    /// `PluginNotFound` (no plugin loaded, or another one).
    pub fn plugin_with_id(&self, plugin_id: u128) -> (r: Result<&LoadedPlugin, PluginHostError>)
        ensures
            match self.host_spec() {
                None => r matches Err(PluginHostError::PluginNotFound(m)) && m@
                    == "No plugin loaded in this plugin host"@,
                Some(h) => if h.plugin_spec().id == plugin_id {
                    r matches Ok(p) && *p == h.plugin_spec()
                } else {
                    r matches Err(PluginHostError::PluginNotFound(m)) && m@
                        == plugin_mismatch_message(plugin_id, h.plugin_spec().id)
                },
            },
    {
        match &self.host {
            None => Err(
                PluginHostError::PluginNotFound(String::from_str("No plugin loaded in this plugin host")),
            ),
            Some(h) => {
                let p = h.plugin();
                if p.id != plugin_id {
                    return Err(
                        PluginHostError::PluginNotFound(
                            String::from_str("Plugin ID mismatch. Expected: ").concat(
                                uuid_text(plugin_id).as_str(),
                            ).concat(", but this host has: ").concat(uuid_text(p.id).as_str()),
                        ),
                    );
                }
                Ok(p)
            },
        }
    }

    /// Validates an engine configuration with the loaded plugin (which must
    /// be the one named); the plugin's answer is counted.
    pub fn validate_engine_config<V: Fn(usize, &str) -> Option<RawValidationResult>>(
        &mut self,
        plugin_id: u128,
        engine_name: &str,
        config: &str,
        validate: V,
    ) -> (r: Result<EngineConfigValidationResult, PluginHostError>)
        requires
            forall|i: usize, c: &str| validate.requires((i, c)),
            old(self).stats_spec().total_operations < u64::MAX,
            old(self).stats_spec().consistent(),
        ensures
            final(self).host_spec() == old(self).host_spec(),
            final(self).stats_spec().consistent(),
            match old(self).host_spec() {
                Some(h) => h.plugin_spec().id == plugin_id ==> old(self).stats_spec().counted(
                    final(self).stats_spec(),
                    r is Ok,
                ) && validation_outcome(h.plugin_spec(), engine_name@, config, validate, r),
                None => true,
            },
            match old(self).host_spec() {
                None => r matches Err(PluginHostError::PluginNotFound(m)) && m@
                    == "No plugin loaded in this plugin host"@ && final(self).stats_spec()
                    == old(self).stats_spec(),
                Some(h) => h.plugin_spec().id != plugin_id ==> (r matches Err(
                    PluginHostError::PluginNotFound(m),
                ) && m@ == plugin_mismatch_message(plugin_id, h.plugin_spec().id)
                    && final(self).stats_spec() == old(self).stats_spec()),
            },
    {
        let res = match self.plugin_with_id(plugin_id) {
            Err(e) => {
                return Err(e);
            },
            Ok(p) => p.validate_engine_config(engine_name, config, validate),
        };
        self.stats.track(res.is_ok());
        res
    }

    fn track_result<T>(&mut self, res: &Result<T, PluginHostError>)
        requires
            old(self).stats_spec().total_operations < u64::MAX,
            old(self).stats_spec().consistent(),
        ensures
            final(self).host_spec() == old(self).host_spec(),
            final(self).stats_spec().consistent(),
            final(self).stats_spec().total_operations == old(self).stats_spec().total_operations + 1,
            res is Ok ==> final(self).stats_spec().successful_operations == old(self).stats_spec().successful_operations + 1,
            res is Err ==> final(self).stats_spec().failed_operations == old(self).stats_spec().failed_operations + 1,
    {
        self.stats.track(res.is_ok());
    }

    /// Creates an engine instance of the loaded plugin (which must be the
    /// one the configuration names); the outcome is counted.
    pub fn create_engine_instance<F: Fn(usize, &str) -> usize>(
        &mut self,
        config: EngineInstanceConfig,
        now_ms: u64,
        create: F,
    ) -> (r: Result<EngineInstance, PluginHostError>)
        requires
            forall|i: usize, c: &str| create.requires((i, c)),
            old(self).stats_spec().total_operations < u64::MAX,
            old(self).stats_spec().consistent(),
        ensures
            final(self).stats_spec().consistent(),
            match old(self).host_spec() {
                None => r matches Err(PluginHostError::PluginNotFound(m)) && m@
                    == "No plugin loaded in this plugin host"@ && final(self).host_spec() is None
                    && final(self).stats_spec() == old(self).stats_spec(),
                Some(h) => if h.plugin_spec().id != config.plugin_id {
                    &&& r matches Err(PluginHostError::PluginNotFound(m)) && m@
                        == plugin_mismatch_message(config.plugin_id, h.plugin_spec().id)
                    &&& final(self).host_spec() == old(self).host_spec()
                    &&& final(self).stats_spec() == old(self).stats_spec()
                } else {
                    &&& old(self).stats_spec().counted(final(self).stats_spec(), r is Ok)
                    &&& final(self).host_spec() matches Some(h2) && h2.plugin_spec() == h.plugin_spec()
                        && create_outcome(h.plugin_spec(), config, now_ms, create, h@, h2@, r)
                },
            },
    {
        match self.plugin_with_id(config.plugin_id) {
            Err(e) => {
                return Err(e);
            },
            Ok(_) => {},
        }
        let mut host = match self.host.take() {
            Some(h) => h,
            None => {
                return Err(
                    PluginHostError::InternalError(String::from_str("Instance manager not initialized")),
                );
            },
        };
        let res = host.create_instance(config, now_ms, create);
        self.host = Some(host);
        self.stats.track(res.is_ok());
        res
    }

    /// Destroys an engine instance; the outcome is counted.
    pub fn destroy_engine_instance<D: Fn(usize)>(&mut self, instance_id: u128, destroy: D) -> (r:
        Result<(), PluginHostError>)
        requires
            forall|h: usize| destroy.requires((h,)),
            old(self).stats_spec().total_operations < u64::MAX,
            old(self).stats_spec().consistent(),
        ensures
            final(self).stats_spec().consistent(),
            match old(self).host_spec() {
                None => r matches Err(PluginHostError::InternalError(m)) && m@
                    == "Instance manager not initialized"@ && final(self).host_spec() is None
                    && final(self).stats_spec() == old(self).stats_spec(),
                Some(h) => {
                    &&& old(self).stats_spec().counted(final(self).stats_spec(), r is Ok)
                    &&& final(self).host_spec() matches Some(h2) && h2.plugin_spec() == h.plugin_spec()
                        && destroy_outcome(instance_id, destroy, h@, h2@, r)
                },
            },
    {
        let mut host = match self.host.take() {
            Some(h) => h,
            None => {
                return Err(
                    PluginHostError::InternalError(String::from_str("Instance manager not initialized")),
                );
            },
        };
        let res = host.destroy_instance(instance_id, destroy);
        self.host = Some(host);
        self.stats.track(res.is_ok());
        res
    }

    /// Re-creates an engine instance; the outcome is counted.
    pub fn recreate_engine_instance<D: Fn(usize), F: Fn(usize, &str) -> usize>(
        &mut self,
        id: u128,
        config: Option<EngineInstanceConfig>,
        now_ms: u64,
        destroy: D,
        create: F,
    ) -> (r: Result<EngineInstance, PluginHostError>)
        requires
            forall|h: usize| destroy.requires((h,)),
            forall|i: usize, c: &str| create.requires((i, c)),
            old(self).stats_spec().total_operations < u64::MAX,
            old(self).stats_spec().consistent(),
        ensures
            final(self).stats_spec().consistent(),
            match old(self).host_spec() {
                None => r matches Err(PluginHostError::InternalError(m)) && m@
                    == "Instance manager not initialized"@ && final(self).host_spec() is None
                    && final(self).stats_spec() == old(self).stats_spec(),
                Some(h) => {
                    &&& old(self).stats_spec().counted(final(self).stats_spec(), r is Ok)
                    &&& final(self).host_spec() matches Some(h2) && h2.plugin_spec() == h.plugin_spec()
                        && recreate_outcome(id, config, now_ms, h.plugin_spec(), destroy, create, h@, h2@, r)
                },
            },
    {
        let mut host = match self.host.take() {
            Some(h) => h,
            None => {
                return Err(
                    PluginHostError::InternalError(String::from_str("Instance manager not initialized")),
                );
            },
        };
        let res = host.recreate_instance(id, config, now_ms, destroy, create);
        self.host = Some(host);
        self.stats.track(res.is_ok());
        res
    }

    /// Preloads an engine instance; the outcome is counted.
    pub fn preload<P: Fn(usize, i32) -> UpsclrErrorCode>(
        &mut self,
        id: u128,
        params: PreloadParams,
        preload: P,
    ) -> (r: Result<(), PluginHostError>)
        requires
            forall|h: usize, s: i32| preload.requires((h, s)),
            old(self).stats_spec().total_operations < u64::MAX,
            old(self).stats_spec().consistent(),
        ensures
            final(self).host_spec() == old(self).host_spec(),
            final(self).stats_spec().consistent(),
            old(self).host_spec() is None ==> (r matches Err(PluginHostError::InternalError(m)) && m@
                == "Instance manager not initialized"@) && final(self).stats_spec() == old(self).stats_spec(),
            old(self).host_spec() matches Some(h) ==> {
                &&& old(self).stats_spec().counted(final(self).stats_spec(), r is Ok)
                &&& !h@.contains_key(id) ==> r == Err::<(), PluginHostError>(
                    PluginHostError::EngineInstanceNotFound(id),
                )
                &&& h@.contains_key(id) ==> exists|code: UpsclrErrorCode|
                    #[trigger] call_ensures(preload, (h@[id].1, preload_scale(params)), code) && if code
                        == UpsclrErrorCode::Success {
                        r is Ok
                    } else {
                        r matches Err(PluginHostError::OperationFailed(m)) && m@
                            == "Preload operation failed with error code: "@ + code.debug_name()
                    }
            },
    {
        let res = match &self.host {
            Some(h) => h.preload(id, params, preload),
            None => {
                return Err(
                    PluginHostError::InternalError(String::from_str("Instance manager not initialized")),
                );
            },
        };
        self.stats.track(res.is_ok());
        res
    }

    /// Upscales an image with an engine instance; the outcome is counted.
    pub fn upscale<U: Fn(&UpscaleCall, &[u8], &mut [u8]) -> (UpsclrErrorCode, u64)>(
        &mut self,
        id: u128,
        params: UpscaleParams,
        upscale: U,
    ) -> (r: Result<UpscaleResult, PluginHostError>)
        requires
            forall|c: &UpscaleCall, d: &[u8], b: &mut [u8]| upscale.requires((c, d, b)),
            forall|c: &UpscaleCall, d: &[u8], b: &mut [u8], o: (UpsclrErrorCode, u64)|
                #[trigger] upscale.ensures((c, d, b), o) ==> final(b)@.len() == b@.len(),
            params.input_width * params.scale <= u32::MAX,
            params.input_height * params.scale <= u32::MAX,
            params.input_width * params.scale * (params.input_height * params.scale) <= u32::MAX,
            params.input_width * params.scale * (params.input_height * params.scale)
                * params.channels <= u32::MAX,
            old(self).stats_spec().total_operations < u64::MAX,
            old(self).stats_spec().consistent(),
        ensures
            final(self).host_spec() == old(self).host_spec(),
            final(self).stats_spec().consistent(),
            old(self).host_spec() is None ==> (r matches Err(PluginHostError::InternalError(m)) && m@
                == "Instance manager not initialized"@) && final(self).stats_spec() == old(self).stats_spec(),
            old(self).host_spec() matches Some(h) ==> {
                &&& old(self).stats_spec().counted(final(self).stats_spec(), r is Ok)
                &&& !h@.contains_key(id) ==> r == Err::<UpscaleResult, PluginHostError>(
                    PluginHostError::EngineInstanceNotFound(id),
                )
                &&& h@.contains_key(id) ==> exists|
                    call: UpscaleCall,
                    d: &[u8],
                    b: &mut [u8],
                    out: (UpsclrErrorCode, u64),
                |
                    d@ == params.input_data@ && b@ == Seq::new(call.output_size as nat, |i: int| 0u8)
                        && #[trigger] call_ensures(upscale, (&call, d, b), out)
                        && upscale_answer(r, call, out, final(b)@, h@[id].1, params)
                &&& r matches Ok(res) ==> res.output_data@.len() == params.input_width * params.scale
                    * (params.input_height * params.scale) * params.channels
            },
    {
        let res = match &self.host {
            Some(h) => h.upscale(id, params, upscale),
            None => {
                return Err(
                    PluginHostError::InternalError(String::from_str("Instance manager not initialized")),
                );
            },
        };
        self.stats.track(res.is_ok());
        res
    }

    /// Destroys every engine instance (through `destroy`) before the plugin
    /// host exits.
    pub fn exit_cleanup<D: Fn(usize)>(&mut self, destroy: D)
        requires
            forall|h: usize| destroy.requires((h,)),
        ensures
            final(self).stats_spec() == old(self).stats_spec(),
            match (old(self).host_spec(), final(self).host_spec()) {
                (Some(a), Some(b)) => b.plugin_spec() == a.plugin_spec() && b@.dom() == Set::<u128>::empty()
                    && forall|id: u128| #[trigger] a@.contains_key(id) ==> call_ensures(destroy, (a@[id].1,), ()),
                (None, None) => true,
                _ => false,
            },
    {
        match self.host.take() {
            Some(mut h) => {
                h.cleanup(destroy);
                proof {
                    assert(h@.dom() =~= Set::<u128>::empty());
                }
                self.host = Some(h);
            },
            None => {},
        }
    }

    /// The plugin host's status at clock reading `now_ms`: the counts, and
    /// the loaded plugin (if any) with its current instances and their ages.
    #[verifier::spinoff_prover]
    pub fn get_status(&self, process_id: u32, uptime_ms: u64, now_ms: u64) -> (r: PluginHostStatus)
        ensures
            r.process_id == process_id,
            r.uptime_ms == uptime_ms,
            r.total_operations == self.stats_spec().total_operations,
            r.successful_operations == self.stats_spec().successful_operations,
            r.failed_operations == self.stats_spec().failed_operations,
            r.memory_usage_bytes == 0,
            match self.host_spec() {
                None => r.loaded_plugins@.len() == 0,
                Some(h) => r.loaded_plugins@.len() == 1 && host_info_view(r.loaded_plugins@[0])
                    == host_info_view(h.plugin_spec().plugin_info) && {
                    let insts = r.loaded_plugins@[0].engine_instances@;
                    &&& forall|k: int| 0 <= k < insts.len() ==> {
                        let id = (#[trigger] insts[k]).config.instance_id;
                        &&& h@.contains_key(id)
                        &&& config_view(insts[k].config) == h@[id].2
                        &&& insts[k].uptime_ms == (if now_ms >= h@[id].3 { now_ms - h@[id].3 } else { 0 })
                    }
                    &&& forall|id: u128| #[trigger] h@.contains_key(id) ==> exists|k: int|
                        0 <= k < insts.len() && (#[trigger] insts[k]).config.instance_id == id
                    &&& forall|a: int, b: int|
                        0 <= a < insts.len() && 0 <= b < insts.len() && a != b ==> (#[trigger] insts[a]).config.instance_id
                            != (#[trigger] insts[b]).config.instance_id
                },
            },
    {
        let loaded_plugins = match &self.host {
            None => Vec::new(),
            Some(h) => {
                let p = h.plugin();
                let mut info = copy_host_info(&p.plugin_info);
                let all = h.get_all_instances(now_ms);
                let ghost all_v = all@;
                info.engine_instances = all;
                let mut v = Vec::new();
                v.push(info);
                proof {
                    assert(v@[0].engine_instances@ == all_v);
                    assert(host_info_view(v@[0]) == host_info_view(h.plugin_spec().plugin_info));
                    assert(forall|id: u128| #[trigger] h@.contains_key(id) ==> exists|k: int|
                        0 <= k < all_v.len() && (#[trigger] all_v[k]).config.instance_id == id);
                }
                v
            },
        };
        PluginHostStatus {
            process_id,
            uptime_ms,
            total_operations: self.stats.total_operations,
            successful_operations: self.stats.successful_operations,
            failed_operations: self.stats.failed_operations,
            memory_usage_bytes: 0,
            loaded_plugins,
        }
    }
}

} // verus!
