//! The engine instances of the plugin loaded in a plugin host, keyed by the
//! UUID the main process gave each.
//!
//! Calls into the plugin (create, destroy, preload, upscale) are handed in
//! as functions; times are handed in as millisecond readings of a monotonic
//! clock.
use crate::instance_manager::{c_string_problem, c_string_problem_text};
use crate::models::{
    ColorFormat, EngineInstance, EngineInstanceConfig, PluginHostError, PreloadParams,
    UpscaleParams, UpscaleResult,
};
use crate::plugin_host::plugin::{host_engine_named, LoadedPlugin};
use crate::plugin_host::plugin_ffi::{UpsclrColorFormat, UpsclrErrorCode};
use vstd::prelude::*;
use vstd::string::*;

verus! {

/// An engine instance the plugin created.
pub struct ActiveInstance {
    pub instance_id: u128,
    /// Address of the plugin's opaque instance; never zero.
    pub instance_handle: usize,
    pub config: EngineInstanceConfig,
    /// Clock reading, in milliseconds, when the instance was created.
    pub created_at_ms: u64,
}

/// Plain view of an instance configuration: instance id, plugin id, engine
/// name, configuration text.
pub open spec fn config_view(c: EngineInstanceConfig) -> (u128, u128, Seq<char>, Seq<char>) {
    (c.instance_id, c.plugin_id, c.engine_name@, c.engine_config@)
}

/// Plain view of an active instance: id, address, configuration, creation time.
pub open spec fn active_view(a: ActiveInstance) -> (u128, usize, (u128, u128, Seq<char>, Seq<char>), u64) {
    (a.instance_id, a.instance_handle, config_view(a.config), a.created_at_ms)
}

/// A copy of an instance configuration.
pub fn copy_config(c: &EngineInstanceConfig) -> (r: EngineInstanceConfig)
    ensures
        config_view(r) == config_view(*c),
{
    EngineInstanceConfig {
        instance_id: c.instance_id,
        plugin_id: c.plugin_id,
        engine_name: c.engine_name.clone(),
        engine_config: c.engine_config.clone(),
    }
}

/// No two instances share an id.
pub open spec fn host_ids_unique(s: Seq<ActiveInstance>) -> bool {
    forall|i: int, j: int|
        0 <= i < s.len() && 0 <= j < s.len() && i != j ==> #[trigger] s[i].instance_id
            != #[trigger] s[j].instance_id
}

/// Every instance has a non-zero address.
pub open spec fn host_handles_live(s: Seq<ActiveInstance>) -> bool {
    forall|i: int| 0 <= i < s.len() ==> (#[trigger] s[i]).instance_handle != 0
}

/// Every instance is registered under its configuration's instance id.
pub open spec fn host_ids_consistent(s: Seq<ActiveInstance>) -> bool {
    forall|i: int| 0 <= i < s.len() ==> (#[trigger] s[i]).config.instance_id == s[i].instance_id
}

/// Whether some instance of the sequence has the id.
pub open spec fn host_has_id(s: Seq<ActiveInstance>, id: u128) -> bool {
    exists|i: int| 0 <= i < s.len() && (#[trigger] s[i]).instance_id == id
}

/// The instances keyed by id.
pub open spec fn host_map(s: Seq<ActiveInstance>) -> Map<u128, (u128, usize, (u128, u128, Seq<char>, Seq<char>), u64)> {
    Map::new(
        |id: u128| host_has_id(s, id),
        |id: u128| active_view(s[choose|i: int| 0 <= i < s.len() && (#[trigger] s[i]).instance_id == id]),
    )
}

proof fn lemma_host_map_at(s: Seq<ActiveInstance>, i: int)
    requires
        host_ids_unique(s),
        0 <= i < s.len(),
    ensures
        host_map(s).contains_key(s[i].instance_id),
        host_map(s)[s[i].instance_id] == active_view(s[i]),
{
    let id = s[i].instance_id;
    assert(host_has_id(s, id));
    let j = choose|j: int| 0 <= j < s.len() && (#[trigger] s[j]).instance_id == id;
    assert(j == i);
}

proof fn lemma_host_map_push(s: Seq<ActiveInstance>, x: ActiveInstance)
    requires
        host_ids_unique(s),
        !host_has_id(s, x.instance_id),
    ensures
        host_ids_unique(s.push(x)),
        host_map(s.push(x)) == host_map(s).insert(x.instance_id, active_view(x)),
{
    let t = s.push(x);
    assert forall|i: int, j: int|
        0 <= i < t.len() && 0 <= j < t.len() && i != j implies #[trigger] t[i].instance_id
        != #[trigger] t[j].instance_id by {
        if i < s.len() && j < s.len() {
            assert(t[i] == s[i] && t[j] == s[j]);
        } else if i < s.len() {
            assert(t[i] == s[i]);
        } else {
            assert(t[j] == s[j]);
        }
    }
    let m = host_map(s).insert(x.instance_id, active_view(x));
    assert forall|id: u128| #[trigger] host_map(t).contains_key(id) == m.contains_key(id) by {
        if host_has_id(t, id) {
            let i = choose|i: int| 0 <= i < t.len() && (#[trigger] t[i]).instance_id == id;
            if i < s.len() {
                assert(t[i] == s[i]);
                assert(host_has_id(s, id));
            }
        }
        if host_has_id(s, id) {
            let i = choose|i: int| 0 <= i < s.len() && (#[trigger] s[i]).instance_id == id;
            assert(t[i] == s[i]);
            assert(host_has_id(t, id));
        }
        if id == x.instance_id {
            assert(t[s.len() as int] == x);
            assert(host_has_id(t, id));
        }
    }
    assert forall|id: u128| #[trigger] host_map(t).contains_key(id) implies host_map(t)[id]
        == m[id] by {
        let i = choose|i: int| 0 <= i < t.len() && (#[trigger] t[i]).instance_id == id;
        lemma_host_map_at(t, i);
        if i < s.len() {
            assert(t[i] == s[i]);
            lemma_host_map_at(s, i);
        } else {
            assert(t[i] == x);
        }
    }
    assert(host_map(t) =~= m);
}

proof fn lemma_host_map_remove(s: Seq<ActiveInstance>, i: int)
    requires
        host_ids_unique(s),
        0 <= i < s.len(),
    ensures
        host_ids_unique(s.remove(i)),
        host_handles_live(s) ==> host_handles_live(s.remove(i)),
        host_ids_consistent(s) ==> host_ids_consistent(s.remove(i)),
        host_map(s.remove(i)) == host_map(s).remove(s[i].instance_id),
{
    let t = s.remove(i);
    let x = s[i];
    assert forall|a: int, b: int|
        0 <= a < t.len() && 0 <= b < t.len() && a != b implies #[trigger] t[a].instance_id
        != #[trigger] t[b].instance_id by {
        let a1 = if a < i { a } else { a + 1 };
        let b1 = if b < i { b } else { b + 1 };
        assert(t[a] == s[a1] && t[b] == s[b1]);
    }
    if host_handles_live(s) {
        assert forall|a: int| 0 <= a < t.len() implies (#[trigger] t[a]).instance_handle != 0 by {
            let a1 = if a < i { a } else { a + 1 };
            assert(t[a] == s[a1]);
        }
    }
    if host_ids_consistent(s) {
        assert forall|a: int| 0 <= a < t.len() implies (#[trigger] t[a]).config.instance_id == t[a].instance_id by {
            let a1 = if a < i { a } else { a + 1 };
            assert(t[a] == s[a1]);
        }
    }
    let m = host_map(s).remove(x.instance_id);
    assert forall|id: u128| #[trigger] host_map(t).contains_key(id) == m.contains_key(id) by {
        if host_has_id(t, id) {
            let a = choose|a: int| 0 <= a < t.len() && (#[trigger] t[a]).instance_id == id;
            let a1 = if a < i { a } else { a + 1 };
            assert(t[a] == s[a1]);
            assert(host_has_id(s, id));
        }
        if host_has_id(s, id) && id != x.instance_id {
            let a = choose|a: int| 0 <= a < s.len() && (#[trigger] s[a]).instance_id == id;
            assert(a != i);
            let a1 = if a < i { a } else { a - 1 };
            assert(t[a1] == s[a]);
            assert(host_has_id(t, id));
        }
    }
    assert forall|id: u128| #[trigger] host_map(t).contains_key(id) implies host_map(t)[id]
        == m[id] by {
        let a = choose|a: int| 0 <= a < t.len() && (#[trigger] t[a]).instance_id == id;
        lemma_host_map_at(t, a);
        let a1 = if a < i { a } else { a + 1 };
        assert(t[a] == s[a1]);
        lemma_host_map_at(s, a1);
    }
    assert(host_map(t) =~= m);
}

/// What creating an instance answers once the plugin has given address
/// `h` (zero for NULL), with the registry before and after.
pub open spec fn host_create_answer(
    r: Result<EngineInstance, PluginHostError>,
    h: usize,
    config: EngineInstanceConfig,
    now_ms: u64,
    before: Map<u128, (u128, usize, (u128, u128, Seq<char>, Seq<char>), u64)>,
    after: Map<u128, (u128, usize, (u128, u128, Seq<char>, Seq<char>), u64)>,
) -> bool {
    match r {
        Ok(inst) => {
            let id = config.instance_id;
            &&& h != 0
            &&& config_view(inst.config) == config_view(config)
            &&& inst.uptime_ms == 0
            &&& after == before.insert(id, (id, h, config_view(config), now_ms))
        },
        Err(PluginHostError::EngineCreationFailed(m)) => h == 0 && m@
            == "Plugin returned NULL pointer for engine instance"@ && after == before,
        Err(_) => false,
    }
}

/// What re-creating instance `id` with configuration `c` answers, given the
/// plugin and the registry before and after: the old instance is gone and
/// the outcome is that of creating an instance with `c`.
pub open spec fn recreated<F: Fn(usize, &str) -> usize>(
    r: Result<EngineInstance, PluginHostError>,
    c: EngineInstanceConfig,
    id: u128,
    now_ms: u64,
    plugin: LoadedPlugin,
    before: Map<u128, (u128, usize, (u128, u128, Seq<char>, Seq<char>), u64)>,
    after: Map<u128, (u128, usize, (u128, u128, Seq<char>, Seq<char>), u64)>,
    create: F,
) -> bool {
    let mid = before.remove(id);
    match host_engine_named(plugin.plugin_info.supported_engines@, c.engine_name@) {
        None => r matches Err(PluginHostError::EngineNotFound(m)) && m@ == c.engine_name@ && after == mid,
        Some(index) => match c_string_problem(c.engine_config@) {
            Some(p) => r matches Err(PluginHostError::InvalidParameter(m)) && m@ == "Invalid config JSON: "@
                + p && after == mid,
            None => exists|h: usize, s: &str|
                s@ == c.engine_config@ && #[trigger] call_ensures(create, (index as usize, s), h)
                    && host_create_answer(r, h, c, now_ms, mid, after),
        },
    }
}

/// What creating an instance with `config` answers, with the plugin and
/// the registry before and after: the engine must exist
/// (`EngineNotFound`), the configuration must be a C string
/// (`InvalidParameter`), and then the plugin's answer decides.
pub open spec fn create_outcome<F: Fn(usize, &str) -> usize>(
    plugin: LoadedPlugin,
    config: EngineInstanceConfig,
    now_ms: u64,
    create: F,
    before: Map<u128, (u128, usize, (u128, u128, Seq<char>, Seq<char>), u64)>,
    after: Map<u128, (u128, usize, (u128, u128, Seq<char>, Seq<char>), u64)>,
    r: Result<EngineInstance, PluginHostError>,
) -> bool {
    match host_engine_named(plugin.plugin_info.supported_engines@, config.engine_name@) {
        None => r matches Err(PluginHostError::EngineNotFound(m)) && m@ == config.engine_name@
            && after == before,
        Some(index) => match c_string_problem(config.engine_config@) {
            Some(p) => r matches Err(PluginHostError::InvalidParameter(m)) && m@
                == "Invalid config JSON: "@ + p && after == before,
            None => exists|h: usize, c: &str|
                c@ == config.engine_config@ && #[trigger] call_ensures(create, (index as usize, c), h)
                    && host_create_answer(r, h, config, now_ms, before, after),
        },
    }
}

/// What destroying instance `id` answers, with the registry before and
/// after: a known instance is destroyed (through `destroy`) and removed.
pub open spec fn destroy_outcome<D: Fn(usize)>(
    id: u128,
    destroy: D,
    before: Map<u128, (u128, usize, (u128, u128, Seq<char>, Seq<char>), u64)>,
    after: Map<u128, (u128, usize, (u128, u128, Seq<char>, Seq<char>), u64)>,
    r: Result<(), PluginHostError>,
) -> bool {
    &&& before.contains_key(id) ==> r is Ok && after == before.remove(id) && call_ensures(
        destroy,
        (before[id].1,),
        (),
    )
    &&& !before.contains_key(id) ==> r == Err::<(), PluginHostError>(
        PluginHostError::EngineInstanceNotFound(id),
    ) && after == before
}

/// What re-creating instance `id` answers (with the given configuration,
/// or else its own), with the plugin and the registry before and after:
/// the old engine is handed to `destroy`, then a new one is created.
pub open spec fn recreate_outcome<D: Fn(usize), F: Fn(usize, &str) -> usize>(
    id: u128,
    config: Option<EngineInstanceConfig>,
    now_ms: u64,
    plugin: LoadedPlugin,
    destroy: D,
    create: F,
    before: Map<u128, (u128, usize, (u128, u128, Seq<char>, Seq<char>), u64)>,
    after: Map<u128, (u128, usize, (u128, u128, Seq<char>, Seq<char>), u64)>,
    r: Result<EngineInstance, PluginHostError>,
) -> bool {
    &&& !before.contains_key(id) ==> r == Err::<EngineInstance, PluginHostError>(
        PluginHostError::EngineInstanceNotFound(id),
    ) && after == before
    &&& before.contains_key(id) ==> call_ensures(destroy, (before[id].1,), ())
    &&& before.contains_key(id) ==> exists|c: EngineInstanceConfig|
        #[trigger] config_view(c) == (match config {
            Some(given) => config_view(given),
            None => before[id].2,
        }) && recreated(r, c, id, now_ms, plugin, before, after, create)
}

/// What an upscale answers once the plugin has answered `out` to `call`,
/// for the instance at address `handle`.
pub open spec fn upscale_answer(
    r: Result<UpscaleResult, PluginHostError>,
    call: UpscaleCall,
    out: (UpsclrErrorCode, u64),
    written: Seq<u8>,
    handle: usize,
    params: UpscaleParams,
) -> bool {
    let w = params.input_width * params.scale;
    let h = params.input_height * params.scale;
    &&& call.instance_handle == handle
    &&& call.scale == params.scale as i32
    &&& call.input_width == params.input_width
    &&& call.input_height == params.input_height
    &&& call.channels == params.channels
    &&& call.input_color_format == plugin_color(params.input_color_format)
    &&& call.output_size == w * h * params.channels
    &&& call.output_color_format == plugin_color(params.desired_color_format)
    &&& if out.0 == UpsclrErrorCode::Success {
        r matches Ok(res) && res.processing_time_us == out.1 && res.output_width == w
            && res.output_height == h && res.channels == params.channels
            && res.output_color_format == params.desired_color_format && res.output_data@ == written
    } else {
        r matches Err(PluginHostError::OperationFailed(m)) && m@
            == "Upscale operation failed with error code: "@ + out.0.debug_name()
    }
}

/// The instances of the plugin loaded in this plugin host.
pub struct InstanceManager {
    plugin: LoadedPlugin,
    instances: Vec<ActiveInstance>,
}

impl View for InstanceManager {
    type V = Map<u128, (u128, usize, (u128, u128, Seq<char>, Seq<char>), u64)>;

    closed spec fn view(&self) -> Self::V {
        host_map(self.instances@)
    }
}

/// The plugin's colour format for a host colour format.
pub open spec fn plugin_color(c: ColorFormat) -> UpsclrColorFormat {
    match c {
        ColorFormat::Rgb => UpsclrColorFormat::Rgb,
        ColorFormat::Bgr => UpsclrColorFormat::Bgr,
    }
}

fn to_plugin_color(c: ColorFormat) -> (r: UpsclrColorFormat)
    ensures
        r == plugin_color(c),
{
    match c {
        ColorFormat::Rgb => UpsclrColorFormat::Rgb,
        ColorFormat::Bgr => UpsclrColorFormat::Bgr,
    }
}

/// What an upscale asks the plugin to do.
pub struct UpscaleCall {
    pub instance_handle: usize,
    pub scale: i32,
    pub input_width: u32,
    pub input_height: u32,
    pub channels: u32,
    pub input_color_format: UpsclrColorFormat,
    /// Size, in bytes, of the output buffer handed to the plugin.
    pub output_size: usize,
    pub output_color_format: UpsclrColorFormat,
}

/// The scale a preload asks the plugin for: the larger dimension.
pub open spec fn preload_scale(p: PreloadParams) -> i32 {
    (if p.width >= p.height { p.width } else { p.height }) as i32
}

impl InstanceManager {
    #[verifier::type_invariant]
    spec fn well_formed(self) -> bool {
        host_ids_unique(self.instances@) && host_handles_live(self.instances@) && host_ids_consistent(
            self.instances@,
        )
    }

    /// The plugin whose instances these are.
    pub closed spec fn plugin_spec(&self) -> LoadedPlugin {
        self.plugin
    }

    /// A manager of no instances yet for the plugin.
    pub fn new(plugin: LoadedPlugin) -> (r: InstanceManager)
        ensures
            r@ == Map::<u128, (u128, usize, (u128, u128, Seq<char>, Seq<char>), u64)>::empty(),
            r.plugin_spec() == plugin,
    {
        let r = InstanceManager { plugin, instances: Vec::new() };
        assert(host_map(r.instances@) =~= Map::<
            u128,
            (u128, usize, (u128, u128, Seq<char>, Seq<char>), u64),
        >::empty());
        r
    }

    /// The plugin whose instances these are.
    pub fn plugin(&self) -> (r: &LoadedPlugin)
        ensures
            *r == self.plugin_spec(),
    {
        &self.plugin
    }

    fn position_of(&self, id: u128) -> (r: Option<usize>)
        ensures
            match r {
                Some(i) => i < self.instances@.len() && self.instances@[i as int].instance_id == id,
                None => !host_has_id(self.instances@, id),
            },
    {
        let n = self.instances.len();
        let mut i: usize = 0;
        while i < n
            invariant
                n == self.instances@.len(),
                0 <= i <= n,
                forall|k: int| 0 <= k < i ==> (#[trigger] self.instances@[k]).instance_id != id,
            decreases n - i,
        {
            if self.instances[i].instance_id == id {
                return Some(i);
            }
            i = i + 1;
        }
        None
    }

    /// The instance with the given id.
    pub fn get_instance(&self, id: u128) -> (r: Option<&ActiveInstance>)
        ensures
            match r {
                Some(inst) => self@.contains_key(id) && self@[id] == active_view(*inst),
                None => !self@.contains_key(id),
            },
    {
        proof {
            use_type_invariant(self);
        }
        match self.position_of(id) {
            Some(i) => {
                proof {
                    lemma_host_map_at(self.instances@, i as int);
                }
                Some(&self.instances[i])
            },
            None => None,
        }
    }

    /// Creates an instance of the engine named in the configuration,
    /// through `create`, under the configuration's instance id (replacing
    /// any instance registered under it). Fails with `EngineNotFound`,
    /// `InvalidParameter` (the configuration is not a C string) or
    /// `EngineCreationFailed` (the plugin returned NULL).
    pub fn create_instance<F: Fn(usize, &str) -> usize>(
        &mut self,
        config: EngineInstanceConfig,
        now_ms: u64,
        create: F,
    ) -> (r: Result<EngineInstance, PluginHostError>)
        requires
            forall|i: usize, c: &str| create.requires((i, c)),
        ensures
            final(self).plugin_spec() == old(self).plugin_spec(),
            create_outcome(old(self).plugin_spec(), config, now_ms, create, old(self)@, final(self)@, r),
    {
        proof {
            use_type_invariant(&*self);
        }
        let index = match self.plugin.find_engine_index(config.engine_name.as_str()) {
            Some(i) => i,
            None => {
                return Err(PluginHostError::EngineNotFound(config.engine_name.clone()));
            },
        };
        match c_string_problem_text(config.engine_config.as_str()) {
            Some(p) => {
                return Err(
                    PluginHostError::InvalidParameter(
                        String::from_str("Invalid config JSON: ").concat(p.as_str()),
                    ),
                );
            },
            None => {},
        }
        let cs = config.engine_config.as_str();
        let handle = create(index, cs);
        let ghost gidx = host_engine_named(
            self.plugin.plugin_info.supported_engines@,
            config.engine_name@,
        )->0;
        let ghost before = self@;
        proof {
            assert(gidx as usize == index);
            assert(cs@ == config.engine_config@);
            assert(call_ensures(create, (gidx as usize, cs), handle));
        }
        if handle == 0 {
            let res = Err(
                PluginHostError::EngineCreationFailed(
                    String::from_str("Plugin returned NULL pointer for engine instance"),
                ),
            );
            proof {
                assert(host_create_answer(res, handle, config, now_ms, before, self@));
            }
            return res;
        }
        let returned = copy_config(&config);
        let inst = ActiveInstance {
            instance_id: config.instance_id,
            instance_handle: handle,
            config,
            created_at_ms: now_ms,
        };
        self.register(inst);
        let res = Ok(EngineInstance { config: returned, uptime_ms: 0 });
        proof {
            assert(host_create_answer(res, handle, config, now_ms, before, self@));
        }
        res
    }

    fn register(&mut self, inst: ActiveInstance)
        requires
            inst.instance_handle != 0,
            inst.config.instance_id == inst.instance_id,
        ensures
            final(self)@ == old(self)@.insert(inst.instance_id, active_view(inst)),
            final(self).plugin_spec() == old(self).plugin_spec(),
    {
        proof {
            use_type_invariant(&*self);
        }
        let ghost s0 = self.instances@;
        let pos = self.position_of(inst.instance_id);
        let mut v: Vec<ActiveInstance> = Vec::new();
        std::mem::swap(&mut v, &mut self.instances);
        match pos {
            Some(i) => {
                proof {
                    lemma_host_map_at(s0, i as int);
                    lemma_host_map_remove(s0, i as int);
                }
                let _ = v.remove(i);
            },
            None => {},
        }
        let ghost s1 = v@;
        proof {
            assert(!host_has_id(s1, inst.instance_id)) by {
                if host_has_id(s1, inst.instance_id) {
                    let k = choose|k: int| 0 <= k < s1.len() && (#[trigger] s1[k]).instance_id == inst.instance_id;
                    lemma_host_map_at(s1, k);
                }
            }
            lemma_host_map_push(s1, inst);
            assert(host_handles_live(s1.push(inst))) by {
                assert forall|k: int| 0 <= k < s1.len() + 1 implies (#[trigger] s1.push(
                    inst,
                )[k]).instance_handle != 0 by {
                    if k < s1.len() {
                        assert(s1.push(inst)[k] == s1[k]);
                    }
                }
            }
            assert(host_ids_consistent(s1.push(inst))) by {
                assert forall|k: int| 0 <= k < s1.len() + 1 implies (#[trigger] s1.push(
                    inst,
                )[k]).config.instance_id == s1.push(inst)[k].instance_id by {
                    if k < s1.len() {
                        assert(s1.push(inst)[k] == s1[k]);
                    }
                }
            }
            assert(host_map(s1).insert(inst.instance_id, active_view(inst)) =~= host_map(s0).insert(
                inst.instance_id,
                active_view(inst),
            ));
        }
        v.push(inst);
        self.instances = v;
    }

    /// Destroys the instance with the given id through `destroy` and
    /// unregisters it; `EngineInstanceNotFound` when there is none.
    pub fn destroy_instance<D: Fn(usize)>(&mut self, id: u128, destroy: D) -> (r: Result<
        (),
        PluginHostError,
    >)
        requires
            forall|h: usize| destroy.requires((h,)),
        ensures
            final(self).plugin_spec() == old(self).plugin_spec(),
            destroy_outcome(id, destroy, old(self)@, final(self)@, r),
    {
        proof {
            use_type_invariant(&*self);
        }
        let ghost s0 = self.instances@;
        match self.position_of(id) {
            Some(i) => {
                proof {
                    lemma_host_map_at(s0, i as int);
                    lemma_host_map_remove(s0, i as int);
                }
                let mut v: Vec<ActiveInstance> = Vec::new();
                std::mem::swap(&mut v, &mut self.instances);
                let inst = v.remove(i);
                self.instances = v;
                destroy(inst.instance_handle);
                Ok(())
            },
            None => Err(PluginHostError::EngineInstanceNotFound(id)),
        }
    }

    /// The ids of all instances, each once, in no particular order.
    pub fn get_instance_ids(&self) -> (r: Vec<u128>)
        ensures
            forall|k: int| 0 <= k < r@.len() ==> self@.contains_key(#[trigger] r@[k]),
            forall|id: u128| #[trigger] self@.contains_key(id) ==> r@.contains(id),
            forall|a: int, b: int| 0 <= a < r@.len() && 0 <= b < r@.len() && a != b ==> r@[a] != r@[b],
    {
        proof {
            use_type_invariant(self);
        }
        let ghost s = self.instances@;
        let n = self.instances.len();
        let mut out: Vec<u128> = Vec::new();
        let mut i: usize = 0;
        while i < n
            invariant
                s == self.instances@,
                host_ids_unique(s),
                n == s.len(),
                0 <= i <= n,
                out@.len() == i,
                forall|k: int| 0 <= k < i ==> #[trigger] out@[k] == s[k].instance_id,
            decreases n - i,
        {
            out.push(self.instances[i].instance_id);
            i = i + 1;
        }
        proof {
            assert forall|k: int| 0 <= k < out@.len() implies self@.contains_key(#[trigger] out@[k]) by {
                lemma_host_map_at(s, k);
            }
            assert forall|id: u128| #[trigger] self@.contains_key(id) implies out@.contains(id) by {
                let k = choose|k: int| 0 <= k < s.len() && (#[trigger] s[k]).instance_id == id;
                assert(out@[k] == id);
            }
            assert forall|a: int, b: int| 0 <= a < out@.len() && 0 <= b < out@.len() && a != b implies out@[a] != out@[b] by {
                assert(s[a].instance_id != s[b].instance_id);
            }
        }
        out
    }

    /// Every instance with its configuration and age at clock reading
    /// `now_ms` (zero should the clock read earlier than the creation).
    pub fn get_all_instances(&self, now_ms: u64) -> (r: Vec<EngineInstance>)
        ensures
            forall|k: int| 0 <= k < r@.len() ==> {
                let id = (#[trigger] r@[k]).config.instance_id;
                &&& self@.contains_key(id)
                &&& config_view(r@[k].config) == self@[id].2
                &&& r@[k].uptime_ms == (if now_ms >= self@[id].3 { now_ms - self@[id].3 } else { 0 })
            },
            forall|id: u128| #[trigger] self@.contains_key(id) ==> exists|k: int|
                0 <= k < r@.len() && (#[trigger] r@[k]).config.instance_id == id,
            forall|a: int, b: int|
                0 <= a < r@.len() && 0 <= b < r@.len() && a != b ==> (#[trigger] r@[a]).config.instance_id
                    != (#[trigger] r@[b]).config.instance_id,
    {
        proof {
            use_type_invariant(self);
        }
        let ghost s = self.instances@;
        let n = self.instances.len();
        let mut out: Vec<EngineInstance> = Vec::new();
        let mut i: usize = 0;
        while i < n
            invariant
                s == self.instances@,
                host_ids_unique(s),
                host_ids_consistent(s),
                n == s.len(),
                0 <= i <= n,
                out@.len() == i,
                forall|k: int| 0 <= k < i ==> {
                    &&& (#[trigger] out@[k]).config.instance_id == s[k].instance_id
                    &&& config_view(out@[k].config) == config_view(s[k].config)
                    &&& out@[k].uptime_ms == (if now_ms >= s[k].created_at_ms { now_ms - s[k].created_at_ms } else { 0 })
                },
            decreases n - i,
        {
            let inst = &self.instances[i];
            let uptime = if now_ms >= inst.created_at_ms {
                now_ms - inst.created_at_ms
            } else {
                0
            };
            out.push(EngineInstance { config: copy_config(&inst.config), uptime_ms: uptime });
            i = i + 1;
        }
        proof {
            assert forall|k: int| 0 <= k < out@.len() implies {
                let id = (#[trigger] out@[k]).config.instance_id;
                &&& self@.contains_key(id)
                &&& config_view(out@[k].config) == self@[id].2
                &&& out@[k].uptime_ms == (if now_ms >= self@[id].3 { now_ms - self@[id].3 } else { 0 })
            } by {
                lemma_host_map_at(s, k);
            }
            assert forall|id: u128| #[trigger] self@.contains_key(id) implies exists|k: int|
                0 <= k < out@.len() && (#[trigger] out@[k]).config.instance_id == id by {
                let k = choose|k: int| 0 <= k < s.len() && (#[trigger] s[k]).instance_id == id;
                assert(out@[k].config.instance_id == id);
            }
            assert forall|a: int, b: int|
                0 <= a < out@.len() && 0 <= b < out@.len() && a != b implies (#[trigger] out@[a]).config.instance_id
                    != (#[trigger] out@[b]).config.instance_id by {
                assert(s[a].instance_id != s[b].instance_id);
            }
        }
        out
    }

    /// Destroys every instance through `destroy` and unregisters them all.
    pub fn cleanup<D: Fn(usize)>(&mut self, destroy: D)
        requires
            forall|h: usize| destroy.requires((h,)),
        ensures
            final(self)@ == Map::<u128, (u128, usize, (u128, u128, Seq<char>, Seq<char>), u64)>::empty(),
            final(self).plugin_spec() == old(self).plugin_spec(),
            forall|id: u128| #[trigger] old(self)@.contains_key(id) ==> call_ensures(
                destroy,
                (old(self)@[id].1,),
                (),
            ),
    {
        proof {
            use_type_invariant(&*self);
        }
        let ghost s0 = self.instances@;
        let mut taken: Vec<ActiveInstance> = Vec::new();
        std::mem::swap(&mut taken, &mut self.instances);
        proof {
            assert(host_map(self.instances@) =~= Map::<
                u128,
                (u128, usize, (u128, u128, Seq<char>, Seq<char>), u64),
            >::empty());
        }
        let n = taken.len();
        let mut i: usize = 0;
        while i < n
            invariant
                n == taken@.len(),
                taken@ == s0,
                0 <= i <= n,
                forall|h: usize| destroy.requires((h,)),
                forall|k: int| 0 <= k < i ==> call_ensures(destroy, ((#[trigger] s0[k]).instance_handle,), ()),
            decreases n - i,
        {
            destroy(taken[i].instance_handle);
            i = i + 1;
        }
        proof {
            assert forall|id: u128| #[trigger] old(self)@.contains_key(id) implies call_ensures(
                destroy,
                (old(self)@[id].1,),
                (),
            ) by {
                let k = choose|k: int| 0 <= k < s0.len() && (#[trigger] s0[k]).instance_id == id;
                lemma_host_map_at(s0, k);
            }
        }
    }

    /// Re-creates an instance: with the given configuration, or its own
    /// when none is given. Fails with `EngineInstanceNotFound` when there is
    /// no such instance; otherwise it is destroyed (through `destroy`) and
    /// created again (through `create`) as `create_instance` does.
    pub fn recreate_instance<D: Fn(usize), F: Fn(usize, &str) -> usize>(
        &mut self,
        id: u128,
        config: Option<EngineInstanceConfig>,
        now_ms: u64,
        destroy: D,
        create: F,
    ) -> (r: Result<EngineInstance, PluginHostError>)
        requires
            forall|h: usize| destroy.requires((h,)),
            forall|i: usize, c: &str| create.requires((i, c)),
        ensures
            recreate_outcome(
                id,
                config,
                now_ms,
                old(self).plugin_spec(),
                destroy,
                create,
                old(self)@,
                final(self)@,
                r,
            ),
            final(self).plugin_spec() == old(self).plugin_spec(),
    {
        let existing = match self.get_instance(id) {
            Some(inst) => copy_config(&inst.config),
            None => {
                return Err(PluginHostError::EngineInstanceNotFound(id));
            },
        };
        let new_config = match config {
            Some(c) => c,
            None => existing,
        };
        let ghost nc = new_config;
        let ghost before = self@;
        match self.destroy_instance(id, destroy) {
            Ok(()) => {},
            Err(e) => {
                return Err(e);
            },
        }
        let ghost mid = self@;
        let res = self.create_instance(new_config, now_ms, create);
        proof {
            assert(recreated(res, nc, id, now_ms, self.plugin_spec(), before, self@, create));
        }
        res
    }

    /// Asks the plugin, through `preload`, to prepare an instance for an
    /// image of the given size (the larger dimension is handed over as the
    /// scale). Fails with `EngineInstanceNotFound`, or `OperationFailed`
    /// when the plugin answers another code than success.
    pub fn preload<P: Fn(usize, i32) -> UpsclrErrorCode>(
        &self,
        id: u128,
        params: PreloadParams,
        preload: P,
    ) -> (r: Result<(), PluginHostError>)
        requires
            forall|h: usize, s: i32| preload.requires((h, s)),
        ensures
            !self@.contains_key(id) ==> r == Err::<(), PluginHostError>(
                PluginHostError::EngineInstanceNotFound(id),
            ),
            self@.contains_key(id) ==> exists|code: UpsclrErrorCode|
                #[trigger] call_ensures(preload, (self@[id].1, preload_scale(params)), code) && if code
                    == UpsclrErrorCode::Success {
                    r is Ok
                } else {
                    r matches Err(PluginHostError::OperationFailed(m)) && m@
                        == "Preload operation failed with error code: "@ + code.debug_name()
                },
    {
        let inst = match self.get_instance(id) {
            Some(i) => i,
            None => {
                return Err(PluginHostError::EngineInstanceNotFound(id));
            },
        };
        let larger = if params.width >= params.height {
            params.width
        } else {
            params.height
        };
        let scale = larger as i32;
        let code = preload(inst.instance_handle, scale);
        proof {
            assert(scale == preload_scale(params));
            assert(inst.instance_handle == self@[id].1);
            assert(call_ensures(preload, (self@[id].1, preload_scale(params)), code));
        }
        if code != UpsclrErrorCode::Success {
            return Err(
                PluginHostError::OperationFailed(
                    String::from_str("Preload operation failed with error code: ").concat(
                        code.debug_text().as_str(),
                    ),
                ),
            );
        }
        Ok(())
    }

    /// Upscales an image with an instance through `upscale`, which gets the
    /// call, the input pixels and a zeroed output buffer of the call's
    /// output size for the plugin to fill, and gives back the plugin's code
    /// and the time the call took (microseconds). The output is the input's
    /// size times the scale, with the same channels. Fails with
    /// `EngineInstanceNotFound`, or `OperationFailed` when the plugin
    /// answers another code than success.
    ///
    /// `upscale` is asked to leave the buffer's length as it was, which
    /// every Rust function does with a `&mut [u8]`.
    pub fn upscale<U: Fn(&UpscaleCall, &[u8], &mut [u8]) -> (UpsclrErrorCode, u64)>(
        &self,
        id: u128,
        params: UpscaleParams,
        upscale: U,
    ) -> (r: Result<UpscaleResult, PluginHostError>)
        requires
            forall|c: &UpscaleCall, d: &[u8], b: &mut [u8]| upscale.requires((c, d, b)),
            forall|c: &UpscaleCall, d: &[u8], b: &mut [u8], o: (UpsclrErrorCode, u64)|
                #[trigger] upscale.ensures((c, d, b), o) ==> final(b)@.len() == b@.len(),
            params.input_width * params.scale <= u32::MAX,
            params.input_height * params.scale <= u32::MAX,
            params.input_width * params.scale * (params.input_height * params.scale) <= u32::MAX,
            params.input_width * params.scale * (params.input_height * params.scale)
                * params.channels <= u32::MAX,
        ensures
            !self@.contains_key(id) ==> r == Err::<UpscaleResult, PluginHostError>(
                PluginHostError::EngineInstanceNotFound(id),
            ),
            self@.contains_key(id) ==> exists|
                call: UpscaleCall,
                d: &[u8],
                b: &mut [u8],
                out: (UpsclrErrorCode, u64),
            |
                d@ == params.input_data@ && b@ == Seq::new(call.output_size as nat, |i: int| 0u8)
                    && #[trigger] call_ensures(upscale, (&call, d, b), out)
                    && upscale_answer(r, call, out, final(b)@, self@[id].1, params),
            r matches Ok(res) ==> res.output_data@.len() == params.input_width * params.scale * (
            params.input_height * params.scale) * params.channels,
    {
        let inst = match self.get_instance(id) {
            Some(i) => i,
            None => {
                return Err(PluginHostError::EngineInstanceNotFound(id));
            },
        };
        let input_color = to_plugin_color(params.input_color_format);
        let output_color = to_plugin_color(params.desired_color_format);
        let expected_width = params.input_width * params.scale;
        let expected_height = params.input_height * params.scale;
        let expected_size = (expected_width * expected_height * params.channels) as usize;
        let call = UpscaleCall {
            instance_handle: inst.instance_handle,
            scale: params.scale as i32,
            input_width: params.input_width,
            input_height: params.input_height,
            channels: params.channels,
            input_color_format: input_color,
            output_size: expected_size,
            output_color_format: output_color,
        };
        let d = params.input_data.as_slice();
        let mut output_data: Vec<u8> = vec![0u8; expected_size];
        proof {
            assert(output_data@ =~= Seq::new(expected_size as nat, |i: int| 0u8));
        }
        let out = upscale(&call, d, output_data.as_mut_slice());
        proof {
            assert(d@ == params.input_data@);
        }
        let (code, processing_time_us) = out;
        let res = if code != UpsclrErrorCode::Success {
            Err(
                PluginHostError::OperationFailed(
                    String::from_str("Upscale operation failed with error code: ").concat(
                        code.debug_text().as_str(),
                    ),
                ),
            )
        } else {
            Ok(
                UpscaleResult {
                    processing_time_us,
                    output_width: expected_width,
                    output_height: expected_height,
                    channels: params.channels,
                    output_color_format: params.desired_color_format,
                    output_data,
                },
            )
        };
        proof {
            assert(upscale_answer(res, call, out, output_data@, self@[id].1, params));
        }
        res
    }
}

} // verus!
