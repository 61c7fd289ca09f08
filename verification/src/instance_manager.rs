//! The registry of active engine instances, keyed by their UUID.
//!
//! Creating and destroying an instance inside a plugin is a call through the
//! plugin's C interface, which the caller performs: creation is handed in as
//! a function from (plugin, engine index, configuration) to the instance's
//! address (zero when the plugin refused), and every instance that leaves
//! the registry is handed back so that the caller can destroy it.
use crate::error::AppError;
use crate::models::InstanceInfoForList;
use crate::plugin_manager::{last_with_id, LoadedPlugin, PluginManager};
use crate::text::{decimal_string, decimal_text};
use vstd::prelude::*;
use vstd::string::*;
use vstd::utf8::*;
use vstd::arithmetic::power2::pow2;
use vstd::std_specs::hash::spec_hash_map_iter;
use vstd::std_specs::iter::IteratorSpec;
use std::collections::HashMap;

verus! {

broadcast use vstd::std_specs::hash::group_hash_axioms;

/// An engine instance that a plugin created and the server keeps.
pub struct ActiveInstance {
    pub uuid: u128,
    /// Address of the plugin's opaque instance; never zero.
    pub instance_handle: usize,
    pub plugin_id: String,
    pub plugin_name: String,
    /// Name of the engine at `engine_index_in_plugin`, `None` when the
    /// plugin has no engine at that index.
    pub engine_name: Option<String>,
    pub engine_index_in_plugin: usize,
    /// The JSON configuration the instance was created with.
    pub config_json_string: String,
}

/// Plain view of an active instance.
pub struct InstanceView {
    pub uuid: u128,
    pub handle: usize,
    pub plugin_id: Seq<char>,
    pub plugin_name: Seq<char>,
    pub engine_name: Option<Seq<char>>,
    pub engine_index: usize,
    pub config: Seq<char>,
}

pub open spec fn opt_text(o: Option<String>) -> Option<Seq<char>> {
    match o {
        Some(s) => Some(s@),
        None => None,
    }
}

impl View for ActiveInstance {
    type V = InstanceView;

    open spec fn view(&self) -> InstanceView {
        InstanceView {
            uuid: self.uuid,
            handle: self.instance_handle,
            plugin_id: self.plugin_id@,
            plugin_name: self.plugin_name@,
            engine_name: opt_text(self.engine_name),
            engine_index: self.engine_index_in_plugin,
            config: self.config_json_string@,
        }
    }
}

/// What is kept of an instance across a reset.
#[derive(Debug, Clone)]
pub struct InstanceState {
    pub instance_id: u128,
    pub plugin_id: String,
    pub engine_index_in_plugin: usize,
    pub config_json_string: String,
}

/// All instances, as kept across a reset.
#[derive(Debug, Clone)]
pub struct InstanceManagerState {
    pub instances: Vec<InstanceState>,
}

/// The name of a plugin's engine at an index, if it has one there.
pub open spec fn engine_name_at(plugin: LoadedPlugin, index: usize) -> Option<Seq<char>> {
    if index < plugin.engines_info@.len() {
        Some(plugin.engines_info@[index as int].name@)
    } else {
        None
    }
}

/// The instance registered for a plugin's engine.
pub open spec fn instance_of(
    id: u128,
    handle: usize,
    plugin: LoadedPlugin,
    index: usize,
    config: Seq<char>,
) -> InstanceView {
    InstanceView {
        uuid: id,
        handle,
        plugin_id: plugin.plugin_info.id@,
        plugin_name: plugin.plugin_info.name@,
        engine_name: engine_name_at(plugin, index),
        engine_index: index,
        config,
    }
}

/// Index of the first zero byte.
pub open spec fn first_zero(b: Seq<u8>) -> Option<int>
    decreases b.len(),
{
    if b.len() == 0 {
        None
    } else if b[0] == 0 {
        Some(0)
    } else {
        match first_zero(b.subrange(1, b.len() as int)) {
            Some(i) => Some(i + 1),
            None => None,
        }
    }
}

/// Why a text cannot be handed to a plugin as a C string: the message of
/// its first NUL byte, if it has one.
pub open spec fn c_string_problem(text: Seq<char>) -> Option<Seq<char>> {
    match first_zero(encode_utf8(text)) {
        Some(i) => Some("nul byte found in provided data at position: "@ + decimal_text(i as nat)),
        None => None,
    }
}

proof fn lemma_first_zero_skip(b: Seq<u8>, i: int)
    requires
        0 <= i <= b.len(),
        forall|k: int| 0 <= k < i ==> b[k] != 0,
    ensures
        first_zero(b) == (match first_zero(b.subrange(i, b.len() as int)) {
            Some(j) => Some(j + i),
            None => None::<int>,
        }),
    decreases i,
{
    if i > 0 {
        let t = b.subrange(1, b.len() as int);
        assert forall|k: int| 0 <= k < i - 1 implies t[k] != 0 by {
            assert(t[k] == b[k + 1]);
        }
        lemma_first_zero_skip(t, i - 1);
        assert(t.subrange(i - 1, t.len() as int) =~= b.subrange(i, b.len() as int));
    } else {
        assert(b.subrange(0, b.len() as int) =~= b);
        match first_zero(b) {
            Some(j) => {},
            None => {},
        }
    }
}

/// Checks that a text can be handed to a plugin as a C string; the error is
/// `CStringError` with the position of the first NUL byte.
pub fn check_c_string(text: &str) -> (r: Result<(), AppError>)
    ensures
        match c_string_problem(text@) {
            None => r is Ok,
            Some(m) => r matches Err(AppError::CStringError(s)) && s@ == m,
        },
{
    match c_string_problem_text(text) {
        None => Ok(()),
        Some(m) => Err(AppError::CStringError(m)),
    }
}

/// Why a text cannot be handed to a plugin as a C string, if it cannot.
pub fn c_string_problem_text(text: &str) -> (r: Option<String>)
    ensures
        match c_string_problem(text@) {
            None => r is None,
            Some(m) => r matches Some(s) && s@ == m,
        },
{
    let bytes = text.as_bytes();
    let n = bytes.len();
    let mut i: usize = 0;
    while i < n
        invariant
            n == bytes@.len(),
            bytes@ == encode_utf8(text@),
            0 <= i <= n,
            forall|k: int| 0 <= k < i ==> bytes@[k] != 0,
        decreases n - i,
    {
        if bytes[i] == 0 {
            proof {
                lemma_first_zero_skip(bytes@, i as int);
                assert(bytes@.subrange(i as int, n as int)[0] == 0);
            }
            return Some(
                String::from_str("nul byte found in provided data at position: ").concat(
                    decimal_string(i as u64).as_str(),
                ),
            );
        }
        i = i + 1;
    }
    proof {
        lemma_first_zero_skip(bytes@, n as int);
    }
    None
}

/// A lower-case hexadecimal digit.
pub open spec fn lower_hex_char(d: nat) -> char {
    if d < 10 {
        ((d + 0x30) as u32) as char
    } else {
        ((d - 10 + 0x61) as u32) as char
    }
}

/// The `k`-th of the 32 hexadecimal digits of a UUID, most significant first.
pub open spec fn uuid_digit(id: u128, k: int) -> char {
    lower_hex_char(((id as nat) / pow2((124 - 4 * k) as nat)) % 16)
}

/// The hyphenated text of a UUID: its 32 lower-case hexadecimal digits in
/// groups of 8, 4, 4, 4 and 12, joined by `-`.
pub open spec fn uuid_hyphenated(id: u128) -> Seq<char> {
    let h = Seq::new(32, |k: int| uuid_digit(id, k));
    h.subrange(0, 8) + "-"@ + h.subrange(8, 12) + "-"@ + h.subrange(12, 16) + "-"@ + h.subrange(
        16,
        20,
    ) + "-"@ + h.subrange(20, 32)
}

/// `uuid::Uuid::from_u128(id).to_string()`.
///
/// Trusted: the crate prints a UUID (whose bytes are the value's, most
/// significant first) as its hyphenated lower-case hexadecimal text.
#[verifier::external_body]
pub(crate) fn uuid_text(id: u128) -> (r: String)
    ensures
        r@ == uuid_hyphenated(id),
{
    uuid::Uuid::from_u128(id).to_string()
}

/// `uuid::Uuid::new_v4`, as its 128-bit value.
///
/// Trusted: the value is random, so nothing is promised of it.
#[verifier::external_body]
fn new_instance_id() -> u128 {
    uuid::Uuid::new_v4().as_u128()
}

/// What the registry keeps true of every instance: it is filed under its
/// own UUID, has a non-zero address, and its configuration is a C string
/// (it was handed to the plugin as one).
pub open spec fn registry_ok(m: Map<u128, ActiveInstance>) -> bool {
    forall|id: u128|
        #[trigger] m.contains_key(id) ==> {
            &&& m[id].uuid == id
            &&& m[id].instance_handle != 0
            &&& c_string_problem(m[id].config_json_string@) is None
        }
}

/// Whether importing an exported instance skips it without asking its
/// plugin: its UUID is already registered, no loaded plugin has its plugin
/// id, that plugin has no engine at its index, or its configuration holds a
/// NUL byte.
pub open spec fn import_skipped(
    e: InstanceState,
    registered: Map<u128, InstanceView>,
    plugins: Seq<LoadedPlugin>,
) -> bool {
    registered.contains_key(e.instance_id) || !import_resolves(e, plugins)
}

/// Whether an exported instance can be handed to a plugin again: a loaded
/// plugin has its plugin id, with an engine at its index, and its
/// configuration holds no NUL byte.
pub open spec fn import_resolves(e: InstanceState, plugins: Seq<LoadedPlugin>) -> bool {
    match last_with_id(plugins, e.plugin_id@) {
        None => false,
        Some(k) => e.engine_index_in_plugin < plugins[k].engines_info@.len() && c_string_problem(
            e.config_json_string@,
        ) is None,
    }
}

/// The registry and the imported UUIDs after importing the first `n`
/// exported instances into an empty registry, where `handles[i]` is the
/// address the plugin gave for the `i`-th (zero when it refused).
pub open spec fn import_upto(
    entries: Seq<InstanceState>,
    plugins: Seq<LoadedPlugin>,
    handles: Seq<usize>,
    n: int,
) -> (Map<u128, InstanceView>, Seq<u128>)
    decreases n,
{
    if n <= 0 {
        (Map::empty(), Seq::empty())
    } else {
        let (m, ids) = import_upto(entries, plugins, handles, n - 1);
        let e = entries[n - 1];
        if import_skipped(e, m, plugins) || handles[n - 1] == 0 {
            (m, ids)
        } else {
            let p = plugins[last_with_id(plugins, e.plugin_id@)->0];
            (
                m.insert(
                    e.instance_id,
                    instance_of(
                        e.instance_id,
                        handles[n - 1],
                        p,
                        e.engine_index_in_plugin,
                        e.config_json_string@,
                    ),
                ),
                ids.push(e.instance_id),
            )
        }
    }
}

/// The plugin an exported instance is re-created with.
pub open spec fn import_plugin(e: InstanceState, plugins: Seq<LoadedPlugin>) -> LoadedPlugin {
    plugins[last_with_id(plugins, e.plugin_id@)->0]
}

/// Whether `entries` is an export of the registry `m`: one entry for each
/// instance, with its UUID, plugin id, engine index and configuration.
pub open spec fn is_export(m: Map<u128, InstanceView>, entries: Seq<InstanceState>) -> bool {
    &&& lists_each_once(m, entries, |e: InstanceState| state_key(e))
    &&& forall|k: int|
        0 <= k < entries.len() ==> state_entry(#[trigger] entries[k]) == exported(
            m[entries[k].instance_id],
        )
}

/// Whether importing `entries` against the loaded `plugins`, creating
/// engines through `create`, may end with the registry `after` and the
/// imported UUIDs `ids`: for some addresses the plugins gave, one for each
/// entry that was handed to its plugin (with its plugin, engine index and
/// configuration), `import_upto` gives that outcome.
pub open spec fn import_answer<F: Fn(&LoadedPlugin, usize, &str) -> usize>(
    entries: Seq<InstanceState>,
    plugins: Seq<LoadedPlugin>,
    create: F,
    ids: Seq<u128>,
    after: Map<u128, InstanceView>,
) -> bool {
    exists|h: Seq<usize>|
        {
            &&& h.len() == entries.len()
            &&& #[trigger] import_upto(entries, plugins, h, entries.len() as int) == (after, ids)
            &&& forall|i: int|
                0 <= i < h.len() && !import_skipped(
                    entries[i],
                    import_upto(entries, plugins, h, i).0,
                    plugins,
                ) ==> exists|c: &str|
                    c@ == entries[i].config_json_string@ && #[trigger] call_ensures(
                        create,
                        (&import_plugin(entries[i], plugins), entries[i].engine_index_in_plugin, c),
                        h[i],
                    )
        }
}

/// The active instances.
pub struct InstanceManager {
    instances: HashMap<u128, ActiveInstance>,
}

impl View for InstanceManager {
    type V = Map<u128, InstanceView>;

    closed spec fn view(&self) -> Map<u128, InstanceView> {
        self.instances@.map_values(|a: ActiveInstance| a@)
    }
}

/// The information listed for an instance.
pub open spec fn listed(v: InstanceView) -> (u128, Seq<char>, Seq<char>, Seq<char>) {
    (
        v.uuid,
        v.plugin_id,
        v.plugin_name,
        match v.engine_name {
            Some(n) => n,
            None => "Unknown Engine"@,
        },
    )
}

/// The information listed for an instance, as found in a listing entry.
pub open spec fn listed_entry(e: InstanceInfoForList) -> (u128, Seq<char>, Seq<char>, Seq<char>) {
    (e.instance_id, e.plugin_id@, e.plugin_name@, e.engine_name@)
}

/// What is exported of an instance.
pub open spec fn exported(v: InstanceView) -> (u128, Seq<char>, usize, Seq<char>) {
    (v.uuid, v.plugin_id, v.engine_index, v.config)
}

/// What an exported entry holds.
pub open spec fn state_entry(e: InstanceState) -> (u128, Seq<char>, usize, Seq<char>) {
    (e.instance_id, e.plugin_id@, e.engine_index_in_plugin, e.config_json_string@)
}

/// A listing of `m`: one entry per instance, each UUID once, in some order.
pub open spec fn lists_each_once<T>(m: Map<u128, InstanceView>, entries: Seq<T>, key: spec_fn(T) -> u128) -> bool {
    &&& forall|k: int| 0 <= k < entries.len() ==> m.contains_key(key(#[trigger] entries[k]))
    &&& forall|id: u128| #[trigger] m.contains_key(id) ==> exists|k: int|
        0 <= k < entries.len() && key(#[trigger] entries[k]) == id
    &&& forall|a: int, b: int|
        0 <= a < entries.len() && 0 <= b < entries.len() && a != b ==> key(#[trigger] entries[a])
            != key(#[trigger] entries[b])
}

pub open spec fn listing_key(e: InstanceInfoForList) -> u128 {
    e.instance_id
}

pub open spec fn state_key(e: InstanceState) -> u128 {
    e.instance_id
}

impl InstanceManager {
    #[verifier::type_invariant]
    spec fn well_formed(self) -> bool {
        registry_ok(self.instances@)
    }

    /// An empty registry.
    pub fn new() -> (r: InstanceManager)
        ensures
            r@ == Map::<u128, InstanceView>::empty(),
    {
        let r = InstanceManager { instances: HashMap::new() };
        assert(r@ =~= Map::<u128, InstanceView>::empty());
        r
    }

    /// The registered UUIDs, each once, in no particular order.
    fn ids(&self) -> (r: Vec<u128>)
        ensures
            forall|k: int| 0 <= k < r@.len() ==> self@.contains_key(#[trigger] r@[k]),
            forall|id: u128| #[trigger] self@.contains_key(id) ==> r@.contains(id),
            r@.no_duplicates(),
    {
        let ghost s = spec_hash_map_iter(&self.instances).remaining();
        let mut out: Vec<u128> = Vec::new();
        for item in it: self.instances.iter()
            invariant
                s == spec_hash_map_iter(&self.instances).remaining(),
                it.seq() == s,
                out@.len() == it.index(),
                forall|k: int| 0 <= k < it.index() ==> #[trigger] out@[k] == *s[k].0,
        {
            let (k, _v) = item;
            out.push(*k);
        }
        proof {
            let m = self.instances@;
            assert(out@.len() == s.len());
            assert(s.no_duplicates());
            assert forall|k: int| 0 <= k < out@.len() implies self@.contains_key(#[trigger] out@[k]) by {
                assert(m.contains_key(*s[k].0));
            }
            assert forall|a: int, b: int|
                0 <= a < out@.len() && 0 <= b < out@.len() && a != b implies out@[a] != out@[b] by {
                if out@[a] == out@[b] {
                    assert(m.contains_key(*s[a].0) && m[*s[a].0] == *s[a].1);
                    assert(m.contains_key(*s[b].0) && m[*s[b].0] == *s[b].1);
                    assert(s[a] == s[b]);
                }
            }
            assert forall|id: u128| #[trigger] self@.contains_key(id) implies out@.contains(id) by {
                assert(m.contains_key(id));
                assert(s.contains((&id, &m[id])));
                let j = choose|j: int| 0 <= j < s.len() && s[j] == (&id, &m[id]);
                assert(out@[j] == id);
            }
        }
        out
    }

    /// The instance with the given UUID.
    pub fn get_instance(&self, uuid: u128) -> (r: Option<&ActiveInstance>)
        ensures
            match r {
                Some(inst) => self@.contains_key(uuid) && self@[uuid] == inst@,
                None => !self@.contains_key(uuid),
            },
    {
        self.instances.get(&uuid)
    }

    /// Whether any instance is active.
    pub fn is_empty(&self) -> (r: bool)
        ensures
            r == (self@ == Map::<u128, InstanceView>::empty()),
    {
        let r = self.instances.is_empty();
        proof {
            if r {
                assert(self.instances@.dom() =~= Set::<u128>::empty());
                assert(self@ =~= Map::<u128, InstanceView>::empty());
            } else {
                let id = self.instances@.dom().choose();
                assert(self.instances@.dom().len() > 0);
                assert(self.instances@.contains_key(id));
                assert(self@.contains_key(id));
            }
        }
        r
    }

    /// Registers an instance the plugin created; an instance already
    /// registered under the same UUID is replaced and handed back.
    fn register(&mut self, inst: ActiveInstance) -> (displaced: Option<ActiveInstance>)
        requires
            inst.instance_handle != 0,
            c_string_problem(inst.config_json_string@) is None,
        ensures
            final(self)@ == old(self)@.insert(inst.uuid, inst@),
            match displaced {
                Some(d) => old(self)@.contains_key(inst.uuid) && d@ == old(self)@[inst.uuid],
                None => !old(self)@.contains_key(inst.uuid),
            },
    {
        proof {
            use_type_invariant(&*self);
        }
        let ghost m0 = self.instances@;
        let ghost v = inst@;
        let ghost key = inst.uuid;
        let mut map = HashMap::new();
        std::mem::swap(&mut map, &mut self.instances);
        let displaced = map.insert(inst.uuid, inst);
        proof {
            assert(registry_ok(map@));
        }
        self.instances = map;
        proof {
            assert(self@ =~= old(self)@.insert(key, v));
        }
        displaced
    }

    /// Creates an instance of the plugin's engine with the JSON
    /// configuration, through `create_engine`, and registers it under a new
    /// random UUID. Gives the UUID and, should that UUID already be taken,
    /// the instance it replaced.
    pub fn create_instance<F: Fn(&LoadedPlugin, usize, &str) -> usize>(
        &mut self,
        plugin: &LoadedPlugin,
        engine_index: usize,
        config_json_str: &str,
        create_engine: F,
    ) -> (r: Result<(u128, Option<ActiveInstance>), AppError>)
        requires
            forall|p: &LoadedPlugin, i: usize, c: &str| create_engine.requires((p, i, c)),
        ensures
            match r {
                Ok((id, displaced)) => {
                    &&& c_string_problem(config_json_str@) is None
                    &&& final(self)@.contains_key(id)
                    &&& final(self)@[id].handle != 0
                    &&& call_ensures(
                        create_engine,
                        (plugin, engine_index, config_json_str),
                        final(self)@[id].handle,
                    )
                    &&& final(self)@ == old(self)@.insert(
                        id,
                        instance_of(
                            id,
                            final(self)@[id].handle,
                            *plugin,
                            engine_index,
                            config_json_str@,
                        ),
                    )
                    &&& match displaced {
                        Some(d) => old(self)@.contains_key(id) && d@ == old(self)@[id],
                        None => !old(self)@.contains_key(id),
                    }
                },
                Err(AppError::CStringError(m)) => c_string_problem(config_json_str@) == Some(m@)
                    && final(self)@ == old(self)@,
                Err(AppError::InstanceCreationFailed(m)) => {
                    &&& c_string_problem(config_json_str@) is None
                    &&& call_ensures(create_engine, (plugin, engine_index, config_json_str), 0usize)
                    &&& m@ == "Plugin returned a null pointer, indicating instance creation failed."@
                    &&& final(self)@ == old(self)@
                },
                Err(_) => false,
            },
    {
        match check_c_string(config_json_str) {
            Ok(()) => {},
            Err(e) => {
                return Err(e);
            },
        }
        let handle = create_engine(plugin, engine_index, config_json_str);
        if handle == 0 {
            return Err(
                AppError::InstanceCreationFailed(
                    String::from_str(
                        "Plugin returned a null pointer, indicating instance creation failed.",
                    ),
                ),
            );
        }
        let id = new_instance_id();
        let engine_name = if engine_index < plugin.engines_info.len() {
            Some(plugin.engines_info[engine_index].name.clone())
        } else {
            None
        };
        let inst = ActiveInstance {
            uuid: id,
            instance_handle: handle,
            plugin_id: plugin.plugin_info.id.clone(),
            plugin_name: plugin.plugin_info.name.clone(),
            engine_name,
            engine_index_in_plugin: engine_index,
            config_json_string: String::from_str(config_json_str),
        };
        proof {
            assert(inst@ == instance_of(id, handle, *plugin, engine_index, config_json_str@));
        }
        let displaced = self.register(inst);
        Ok((id, displaced))
    }

    /// The information listed for each instance, each once, in no
    /// particular order.
    pub fn list_instances_info(&self) -> (r: Vec<InstanceInfoForList>)
        ensures
            lists_each_once(self@, r@, |e: InstanceInfoForList| listing_key(e)),
            forall|k: int|
                0 <= k < r@.len() ==> listed_entry(#[trigger] r@[k]) == listed(
                    self@[r@[k].instance_id],
                ),
            forall|k: int|
                0 <= k < r@.len() ==> {
                    let v = self@[(#[trigger] r@[k]).instance_id];
                    &&& r@[k].plugin_id@ == v.plugin_id
                    &&& r@[k].plugin_name@ == v.plugin_name
                    &&& r@[k].engine_name@ == (match v.engine_name {
                        Some(n) => n,
                        None => "Unknown Engine"@,
                    })
                },
    {
        proof {
            use_type_invariant(self);
        }
        let keys = self.ids();
        let n = keys.len();
        let mut out: Vec<InstanceInfoForList> = Vec::new();
        let mut i: usize = 0;
        while i < n
            invariant
                n == keys@.len(),
                forall|k: int| 0 <= k < n ==> self@.contains_key(#[trigger] keys@[k]),
                registry_ok(self.instances@),
                0 <= i <= n,
                out@.len() == i,
                forall|k: int|
                    0 <= k < i ==> (#[trigger] out@[k]).instance_id == keys@[k] && listed_entry(
                        out@[k],
                    ) == listed(self@[keys@[k]]),
            decreases n - i,
        {
            let key = keys[i];
            assert(self@.contains_key(keys@[i as int]));
            let inst = self.instances.get(&key).unwrap();
            let engine_name = match &inst.engine_name {
                Some(name) => name.clone(),
                None => String::from_str("Unknown Engine"),
            };
            out.push(
                InstanceInfoForList {
                    instance_id: inst.uuid,
                    plugin_id: inst.plugin_id.clone(),
                    plugin_name: inst.plugin_name.clone(),
                    engine_name,
                },
            );
            i = i + 1;
        }
        proof {
            assert forall|k: int| 0 <= k < out@.len() implies self@.contains_key(
                listing_key(#[trigger] out@[k]),
            ) by {
                assert(self@.contains_key(keys@[k]));
            }
            assert forall|id: u128| #[trigger] self@.contains_key(id) implies exists|k: int|
                0 <= k < out@.len() && listing_key(#[trigger] out@[k]) == id by {
                assert(keys@.contains(id));
                let k = choose|k: int| 0 <= k < keys@.len() && keys@[k] == id;
                assert(listing_key(out@[k]) == id);
            }
            assert forall|a: int, b: int|
                0 <= a < out@.len() && 0 <= b < out@.len() && a != b implies listing_key(
                #[trigger] out@[a],
            ) != listing_key(#[trigger] out@[b]) by {
                assert(keys@[a] != keys@[b]);
            }
        }
        out
    }

    /// Unregisters the instance with the given UUID and hands it back for
    /// destruction; `InstanceNotFound` when there is none.
    pub fn delete_instance(&mut self, uuid: u128) -> (r: Result<ActiveInstance, AppError>)
        ensures
            match r {
                Ok(inst) => old(self)@.contains_key(uuid) && inst@ == old(self)@[uuid]
                    && final(self)@ == old(self)@.remove(uuid),
                Err(e) => !old(self)@.contains_key(uuid) && e is InstanceNotFound && final(self)@
                    == old(self)@,
            },
    {
        proof {
            use_type_invariant(&*self);
        }
        let mut map = HashMap::new();
        std::mem::swap(&mut map, &mut self.instances);
        let removed = map.remove(&uuid);
        proof {
            assert(registry_ok(map@));
        }
        self.instances = map;
        proof {
            assert(self@ =~= old(self)@.remove(uuid));
        }
        match removed {
            Some(inst) => Ok(inst),
            None => Err(AppError::InstanceNotFound),
        }
    }

    /// Unregisters every instance and hands them all back for destruction.
    pub fn cleanup(&mut self) -> (r: Vec<ActiveInstance>)
        ensures
            final(self)@ == Map::<u128, InstanceView>::empty(),
            lists_each_once(old(self)@, r@, |a: ActiveInstance| a.uuid),
            forall|k: int| 0 <= k < r@.len() ==> (#[trigger] r@[k])@ == old(self)@[r@[k].uuid],
    {
        proof {
            use_type_invariant(&*self);
        }
        let keys = self.ids();
        let mut taken = HashMap::new();
        std::mem::swap(&mut taken, &mut self.instances);
        let ghost m0 = taken@;
        let n = keys.len();
        let mut out: Vec<ActiveInstance> = Vec::new();
        let mut i: usize = 0;
        proof {
            assert(self@ =~= Map::<u128, InstanceView>::empty());
        }
        while i < n
            invariant
                n == keys@.len(),
                keys@.no_duplicates(),
                forall|k: int| 0 <= k < n ==> m0.contains_key(#[trigger] keys@[k]),
                registry_ok(m0),
                0 <= i <= n,
                out@.len() == i,
                forall|k: int| 0 <= k < i ==> #[trigger] out@[k] == m0[keys@[k]],
                forall|k: int| i <= k < n ==> taken@.contains_key(#[trigger] keys@[k]),
                forall|id: u128| #[trigger] taken@.contains_key(id) ==> m0.contains_key(id) && taken@[id] == m0[id],
            decreases n - i,
        {
            let key = keys[i];
            let removed = taken.remove(&key);
            proof {
                assert forall|k: int| i + 1 <= k < n implies taken@.contains_key(#[trigger] keys@[k]) by {
                    assert(keys@[k] != keys@[i as int]);
                }
            }
            match removed {
                Some(inst) => {
                    out.push(inst);
                },
                None => {
                    assert(false);
                },
            }
            i = i + 1;
        }
        proof {
            assert forall|k: int| 0 <= k < out@.len() implies old(self)@.contains_key(
                (#[trigger] out@[k]).uuid,
            ) && out@[k]@ == old(self)@[out@[k].uuid] by {
                assert(m0.contains_key(keys@[k]));
                assert(m0[keys@[k]].uuid == keys@[k]);
            }
            assert forall|id: u128| #[trigger] old(self)@.contains_key(id) implies exists|k: int|
                0 <= k < out@.len() && (#[trigger] out@[k]).uuid == id by {
                assert(keys@.contains(id));
                let k = choose|k: int| 0 <= k < keys@.len() && keys@[k] == id;
                assert(out@[k].uuid == id);
            }
            assert forall|a: int, b: int|
                0 <= a < out@.len() && 0 <= b < out@.len() && a != b implies (#[trigger] out@[a]).uuid
                    != (#[trigger] out@[b]).uuid by {
                assert(keys@[a] != keys@[b]);
                assert(m0[keys@[a]].uuid == keys@[a]);
                assert(m0[keys@[b]].uuid == keys@[b]);
            }
        }
        out
    }

    /// What is kept of the instances across a reset, each once, in no
    /// particular order; every configuration kept is a C string.
    pub fn export_state(&self) -> (r: InstanceManagerState)
        ensures
            is_export(self@, r.instances@),
            forall|k: int|
                0 <= k < r.instances@.len() ==> c_string_problem(
                    (#[trigger] r.instances@[k]).config_json_string@,
                ) is None,
    {
        proof {
            use_type_invariant(self);
        }
        let keys = self.ids();
        let n = keys.len();
        let mut out: Vec<InstanceState> = Vec::new();
        let mut i: usize = 0;
        while i < n
            invariant
                n == keys@.len(),
                forall|k: int| 0 <= k < n ==> self@.contains_key(#[trigger] keys@[k]),
                registry_ok(self.instances@),
                0 <= i <= n,
                out@.len() == i,
                forall|k: int|
                    0 <= k < i ==> (#[trigger] out@[k]).instance_id == keys@[k] && state_entry(
                        out@[k],
                    ) == exported(self@[keys@[k]]) && c_string_problem(out@[k].config_json_string@)
                        is None,
            decreases n - i,
        {
            let key = keys[i];
            assert(self@.contains_key(keys@[i as int]));
            let inst = self.instances.get(&key).unwrap();
            out.push(
                InstanceState {
                    instance_id: inst.uuid,
                    plugin_id: inst.plugin_id.clone(),
                    engine_index_in_plugin: inst.engine_index_in_plugin,
                    config_json_string: inst.config_json_string.clone(),
                },
            );
            i = i + 1;
        }
        proof {
            assert forall|k: int| 0 <= k < out@.len() implies self@.contains_key(
                state_key(#[trigger] out@[k]),
            ) by {
                assert(self@.contains_key(keys@[k]));
            }
            assert forall|id: u128| #[trigger] self@.contains_key(id) implies exists|k: int|
                0 <= k < out@.len() && state_key(#[trigger] out@[k]) == id by {
                assert(keys@.contains(id));
                let k = choose|k: int| 0 <= k < keys@.len() && keys@[k] == id;
                assert(state_key(out@[k]) == id);
            }
            assert forall|a: int, b: int|
                0 <= a < out@.len() && 0 <= b < out@.len() && a != b implies state_key(
                #[trigger] out@[a],
            ) != state_key(#[trigger] out@[b]) by {
                assert(keys@[a] != keys@[b]);
            }
        }
        InstanceManagerState { instances: out }
    }

    /// Re-creates exported instances under their old UUIDs, through
    /// `create_engine`, after unregistering every instance (handed back for
    /// destruction). An exported instance is skipped when `import_skipped`
    /// says so or when its plugin refuses it. Gives the imported UUIDs in
    /// order, and the unregistered instances.
    pub fn import_state<F: Fn(&LoadedPlugin, usize, &str) -> usize>(
        &mut self,
        state: InstanceManagerState,
        plugin_manager: &PluginManager,
        create_engine: F,
    ) -> (r: Result<(Vec<u128>, Vec<ActiveInstance>), AppError>)
        requires
            forall|p: &LoadedPlugin, i: usize, c: &str| create_engine.requires((p, i, c)),
        ensures
            match r {
                Ok((ids, cleared)) => {
                    &&& lists_each_once(old(self)@, cleared@, |a: ActiveInstance| a.uuid)
                    &&& forall|k: int|
                        0 <= k < cleared@.len() ==> (#[trigger] cleared@[k])@ == old(
                            self,
                        )@[cleared@[k].uuid]
                    &&& import_answer(
                        state.instances@,
                        plugin_manager.plugins@,
                        create_engine,
                        ids@,
                        final(self)@,
                    )
                },
                Err(_) => false,
            },
    {
        let cleared = self.cleanup();
        let ghost entries = state.instances@;
        let ghost plugins = plugin_manager.plugins@;
        let ghost mut h: Seq<usize> = Seq::empty();
        let n = state.instances.len();
        let mut ids: Vec<u128> = Vec::new();
        let mut i: usize = 0;
        proof {
            assert(import_upto(entries, plugins, h, 0) == (self@, ids@));
        }
        while i < n
            invariant
                entries == state.instances@,
                plugins == plugin_manager.plugins@,
                n == entries.len(),
                0 <= i <= n,
                h.len() == i,
                import_upto(entries, plugins, h, i as int) == (self@, ids@),
                forall|j: int|
                    0 <= j < i && !import_skipped(
                        entries[j],
                        import_upto(entries, plugins, h, j).0,
                        plugins,
                    ) ==> exists|c: &str|
                        c@ == entries[j].config_json_string@ && #[trigger] call_ensures(
                            create_engine,
                            (&import_plugin(entries[j], plugins), entries[j].engine_index_in_plugin, c),
                            h[j],
                        ),
                forall|p: &LoadedPlugin, i: usize, c: &str| create_engine.requires((p, i, c)),
            decreases n - i,
        {
            let e = &state.instances[i];
            let ghost before = self@;
            let ghost ids_old = ids@;
            let ghost h_old = h;
            proof {
                assert forall|j: int| 0 <= j <= i implies #[trigger] import_upto(entries, plugins, h_old.push(0usize), j)
                    == import_upto(entries, plugins, h_old, j) by {
                    lemma_import_upto_prefix(entries, plugins, h_old, h_old.push(0usize), j);
                }
            }
            let mut handle: usize = 0;
            let mut attempted = false;
            if !self.instances.contains_key(&e.instance_id) {
                match plugin_manager.find_plugin_by_id(e.plugin_id.as_str()) {
                    None => {},
                    Some(plugin) => {
                        if e.engine_index_in_plugin < plugin.engines_info.len() {
                            if check_c_string(e.config_json_string.as_str()).is_ok() {
                                attempted = true;
                                let cs = e.config_json_string.as_str();
                                handle = create_engine(plugin, e.engine_index_in_plugin, cs);
                                proof {
                                    assert(cs@ == entries[i as int].config_json_string@);
                                    assert(*plugin == import_plugin(entries[i as int], plugins));
                                }
                                if handle != 0 {
                                    let engine_name = Some(
                                        plugin.engines_info[e.engine_index_in_plugin].name.clone(),
                                    );
                                    let inst = ActiveInstance {
                                        uuid: e.instance_id,
                                        instance_handle: handle,
                                        plugin_id: plugin.plugin_info.id.clone(),
                                        plugin_name: plugin.plugin_info.name.clone(),
                                        engine_name,
                                        engine_index_in_plugin: e.engine_index_in_plugin,
                                        config_json_string: e.config_json_string.clone(),
                                    };
                                    proof {
                                        assert(inst@ == instance_of(
                                            e.instance_id,
                                            handle,
                                            *plugin,
                                            e.engine_index_in_plugin,
                                            e.config_json_string@,
                                        ));
                                    }
                                    let _ = self.register(inst);
                                    ids.push(e.instance_id);
                                }
                            }
                        }
                    },
                }
            }
            proof {
                assert(attempted == !import_skipped(entries[i as int], before, plugins));
                h = h_old.push(handle);
                assert forall|j: int| 0 <= j <= i implies #[trigger] import_upto(entries, plugins, h, j)
                    == import_upto(entries, plugins, h_old, j) by {
                    lemma_import_upto_prefix(entries, plugins, h_old, h, j);
                }
                assert(h[i as int] == handle);
                assert(import_upto(entries, plugins, h, i as int) == (before, ids_old));
                if attempted && handle != 0 {
                    assert(self@ == before.insert(
                        entries[i as int].instance_id,
                        instance_of(
                            entries[i as int].instance_id,
                            handle,
                            import_plugin(entries[i as int], plugins),
                            entries[i as int].engine_index_in_plugin,
                            entries[i as int].config_json_string@,
                        ),
                    ));
                    assert(ids@ == ids_old.push(entries[i as int].instance_id));
                } else {
                    assert(self@ == before);
                    assert(ids@ == ids_old);
                }
                assert(import_upto(entries, plugins, h, i + 1) == (self@, ids@));
                assert forall|j: int|
                    0 <= j < i + 1 && !import_skipped(
                        entries[j],
                        import_upto(entries, plugins, h, j).0,
                        plugins,
                    ) implies exists|c: &str|
                        c@ == entries[j].config_json_string@ && #[trigger] call_ensures(
                            create_engine,
                            (&import_plugin(entries[j], plugins), entries[j].engine_index_in_plugin, c),
                            h[j],
                        ) by {
                    assert(h[j] == h_old.push(handle)[j]);
                    if j < i {
                        assert(h[j] == h_old[j]);
                    }
                }
            }
            i = i + 1;
        }
        proof {
            assert(import_upto(entries, plugins, h, n as int) == (self@, ids@));
            assert(import_answer(entries, plugins, create_engine, ids@, self@));
        }
        Ok((ids, cleared))
    }
}

proof fn lemma_import_upto_prefix(
    entries: Seq<InstanceState>,
    plugins: Seq<LoadedPlugin>,
    h1: Seq<usize>,
    h2: Seq<usize>,
    n: int,
)
    requires
        0 <= n <= h1.len(),
        n <= h2.len(),
        forall|k: int| 0 <= k < n ==> h1[k] == h2[k],
    ensures
        import_upto(entries, plugins, h1, n) == import_upto(entries, plugins, h2, n),
    decreases n,
{
    if n > 0 {
        lemma_import_upto_prefix(entries, plugins, h1, h2, n - 1);
    }
}

/// Law: importing exported instances whose plugins are all still loaded and
/// accept them again registers every one of them, under its old UUID, with
/// its plugin, engine index and configuration, and nothing else; the
/// imported UUIDs come in the exported order.
pub proof fn law_import_restores_exported(
    entries: Seq<InstanceState>,
    plugins: Seq<LoadedPlugin>,
    handles: Seq<usize>,
)
    requires
        handles.len() == entries.len(),
        forall|a: int, b: int|
            0 <= a < entries.len() && 0 <= b < entries.len() && a != b ==> (#[trigger] entries[a]).instance_id
                != (#[trigger] entries[b]).instance_id,
        forall|i: int| 0 <= i < entries.len() ==> import_resolves(#[trigger] entries[i], plugins),
        forall|i: int| 0 <= i < handles.len() ==> #[trigger] handles[i] != 0,
    ensures
        ({
            let (m, ids) = import_upto(entries, plugins, handles, entries.len() as int);
            &&& ids.len() == entries.len()
            &&& forall|i: int| 0 <= i < entries.len() ==> #[trigger] ids[i] == entries[i].instance_id
            &&& forall|id: u128| #[trigger] m.contains_key(id) <==> exists|i: int|
                0 <= i < entries.len() && (#[trigger] entries[i]).instance_id == id
            &&& forall|i: int|
                0 <= i < entries.len() ==> m[(#[trigger] entries[i]).instance_id] == instance_of(
                    entries[i].instance_id,
                    handles[i],
                    import_plugin(entries[i], plugins),
                    entries[i].engine_index_in_plugin,
                    entries[i].config_json_string@,
                )
        }),
{
    lemma_import_all(entries, plugins, handles, entries.len() as int);
}

proof fn lemma_import_all(
    entries: Seq<InstanceState>,
    plugins: Seq<LoadedPlugin>,
    handles: Seq<usize>,
    n: int,
)
    requires
        0 <= n <= entries.len(),
        handles.len() == entries.len(),
        forall|a: int, b: int|
            0 <= a < entries.len() && 0 <= b < entries.len() && a != b ==> (#[trigger] entries[a]).instance_id
                != (#[trigger] entries[b]).instance_id,
        forall|i: int| 0 <= i < entries.len() ==> import_resolves(#[trigger] entries[i], plugins),
        forall|i: int|
            0 <= i < n && !import_skipped(
                entries[i],
                #[trigger] import_upto(entries, plugins, handles, i).0,
                plugins,
            ) ==> handles[i] != 0,
    ensures
        ({
            let (m, ids) = import_upto(entries, plugins, handles, n);
            &&& ids.len() == n
            &&& forall|i: int| 0 <= i < n ==> #[trigger] ids[i] == entries[i].instance_id
            &&& forall|id: u128| #[trigger] m.contains_key(id) <==> exists|i: int|
                0 <= i < n && (#[trigger] entries[i]).instance_id == id
            &&& forall|i: int|
                0 <= i < n ==> m[(#[trigger] entries[i]).instance_id] == instance_of(
                    entries[i].instance_id,
                    handles[i],
                    import_plugin(entries[i], plugins),
                    entries[i].engine_index_in_plugin,
                    entries[i].config_json_string@,
                )
        }),
    decreases n,
{
    if n > 0 {
        lemma_import_all(entries, plugins, handles, n - 1);
        let (m, ids) = import_upto(entries, plugins, handles, n - 1);
        let e = entries[n - 1];
        assert(!m.contains_key(e.instance_id)) by {
            if m.contains_key(e.instance_id) {
                let i = choose|i: int| 0 <= i < n - 1 && (#[trigger] entries[i]).instance_id == e.instance_id;
                assert(entries[i].instance_id != entries[n - 1].instance_id);
            }
        }
        assert(import_resolves(entries[n - 1], plugins));
        assert(!import_skipped(e, m, plugins));
        assert(handles[n - 1] != 0);
        let (m2, ids2) = import_upto(entries, plugins, handles, n);
        assert forall|id: u128| #[trigger] m2.contains_key(id) <==> exists|i: int|
            0 <= i < n && (#[trigger] entries[i]).instance_id == id by {
            if m2.contains_key(id) && id != e.instance_id {
                assert(m.contains_key(id));
                let i = choose|i: int| 0 <= i < n - 1 && (#[trigger] entries[i]).instance_id == id;
                assert(0 <= i < n && entries[i].instance_id == id);
            }
            if exists|i: int| 0 <= i < n && (#[trigger] entries[i]).instance_id == id {
                let i = choose|i: int| 0 <= i < n && (#[trigger] entries[i]).instance_id == id;
                if i < n - 1 {
                    assert(m.contains_key(id));
                }
            }
        }
        assert forall|i: int|
            0 <= i < n implies m2[(#[trigger] entries[i]).instance_id] == instance_of(
                entries[i].instance_id,
                handles[i],
                import_plugin(entries[i], plugins),
                entries[i].engine_index_in_plugin,
                entries[i].config_json_string@,
            ) by {
            if i < n - 1 {
                assert(entries[i].instance_id != entries[n - 1].instance_id);
            }
        }
    }
}

/// What importing the first `n` exported entries, with the plugins'
/// addresses `h`, leaves, described without the step-by-step import: the
/// imported UUIDs `ids` are distinct and are the registry's UUIDs; the
/// `k`-th came from entry `pos[k]` (the positions increasing, so the UUIDs
/// keep the exported order), whose plugin is loaded and accepted it, and is
/// registered with that plugin, engine index, configuration and address;
/// and every entry whose plugin is loaded and accepted it has its UUID
/// imported, by itself or by an earlier entry.
pub open spec fn imports_in_order(
    entries: Seq<InstanceState>,
    plugins: Seq<LoadedPlugin>,
    h: Seq<usize>,
    n: int,
    ids: Seq<u128>,
    after: Map<u128, InstanceView>,
    pos: Seq<int>,
) -> bool {
    &&& pos.len() == ids.len()
    &&& forall|a: int, b: int| 0 <= a < b < pos.len() ==> #[trigger] pos[a] < #[trigger] pos[b]
    &&& forall|a: int, b: int|
        0 <= a < ids.len() && 0 <= b < ids.len() && a != b ==> #[trigger] ids[a] != #[trigger] ids[b]
    &&& forall|k: int|
        0 <= k < ids.len() ==> {
            let i = #[trigger] pos[k];
            &&& 0 <= i < n
            &&& ids[k] == entries[i].instance_id
            &&& import_resolves(entries[i], plugins)
            &&& h[i] != 0
            &&& after.contains_key(ids[k])
            &&& after[ids[k]] == instance_of(
                ids[k],
                h[i],
                import_plugin(entries[i], plugins),
                entries[i].engine_index_in_plugin,
                entries[i].config_json_string@,
            )
        }
    &&& forall|id: u128| #[trigger] after.contains_key(id) ==> exists|k: int| 0 <= k < ids.len() && #[trigger] ids[k] == id
    &&& forall|i: int|
        0 <= i < n && import_resolves(#[trigger] entries[i], plugins) && h[i] != 0 ==> exists|k: int|
            0 <= k < ids.len() && #[trigger] ids[k] == entries[i].instance_id && pos[k] <= i
}

proof fn lemma_imports_in_order(
    entries: Seq<InstanceState>,
    plugins: Seq<LoadedPlugin>,
    h: Seq<usize>,
    n: int,
) -> (pos: Seq<int>)
    requires
        0 <= n <= entries.len(),
        h.len() == entries.len(),
    ensures
        imports_in_order(
            entries,
            plugins,
            h,
            n,
            import_upto(entries, plugins, h, n).1,
            import_upto(entries, plugins, h, n).0,
            pos,
        ),
    decreases n,
{
    if n == 0 {
        Seq::empty()
    } else {
        let pos0 = lemma_imports_in_order(entries, plugins, h, n - 1);
        let (m, ids) = import_upto(entries, plugins, h, n - 1);
        let e = entries[n - 1];
        let (m2, ids2) = import_upto(entries, plugins, h, n);
        if import_skipped(e, m, plugins) || h[n - 1] == 0 {
            assert forall|i: int|
                0 <= i < n && import_resolves(#[trigger] entries[i], plugins) && h[i] != 0 implies exists|k: int|
                0 <= k < ids.len() && #[trigger] ids[k] == entries[i].instance_id && pos0[k] <= i by {
                if i == n - 1 {
                    assert(m.contains_key(e.instance_id));
                    let k = choose|k: int| 0 <= k < ids.len() && #[trigger] ids[k] == e.instance_id;
                    assert(pos0[k] < n - 1);
                }
            }
            pos0
        } else {
            let pos = pos0.push(n - 1);
            assert(!m.contains_key(e.instance_id));
            assert forall|k: int| 0 <= k < ids.len() implies #[trigger] ids[k] != e.instance_id by {
                let i = pos0[k];
                assert(m.contains_key(ids[k]));
            }
            assert(m2 == m.insert(e.instance_id, instance_of(
                e.instance_id,
                h[n - 1],
                import_plugin(e, plugins),
                e.engine_index_in_plugin,
                e.config_json_string@,
            )));
            assert(ids2 == ids.push(e.instance_id));
            assert forall|a: int, b: int| 0 <= a < b < pos.len() implies #[trigger] pos[a] < #[trigger] pos[b] by {
                if b < pos0.len() {
                    assert(pos[a] == pos0[a] && pos[b] == pos0[b]);
                } else {
                    assert(pos[a] == pos0[a]);
                    let i = pos0[a];
                }
            }
            assert forall|a: int, b: int|
                0 <= a < ids2.len() && 0 <= b < ids2.len() && a != b implies #[trigger] ids2[a]
                    != #[trigger] ids2[b] by {
                if a < ids.len() && b < ids.len() {
                    assert(ids2[a] == ids[a] && ids2[b] == ids[b]);
                } else if a < ids.len() {
                    assert(ids2[a] == ids[a]);
                } else if b < ids.len() {
                    assert(ids2[b] == ids[b]);
                }
            }
            assert forall|k: int| 0 <= k < ids2.len() implies {
                let i = #[trigger] pos[k];
                &&& 0 <= i < n
                &&& ids2[k] == entries[i].instance_id
                &&& import_resolves(entries[i], plugins)
                &&& h[i] != 0
                &&& m2.contains_key(ids2[k])
                &&& m2[ids2[k]] == instance_of(
                    ids2[k],
                    h[i],
                    import_plugin(entries[i], plugins),
                    entries[i].engine_index_in_plugin,
                    entries[i].config_json_string@,
                )
            } by {
                if k < ids.len() {
                    assert(pos[k] == pos0[k]);
                    assert(ids2[k] == ids[k]);
                    let i = pos0[k];
                    assert(ids[k] != e.instance_id);
                } else {
                    assert(pos[k] == n - 1);
                    assert(ids2[k] == e.instance_id);
                }
            }
            assert forall|id: u128| #[trigger] m2.contains_key(id) implies exists|k: int|
                0 <= k < ids2.len() && #[trigger] ids2[k] == id by {
                if id == e.instance_id {
                    assert(ids2[ids.len() as int] == id);
                } else {
                    assert(m.contains_key(id));
                    let k = choose|k: int| 0 <= k < ids.len() && #[trigger] ids[k] == id;
                    assert(ids2[k] == id);
                }
            }
            assert forall|i: int|
                0 <= i < n && import_resolves(#[trigger] entries[i], plugins) && h[i] != 0 implies exists|k: int|
                0 <= k < ids2.len() && #[trigger] ids2[k] == entries[i].instance_id && pos[k] <= i by {
                if i == n - 1 {
                    assert(ids2[ids.len() as int] == e.instance_id);
                    assert(pos[ids.len() as int] == n - 1);
                } else {
                    let k = choose|k: int|
                        0 <= k < ids.len() && #[trigger] ids[k] == entries[i].instance_id && pos0[k] <= i;
                    assert(ids2[k] == ids[k] && pos[k] == pos0[k]);
                }
            }
            pos
        }
    }
}

/// Law: the outcome of an import, however it was reached, is described by
/// `imports_in_order`: distinct imported UUIDs in the exported order, each
/// from an entry whose plugin is loaded and accepted it, registered with
/// that plugin, engine index and configuration; the registry holds exactly
/// those UUIDs; and every entry whose plugin accepted it has its UUID
/// imported, by itself or by an earlier entry.
pub proof fn law_import_in_order<F: Fn(&LoadedPlugin, usize, &str) -> usize>(
    entries: Seq<InstanceState>,
    plugins: Seq<LoadedPlugin>,
    create: F,
    ids: Seq<u128>,
    after: Map<u128, InstanceView>,
)
    requires
        import_answer(entries, plugins, create, ids, after),
    ensures
        exists|h: Seq<usize>, pos: Seq<int>|
            h.len() == entries.len() && #[trigger] imports_in_order(
                entries,
                plugins,
                h,
                entries.len() as int,
                ids,
                after,
                pos,
            ),
{
    let h = choose|h: Seq<usize>|
        {
            &&& h.len() == entries.len()
            &&& #[trigger] import_upto(entries, plugins, h, entries.len() as int) == (after, ids)
            &&& forall|i: int|
                0 <= i < h.len() && !import_skipped(
                    entries[i],
                    import_upto(entries, plugins, h, i).0,
                    plugins,
                ) ==> exists|c: &str|
                    c@ == entries[i].config_json_string@ && #[trigger] call_ensures(
                        create,
                        (&import_plugin(entries[i], plugins), entries[i].engine_index_in_plugin, c),
                        h[i],
                    )
        };
    let pos = lemma_imports_in_order(entries, plugins, h, entries.len() as int);
    assert(imports_in_order(entries, plugins, h, entries.len() as int, ids, after, pos));
}

/// Law: exporting the registry and importing the export again, with every
/// exported instance's plugin still loaded (each plugin's id the one it
/// describes itself by) and the plugins creating every engine, imports every
/// exported UUID in the exported order and ends with a registry whose export
/// is the same, up to order: the same UUIDs, each with its plugin id,
/// engine index and configuration.
pub proof fn law_export_then_import<F: Fn(&LoadedPlugin, usize, &str) -> usize>(
    before: Map<u128, InstanceView>,
    entries: Seq<InstanceState>,
    plugins: Seq<LoadedPlugin>,
    create: F,
    ids: Seq<u128>,
    after: Map<u128, InstanceView>,
)
    requires
        is_export(before, entries),
        forall|i: int| 0 <= i < entries.len() ==> import_resolves(#[trigger] entries[i], plugins),
        forall|k: int| 0 <= k < plugins.len() ==> (#[trigger] plugins[k]).id@ == plugins[k].plugin_info.id@,
        forall|p: &LoadedPlugin, i: usize, c: &str, h: usize| #[trigger] call_ensures(create, (p, i, c), h) ==> h != 0,
        import_answer(entries, plugins, create, ids, after),
    ensures
        ids.len() == entries.len(),
        forall|i: int| 0 <= i < entries.len() ==> #[trigger] ids[i] == entries[i].instance_id,
        is_export(after, entries),
        after.dom() == before.dom(),
        forall|id: u128| #[trigger] after.contains_key(id) ==> exported(after[id]) == exported(before[id]),
{
    let h = choose|h: Seq<usize>|
        {
            &&& h.len() == entries.len()
            &&& #[trigger] import_upto(entries, plugins, h, entries.len() as int) == (after, ids)
            &&& forall|i: int|
                0 <= i < h.len() && !import_skipped(
                    entries[i],
                    import_upto(entries, plugins, h, i).0,
                    plugins,
                ) ==> exists|c: &str|
                    c@ == entries[i].config_json_string@ && #[trigger] call_ensures(
                        create,
                        (&import_plugin(entries[i], plugins), entries[i].engine_index_in_plugin, c),
                        h[i],
                    )
        };
    assert forall|a: int, b: int|
        0 <= a < entries.len() && 0 <= b < entries.len() && a != b implies (#[trigger] entries[a]).instance_id
            != (#[trigger] entries[b]).instance_id by {
        assert(state_key(entries[a]) != state_key(entries[b]));
    }
    assert forall|i: int|
        0 <= i < entries.len() && !import_skipped(
            entries[i],
            #[trigger] import_upto(entries, plugins, h, i).0,
            plugins,
        ) implies h[i] != 0 by {
        let c = choose|c: &str|
            c@ == entries[i].config_json_string@ && #[trigger] call_ensures(
                create,
                (&import_plugin(entries[i], plugins), entries[i].engine_index_in_plugin, c),
                h[i],
            );
    }
    lemma_import_all(entries, plugins, h, entries.len() as int);
    assert forall|i: int| 0 <= i < entries.len() implies #[trigger] exported(after[entries[i].instance_id])
        == state_entry(entries[i]) by {
        let e = entries[i];
        let k = last_with_id(plugins, e.plugin_id@)->0;
        lemma_last_with_id(plugins, e.plugin_id@);
        assert(plugins[k].plugin_info.id@ == e.plugin_id@);
    }
    assert forall|k: int| 0 <= k < entries.len() implies after.contains_key(state_key(#[trigger] entries[k])) by {
        assert(0 <= k < entries.len() && entries[k].instance_id == state_key(entries[k]));
    }
    assert forall|id: u128| #[trigger] after.contains_key(id) implies exists|k: int|
        0 <= k < entries.len() && state_key(#[trigger] entries[k]) == id by {
        let k = choose|k: int| 0 <= k < entries.len() && (#[trigger] entries[k]).instance_id == id;
        assert(state_key(entries[k]) == id);
    }
    assert forall|id: u128| #[trigger] after.contains_key(id) implies exported(after[id]) == exported(before[id]) by {
        let k = choose|k: int| 0 <= k < entries.len() && (#[trigger] entries[k]).instance_id == id;
        assert(exported(after[entries[k].instance_id]) == state_entry(entries[k]));
        assert(before.contains_key(state_key(entries[k])));
    }
    assert(after.dom() =~= before.dom()) by {
        assert forall|id: u128| before.contains_key(id) implies after.contains_key(id) by {
            let k = choose|k: int| 0 <= k < entries.len() && state_key(#[trigger] entries[k]) == id;
            assert(after.contains_key(entries[k].instance_id));
        }
    }
}

proof fn lemma_last_with_id(plugins: Seq<LoadedPlugin>, id: Seq<char>)
    ensures
        last_with_id(plugins, id) matches Some(k) ==> 0 <= k < plugins.len() && plugins[k].id@ == id,
    decreases plugins.len(),
{
    if plugins.len() > 0 && plugins.last().id@ != id {
        lemma_last_with_id(plugins.drop_last(), id);
    }
}

/// Law: an instance created from a plugin is listed with its own UUID, the
/// plugin's id and the plugin's name (each from its own field), and the name
/// of the engine at its index, or "Unknown Engine" when the plugin has none
/// there.
pub proof fn law_listing_names_the_plugin(
    id: u128,
    handle: usize,
    plugin: LoadedPlugin,
    index: usize,
    config: Seq<char>,
)
    ensures
        ({
            let (uuid, plugin_id, plugin_name, engine_name) = listed(
                instance_of(id, handle, plugin, index, config),
            );
            &&& uuid == id
            &&& plugin_id == plugin.plugin_info.id@
            &&& plugin_name == plugin.plugin_info.name@
            &&& engine_name == (if index < plugin.engines_info@.len() {
                plugin.engines_info@[index as int].name@
            } else {
                "Unknown Engine"@
            })
        }),
{
}

/// Law: deleting an instance right after creating it hands back the created
/// instance and leaves the registry as it was before the creation.
pub proof fn law_delete_undoes_create(m: Map<u128, InstanceView>, id: u128, created: InstanceView)
    requires
        !m.contains_key(id),
    ensures
        m.insert(id, created).contains_key(id),
        m.insert(id, created)[id] == created,
        m.insert(id, created).remove(id) == m,
{
    assert(m.insert(id, created).remove(id) =~= m);
}

/// Law: an instance can be deleted once; deleting it again finds nothing.
pub proof fn law_delete_once(m: Map<u128, InstanceView>, id: u128)
    ensures
        !m.remove(id).contains_key(id),
{
}
} // verus!
