//! A plugin loaded in the plugin host: building its description from the
//! C metadata, finding its engines and validating engine configurations.
//!
//! Loading the library and calling through its function pointers stays
//! with the FFI glue, which hands over what the calls returned.
use crate::handlers::{message_text, raw_messages, RawValidationResult};
use crate::instance_manager::{c_string_problem, c_string_problem_text};
use crate::models::{EngineConfigValidationResult, HostEngineInfo, HostPluginInfo, PluginHostError};
use crate::plugin_host::plugin_ffi::UpsclrErrorCode;
use crate::plugin_manager::{
    c_field, c_text, json_check, opt_bytes, raw_engine_view, raw_engines_view, with_detail,
    idx_from, RawEngineInfo, RawPluginInfo,
};
use vstd::prelude::*;
use vstd::string::*;

verus! {

/// A plugin loaded in the plugin host, as the logic sees it.
pub struct LoadedPlugin {
    /// Identifier assigned by the main process.
    pub id: u128,
    pub path: String,
    pub plugin_info: HostPluginInfo,
}

/// What `serde_json::to_string` writes for the JSON value read from a text
/// (compact JSON).
pub uninterp spec fn json_compact(text: Seq<char>) -> Seq<char>;

/// `serde_json::from_str::<serde_json::Value>` followed by writing the
/// value back as compact JSON.
///
/// Trusted: reading fails exactly as `json_check` says (with the error's
/// `{:?}` rendering); a value read is always written back (serialising a
/// `Value` cannot fail), as `json_compact` of the text.
#[verifier::external_body]
fn reserialize_json(text: &str) -> (r: Result<String, String>)
    ensures
        match r {
            Ok(s) => json_check(text@) is Ok && s@ == json_compact(text@),
            Err(e) => json_check(text@) == Err::<(), Seq<char>>(e@),
        },
{
    match serde_json::from_str::<serde_json::Value>(text) {
        Ok(v) => Ok(v.to_string()),
        Err(e) => Err(format!("{:?}", e)),
    }
}

/// The index of the first engine with the given name.
pub open spec fn host_engine_named(engines: Seq<HostEngineInfo>, name: Seq<char>) -> Option<int>
    decreases engines.len(),
{
    if engines.len() == 0 {
        None
    } else if engines[0].engine_name@ == name {
        Some(0)
    } else {
        match host_engine_named(engines.subrange(1, engines.len() as int), name) {
            Some(i) => Some(i + 1),
            None => None,
        }
    }
}

proof fn lemma_host_engine_skip(engines: Seq<HostEngineInfo>, name: Seq<char>, i: int)
    requires
        0 <= i <= engines.len(),
        forall|k: int| 0 <= k < i ==> (#[trigger] engines[k]).engine_name@ != name,
    ensures
        host_engine_named(engines, name) == (match host_engine_named(
            engines.subrange(i, engines.len() as int),
            name,
        ) {
            Some(j) => Some(j + i),
            None => None::<int>,
        }),
    decreases i,
{
    if i > 0 {
        let t = engines.subrange(1, engines.len() as int);
        assert forall|k: int| 0 <= k < i - 1 implies (#[trigger] t[k]).engine_name@ != name by {
            assert(t[k] == engines[k + 1]);
        }
        lemma_host_engine_skip(t, name, i - 1);
        assert(t.subrange(i - 1, t.len() as int) =~= engines.subrange(i, engines.len() as int));
    } else {
        assert(engines.subrange(0, engines.len() as int) =~= engines);
        match host_engine_named(engines, name) {
            Some(j) => {},
            None => {},
        }
    }
}

/// The messages of an array that can be read, in order; unreadable ones
/// (null or not UTF-8) are left out.
pub open spec fn readable_messages(raws: Seq<Option<Seq<u8>>>) -> Seq<Seq<char>>
    decreases raws.len(),
{
    if raws.len() == 0 {
        Seq::empty()
    } else {
        let rest = readable_messages(raws.drop_last());
        match c_text(raws.last()) {
            Ok(t) => rest.push(t),
            Err(_) => rest,
        }
    }
}

fn read_readable(v: &Option<Vec<Option<Vec<u8>>>>) -> (r: Vec<String>)
    ensures
        r@.map_values(|s: String| s@) == readable_messages(raw_messages(*v)),
{
    let mut out: Vec<String> = Vec::new();
    match v {
        None => {
            assert(out@.map_values(|s: String| s@) =~= readable_messages(raw_messages(*v)));
        },
        Some(items) => {
            let ghost raw = raw_messages(*v);
            let n = items.len();
            let mut i: usize = 0;
            proof {
                assert(raw.subrange(0, 0) =~= Seq::<Option<Seq<u8>>>::empty());
                assert(out@.map_values(|s: String| s@) =~= Seq::<Seq<char>>::empty());
            }
            while i < n
                invariant
                    raw == items@.map_values(|b: Option<Vec<u8>>| opt_bytes(b)),
                    n == items@.len(),
                    0 <= i <= n,
                    out@.map_values(|s: String| s@) == readable_messages(raw.subrange(0, i as int)),
                decreases n - i,
            {
                proof {
                    let t = raw.subrange(0, i + 1);
                    assert(t.drop_last() =~= raw.subrange(0, i as int));
                    assert(t.last() == opt_bytes(items@[i as int]));
                }
                match c_field(&items[i]) {
                    Ok(t) => {
                        let ghost before = out@;
                        out.push(t);
                        proof {
                            assert(out@.map_values(|s: String| s@) =~= before.map_values(
                                |s: String| s@,
                            ).push(t@));
                        }
                    },
                    Err(_) => {},
                }
                i = i + 1;
            }
            proof {
                assert(raw.subrange(0, n as int) =~= raw);
            }
        },
    }
    out
}

/// The texts of a list of strings.
pub open spec fn string_texts(v: Seq<String>) -> Seq<Seq<char>> {
    v.map_values(|s: String| s@)
}

/// What validating `config` for engine `engine_name` answers with a
/// plugin, its validation reaching the plugin through `validate`.
pub open spec fn validation_outcome<V: Fn(usize, &str) -> Option<RawValidationResult>>(
    plugin: LoadedPlugin,
    engine_name: Seq<char>,
    config: &str,
    validate: V,
    r: Result<EngineConfigValidationResult, PluginHostError>,
) -> bool {
    match host_engine_named(plugin.plugin_info.supported_engines@, engine_name) {
        None => r matches Err(PluginHostError::EngineNotFound(m)) && m@ == engine_name,
        Some(index) => match c_string_problem(config@) {
            Some(p) => r matches Err(PluginHostError::InvalidParameter(m)) && m@
                == "Invalid config JSON: "@ + p,
            None => exists|raw: Option<RawValidationResult>|
                #[trigger] call_ensures(validate, (index as usize, config), raw) && match raw {
                    None => r matches Err(PluginHostError::OperationFailed(m)) && m@
                        == "Plugin returned NULL from validation function."@,
                    Some(v) => r matches Ok(res) && res.is_valid == v.is_valid
                        && string_texts(res.warning_messages@) == (if v.warning_count
                        > 0 {
                        readable_messages(raw_messages(v.warning_messages))
                    } else {
                        Seq::empty()
                    }) && string_texts(res.error_messages@) == (if v.error_count > 0 {
                        readable_messages(raw_messages(v.error_messages))
                    } else {
                        Seq::empty()
                    }),
                },
        },
    }
}

impl LoadedPlugin {
    /// The index of the plugin's first engine with the given name.
    pub fn find_engine_index(&self, engine_name: &str) -> (r: Option<usize>)
        ensures
            match r {
                Some(i) => host_engine_named(self.plugin_info.supported_engines@, engine_name@)
                    == Some(i as int),
                None => host_engine_named(self.plugin_info.supported_engines@, engine_name@) is None,
            },
    {
        let engines = &self.plugin_info.supported_engines;
        let n = engines.len();
        let mut i: usize = 0;
        while i < n
            invariant
                engines@ == self.plugin_info.supported_engines@,
                n == engines@.len(),
                0 <= i <= n,
                forall|k: int| 0 <= k < i ==> (#[trigger] engines@[k]).engine_name@ != engine_name@,
            decreases n - i,
        {
            if crate::text::str_eq(engines[i].engine_name.as_str(), engine_name) {
                proof {
                    lemma_host_engine_skip(engines@, engine_name@, i as int);
                    assert(engines@.subrange(i as int, n as int)[0] == engines@[i as int]);
                }
                return Some(i);
            }
            i = i + 1;
        }
        proof {
            lemma_host_engine_skip(engines@, engine_name@, n as int);
        }
        None
    }

    /// Validates an engine configuration (JSON text) with the plugin,
    /// through `validate`: the engine must exist (`EngineNotFound`), the
    /// text must be a C string (`InvalidParameter`) and the plugin must
    /// answer (`OperationFailed`). The readable messages are kept.
    pub fn validate_engine_config<V: Fn(usize, &str) -> Option<RawValidationResult>>(
        &self,
        engine_name: &str,
        config: &str,
        validate: V,
    ) -> (r: Result<EngineConfigValidationResult, PluginHostError>)
        requires
            forall|i: usize, c: &str| validate.requires((i, c)),
        ensures
            validation_outcome(*self, engine_name@, config, validate, r),
    {
        let index = match self.find_engine_index(engine_name) {
            Some(i) => i,
            None => {
                return Err(PluginHostError::EngineNotFound(String::from_str(engine_name)));
            },
        };
        match c_string_problem_text(config) {
            Some(p) => {
                return Err(
                    PluginHostError::InvalidParameter(
                        String::from_str("Invalid config JSON: ").concat(p.as_str()),
                    ),
                );
            },
            None => {},
        }
        let raw = validate(index, config);
        let res = match &raw {
            None => Err(
                PluginHostError::OperationFailed(
                    String::from_str("Plugin returned NULL from validation function."),
                ),
            ),
            Some(v) => {
                let warning_messages = if v.warning_count > 0 {
                    read_readable(&v.warning_messages)
                } else {
                    Vec::new()
                };
                let error_messages = if v.error_count > 0 {
                    read_readable(&v.error_messages)
                } else {
                    Vec::new()
                };
                proof {
                    assert(string_texts(Seq::<String>::empty()) =~= Seq::<Seq<char>>::empty());
                }
                Ok(EngineConfigValidationResult { is_valid: v.is_valid, warning_messages, error_messages })
            },
        };
        res
    }
}

/// The description of host engine `i` made from its C strings (name and
/// schema), or the message of the first that cannot be read.
pub open spec fn host_engine_from_raw(
    raw: Option<(Option<Seq<u8>>, Option<Seq<u8>>, Option<Seq<u8>>, Option<Seq<u8>>)>,
    i: int,
    path_text: Seq<char>,
) -> Result<(Seq<char>, Seq<char>), Seq<char>> {
    match raw {
        None => Err("Plugin at "@ + path_text
            + " returned NULL from upsclr_plugin_get_engine_info for engine index "@
            + crate::text::decimal_text(i as nat)),
        Some((n, _, _, s)) => match c_text(n) {
            Err(e) => Err(with_detail("Invalid engine name"@ + idx_from(i), path_text, e)),
            Ok(name) => match c_text(s) {
                Err(e) => Err(with_detail("Invalid engine schema"@ + idx_from(i), path_text, e)),
                Ok(schema) => match json_check(schema) {
                    Err(e) => Err(with_detail("Invalid JSON schema"@ + idx_from(i), path_text, e)),
                    Ok(()) => Ok((name, json_compact(schema))),
                },
            },
        },
    }
}

/// The host engine descriptions made from all engines' C strings, in
/// order, or the message of the first engine that fails.
pub open spec fn host_engines_from_raw(
    raws: Seq<Option<(Option<Seq<u8>>, Option<Seq<u8>>, Option<Seq<u8>>, Option<Seq<u8>>)>>,
    path_text: Seq<char>,
) -> Result<Seq<(Seq<char>, Seq<char>)>, Seq<char>>
    decreases raws.len(),
{
    if raws.len() == 0 {
        Ok(Seq::empty())
    } else {
        match host_engines_from_raw(raws.drop_last(), path_text) {
            Err(e) => Err(e),
            Ok(es) => match host_engine_from_raw(raws.last(), raws.len() - 1, path_text) {
                Err(e) => Err(e),
                Ok(x) => Ok(es.push(x)),
            },
        }
    }
}

proof fn lemma_host_engines_error_propagates(
    raws: Seq<Option<(Option<Seq<u8>>, Option<Seq<u8>>, Option<Seq<u8>>, Option<Seq<u8>>)>>,
    path_text: Seq<char>,
    j: int,
)
    requires
        0 <= j <= raws.len(),
        host_engines_from_raw(raws.subrange(0, j), path_text) is Err,
    ensures
        host_engines_from_raw(raws, path_text) == host_engines_from_raw(raws.subrange(0, j), path_text),
    decreases raws.len() - j,
{
    if j < raws.len() {
        assert(raws.drop_last().subrange(0, j) =~= raws.subrange(0, j));
        lemma_host_engines_error_propagates(raws.drop_last(), path_text, j);
    } else {
        assert(raws.subrange(0, j) =~= raws);
    }
}

/// The plain view of a host engine description: name and schema text.
pub open spec fn host_engine_view(e: HostEngineInfo) -> (Seq<char>, Seq<char>) {
    (e.engine_name@, e.engine_config_schema@)
}

/// The host engine descriptions as plain views.
pub open spec fn host_engine_views(es: Seq<HostEngineInfo>) -> Seq<(Seq<char>, Seq<char>)> {
    es.map_values(|e: HostEngineInfo| host_engine_view(e))
}

/// What a plugin's initialisation code and C metadata make in the plugin
/// host: name, version, description and engines, or the message of the
/// first failure. The engines are read before the plugin's own strings.
pub open spec fn host_plugin_from_raw(
    init: UpsclrErrorCode,
    info: Option<(Option<Seq<u8>>, Option<Seq<u8>>, Option<Seq<u8>>)>,
    raws: Seq<Option<(Option<Seq<u8>>, Option<Seq<u8>>, Option<Seq<u8>>, Option<Seq<u8>>)>>,
    path_text: Seq<char>,
) -> Result<((Seq<char>, Seq<char>, Seq<char>), Seq<(Seq<char>, Seq<char>)>), Seq<char>> {
    if init != UpsclrErrorCode::Success {
        Err("Plugin at "@ + path_text + " failed to initialize with error code: "@ + init.debug_name())
    } else {
        match info {
            None => Err("Plugin at "@ + path_text + " returned NULL from upsclr_plugin_get_info"@),
            Some((n, v, d)) => match host_engines_from_raw(raws, path_text) {
                Err(e) => Err(e),
                Ok(es) => match c_text(n) {
                    Err(e) => Err(with_detail("Invalid plugin name from "@, path_text, e)),
                    Ok(name) => match c_text(v) {
                        Err(e) => Err(with_detail("Invalid plugin version from "@, path_text, e)),
                        Ok(ver) => match c_text(d) {
                            Err(e) => Err(with_detail("Invalid plugin description from "@, path_text, e)),
                            Ok(desc) => Ok(((name, ver, desc), es)),
                        },
                    },
                },
            },
        }
    }
}

fn load_error(head: &str, path_text: &str, detail: &str) -> (r: PluginHostError)
    ensures
        r matches PluginHostError::PluginLoadError(m) && m@ == head@ + path_text@ + detail@,
{
    PluginHostError::PluginLoadError(String::from_str(head).concat(path_text).concat(detail))
}

fn host_engine_info_from_raw(raw: &Option<RawEngineInfo>, i: usize, path_text: &str) -> (r: Result<
    HostEngineInfo,
    String,
>)
    ensures
        match (r, host_engine_from_raw(raw_engine_view(*raw), i as int, path_text@)) {
            (Ok(e), Ok(x)) => host_engine_view(e) == x,
            (Err(m), Err(t)) => m@ == t,
            _ => false,
        },
{
    let raw = match raw {
        None => {
            return Err(
                String::from_str("Plugin at ").concat(path_text).concat(
                    " returned NULL from upsclr_plugin_get_engine_info for engine index ",
                ).concat(crate::text::decimal_string(i as u64).as_str()),
            );
        },
        Some(r) => r,
    };
    let idx = String::from_str(" (idx ").concat(crate::text::decimal_string(i as u64).as_str()).concat(
        ") from ",
    );
    let name = match c_field(&raw.name) {
        Ok(s) => s,
        Err(e) => {
            return Err(
                String::from_str("Invalid engine name").concat(idx.as_str()).concat(path_text).concat(
                    ": ",
                ).concat(e.as_str()),
            );
        },
    };
    let schema = match c_field(&raw.config_json_schema) {
        Ok(s) => s,
        Err(e) => {
            return Err(
                String::from_str("Invalid engine schema").concat(idx.as_str()).concat(
                    path_text,
                ).concat(": ").concat(e.as_str()),
            );
        },
    };
    let compact = match reserialize_json(schema.as_str()) {
        Ok(s) => s,
        Err(e) => {
            return Err(
                String::from_str("Invalid JSON schema").concat(idx.as_str()).concat(path_text).concat(
                    ": ",
                ).concat(e.as_str()),
            );
        },
    };
    Ok(HostEngineInfo { engine_name: name, engine_config_schema: compact })
}

/// Builds the description of a plugin loaded in the plugin host from what
/// its library returned: the initialisation code, the plugin information
/// (`None` when `upsclr_plugin_get_info` returned NULL) and each engine's
/// information (`None` for NULL), in index order. `path_text` is the `{:?}`
/// rendering of the library path. Every failure is a `PluginLoadError`.
pub fn assemble_host_plugin(
    plugin_id: u128,
    path: String,
    path_text: &str,
    init: UpsclrErrorCode,
    info: &Option<RawPluginInfo>,
    engines: &Vec<Option<RawEngineInfo>>,
) -> (r: Result<HostPluginInfo, PluginHostError>)
    ensures
        match host_plugin_from_raw(
            init,
            match *info {
                Some(i) => Some((opt_bytes(i.name), opt_bytes(i.version), opt_bytes(i.description))),
                None => None,
            },
            raw_engines_view(engines@),
            path_text@,
        ) {
            Ok(((n, v, d), es)) => r matches Ok(p) && {
                &&& p.plugin_id == plugin_id
                &&& p.path@ == path@
                &&& p.name@ == n
                &&& p.version@ == v
                &&& p.author@.len() == 0
                &&& p.description@ == d
                &&& host_engine_views(p.supported_engines@) == es
                &&& p.engine_instances@.len() == 0
            },
            Err(t) => r matches Err(PluginHostError::PluginLoadError(m)) && m@ == t,
        },
{
    if init != UpsclrErrorCode::Success {
        return Err(
            load_error("Plugin at ", path_text, String::from_str(" failed to initialize with error code: ").concat(init.debug_text().as_str()).as_str()),
        );
    }
    let pinfo = match info {
        None => {
            return Err(load_error("Plugin at ", path_text, " returned NULL from upsclr_plugin_get_info"));
        },
        Some(i) => i,
    };
    let ghost raws = raw_engines_view(engines@);
    let mut out: Vec<HostEngineInfo> = Vec::new();
    let n = engines.len();
    let mut i: usize = 0;
    proof {
        assert(raws.subrange(0, 0) =~= Seq::empty());
        assert(host_engine_views(out@) =~= Seq::empty());
    }
    while i < n
        invariant
            init == UpsclrErrorCode::Success,
            *info == Some(*pinfo),
            n == engines@.len(),
            raws == raw_engines_view(engines@),
            0 <= i <= n,
            host_engines_from_raw(raws.subrange(0, i as int), path_text@) == Ok::<
                Seq<(Seq<char>, Seq<char>)>,
                Seq<char>,
            >(host_engine_views(out@)),
        decreases n - i,
    {
        proof {
            let t = raws.subrange(0, i + 1);
            assert(t.drop_last() =~= raws.subrange(0, i as int));
            assert(raws[i as int] == raw_engine_view(engines@[i as int]));
        }
        match host_engine_info_from_raw(&engines[i], i, path_text) {
            Ok(e) => {
                let ghost old_out = out@;
                out.push(e);
                proof {
                    assert(host_engine_views(out@) =~= host_engine_views(old_out).push(
                        host_engine_view(e),
                    ));
                }
            },
            Err(m) => {
                proof {
                    lemma_host_engines_error_propagates(raws, path_text@, i + 1);
                }
                return Err(PluginHostError::PluginLoadError(m));
            },
        }
        i = i + 1;
    }
    proof {
        assert(raws.subrange(0, n as int) =~= raws);
    }
    let name = match c_field(&pinfo.name) {
        Ok(s) => s,
        Err(e) => {
            return Err(load_error("Invalid plugin name from ", path_text, String::from_str(": ").concat(e.as_str()).as_str()));
        },
    };
    let version = match c_field(&pinfo.version) {
        Ok(s) => s,
        Err(e) => {
            return Err(load_error("Invalid plugin version from ", path_text, String::from_str(": ").concat(e.as_str()).as_str()));
        },
    };
    let description = match c_field(&pinfo.description) {
        Ok(s) => s,
        Err(e) => {
            return Err(load_error("Invalid plugin description from ", path_text, String::from_str(": ").concat(e.as_str()).as_str()));
        },
    };
    let author = String::from_str("");
    proof {
        reveal_strlit("");
    }
    Ok(
        HostPluginInfo {
            plugin_id,
            path,
            name,
            version,
            author,
            description,
            supported_engines: out,
            engine_instances: Vec::new(),
        },
    )
}

} // verus!
