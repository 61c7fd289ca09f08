//! Bookkeeping of the loaded plugins: which files are plugin libraries, how
//! a plugin's C metadata becomes its description, and lookup by plugin id.
//!
//! Loading the shared library and calling into it stays with the FFI glue;
//! it hands over the C strings it read as bytes (`None` for a null pointer).
use crate::error::AppError;
use crate::plugin_ffi::UpsclrErrorCode;
use crate::text::has_prefix;
use vstd::prelude::*;
use vstd::string::*;
use vstd::utf8::*;

verus! {

/// Basic information about a plugin.
#[derive(Clone, Debug)]
pub struct PluginInfo {
    pub id: String,
    pub name: String,
    pub version: String,
    pub description: String,
}

/// Information about one upscale engine of a plugin.
#[derive(Clone, Debug)]
pub struct EngineInfo {
    pub name: String,
    pub description: String,
    pub version: String,
    /// The engine's configuration JSON schema, as JSON text.
    pub config_schema: String,
    /// Id of the plugin this engine belongs to.
    pub plugin_id: String,
    /// Index of the engine within its plugin.
    pub engine_index_in_plugin: usize,
}

/// A successfully loaded plugin: its id (the library's file name), path and
/// the description of its engines.
#[derive(Clone, Debug)]
pub struct LoadedPlugin {
    pub id: String,
    pub path: String,
    pub plugin_info: PluginInfo,
    pub engines_info: Vec<EngineInfo>,
}

/// All loaded plugins, in load order.
pub struct PluginManager {
    pub plugins: Vec<LoadedPlugin>,
}

/// What is kept of the loaded plugins across a reset: their library paths.
#[derive(Debug, Clone)]
pub struct PluginManagerState {
    pub plugin_paths: Vec<String>,
}

/// The C strings of a plugin's `UpsclrPluginInfo` (`None` for a null pointer).
pub struct RawPluginInfo {
    pub name: Option<Vec<u8>>,
    pub version: Option<Vec<u8>>,
    pub description: Option<Vec<u8>>,
}

/// The C strings of an engine's `UpsclrEngineInfo` (`None` for a null pointer).
pub struct RawEngineInfo {
    pub name: Option<Vec<u8>>,
    pub description: Option<Vec<u8>>,
    pub version: Option<Vec<u8>>,
    pub config_json_schema: Option<Vec<u8>>,
}

pub open spec fn opt_bytes(b: Option<Vec<u8>>) -> Option<Seq<u8>> {
    match b {
        Some(v) => Some(v@),
        None => None,
    }
}

/// How `std::str::from_utf8` renders its error for these bytes.
pub uninterp spec fn utf8_error_text(bytes: Seq<u8>) -> Seq<char>;

/// Whether `serde_json` reads the text as JSON (`Ok`), else its error's
/// `{:?}` rendering.
pub uninterp spec fn json_check(text: Seq<char>) -> Result<(), Seq<char>>;

/// `std::str::from_utf8`, into an owned text.
///
/// Trusted: std documents that it succeeds exactly for valid UTF-8, whose
/// characters the text then holds; the error's rendering is left named.
#[verifier::external_body]
fn string_from_utf8(bytes: &[u8]) -> (r: Result<String, String>)
    ensures
        match r {
            Ok(s) => valid_utf8(bytes@) && s@ == decode_utf8(bytes@),
            Err(e) => !valid_utf8(bytes@) && e@ == utf8_error_text(bytes@),
        },
{
    match std::str::from_utf8(bytes) {
        Ok(s) => Ok(s.to_string()),
        Err(e) => Err(e.to_string()),
    }
}

/// `serde_json::from_str::<serde_json::Value>`, keeping only whether it
/// succeeded.
///
/// Trusted: the outcome is `json_check` of the text.
#[verifier::external_body]
fn check_json(text: &str) -> (r: Result<(), String>)
    ensures
        match r {
            Ok(()) => json_check(text@) is Ok,
            Err(e) => json_check(text@) == Err::<(), Seq<char>>(e@),
        },
{
    match serde_json::from_str::<serde_json::Value>(text) {
        Ok(_) => Ok(()),
        Err(e) => Err(format!("{:?}", e)),
    }
}

/// What a C string from a plugin reads as: an error for a null pointer or
/// invalid UTF-8, else its characters.
pub open spec fn c_text(b: Option<Seq<u8>>) -> Result<Seq<char>, Seq<char>> {
    match b {
        None => Err("Encountered a null string pointer from plugin"@),
        Some(bytes) => if valid_utf8(bytes) {
            Ok(decode_utf8(bytes))
        } else {
            Err("Invalid UTF-8 sequence in string from plugin: "@ + utf8_error_text(bytes))
        },
    }
}

/// Converts a C string read from a plugin (`None` for a null pointer).
pub fn c_str_to_rust_string(bytes: Option<&[u8]>) -> (r: Result<String, String>)
    ensures
        match (r, c_text(match bytes {
            Some(b) => Some(b@),
            None => None,
        })) {
            (Ok(s), Ok(t)) => s@ == t,
            (Err(e), Err(t)) => e@ == t,
            _ => false,
        },
{
    match bytes {
        None => Err(String::from_str("Encountered a null string pointer from plugin")),
        Some(b) => match string_from_utf8(b) {
            Ok(s) => Ok(s),
            Err(e) => Err(String::from_str("Invalid UTF-8 sequence in string from plugin: ").concat(e.as_str())),
        },
    }
}

pub(crate) fn c_field(b: &Option<Vec<u8>>) -> (r: Result<String, String>)
    ensures
        match (r, c_text(opt_bytes(*b))) {
            (Ok(s), Ok(t)) => s@ == t,
            (Err(e), Err(t)) => e@ == t,
            _ => false,
        },
{
    match b {
        Some(v) => c_str_to_rust_string(Some(v.as_slice())),
        None => c_str_to_rust_string(None),
    }
}

/// Whether a directory entry names a plugin library: its file name starts
/// with `upsclr-plugin-` and its extension is `dll`, `so` or `dylib`.
/// `None` stands for a name or extension that is missing or not UTF-8.
pub open spec fn plugin_library_name(file_name: Option<Seq<char>>, extension: Option<Seq<char>>) -> bool {
    &&& file_name is Some
    &&& has_prefix(file_name->Some_0, "upsclr-plugin-"@)
    &&& extension is Some
    &&& (extension->Some_0 == "dll"@ || extension->Some_0 == "so"@ || extension->Some_0
        == "dylib"@)
}

pub fn is_plugin_library(file_name: Option<&str>, extension: Option<&str>) -> (r: bool)
    ensures
        r == plugin_library_name(
            match file_name {
                Some(s) => Some(s@),
                None => None,
            },
            match extension {
                Some(s) => Some(s@),
                None => None,
            },
        ),
{
    match (file_name, extension) {
        (Some(n), Some(e)) => crate::text::starts_with(n, "upsclr-plugin-") && (
        crate::text::str_eq(e, "dll") || crate::text::str_eq(e, "so") || crate::text::str_eq(
            e,
            "dylib",
        )),
        _ => false,
    }
}

/// Index of the last plugin with the given id.
pub open spec fn last_with_id(plugins: Seq<LoadedPlugin>, id: Seq<char>) -> Option<int>
    decreases plugins.len(),
{
    if plugins.len() == 0 {
        None
    } else if plugins.last().id@ == id {
        Some(plugins.len() - 1)
    } else {
        last_with_id(plugins.drop_last(), id)
    }
}

/// Index of the first engine with the given name.
pub open spec fn first_engine_named(engines: Seq<EngineInfo>, name: Seq<char>) -> Option<int>
    decreases engines.len(),
{
    if engines.len() == 0 {
        None
    } else if engines[0].name@ == name {
        Some(0)
    } else {
        match first_engine_named(engines.subrange(1, engines.len() as int), name) {
            Some(i) => Some(i + 1),
            None => None,
        }
    }
}

proof fn lemma_first_engine_skip(engines: Seq<EngineInfo>, name: Seq<char>, i: int)
    requires
        0 <= i <= engines.len(),
        forall|k: int| 0 <= k < i ==> (#[trigger] engines[k]).name@ != name,
    ensures
        first_engine_named(engines, name) == (match first_engine_named(
            engines.subrange(i, engines.len() as int),
            name,
        ) {
            Some(j) => Some(j + i),
            None => None::<int>,
        }),
    decreases i,
{
    if i > 0 {
        let t = engines.subrange(1, engines.len() as int);
        assert forall|k: int| 0 <= k < i - 1 implies (#[trigger] t[k]).name@ != name by {
            assert(t[k] == engines[k + 1]);
        }
        lemma_first_engine_skip(t, name, i - 1);
        assert(t.subrange(i - 1, t.len() as int) =~= engines.subrange(i, engines.len() as int));
    } else {
        assert(engines.subrange(0, engines.len() as int) =~= engines);
        match first_engine_named(engines, name) {
            Some(j) => {},
            None => {},
        }
    }
}

proof fn lemma_last_with_id_skip(plugins: Seq<LoadedPlugin>, id: Seq<char>, j: int)
    requires
        0 <= j <= plugins.len(),
        forall|k: int| j <= k < plugins.len() ==> (#[trigger] plugins[k]).id@ != id,
    ensures
        last_with_id(plugins, id) == last_with_id(plugins.subrange(0, j), id),
    decreases plugins.len() - j,
{
    if j < plugins.len() {
        let t = plugins.drop_last();
        assert forall|k: int| j <= k < t.len() implies (#[trigger] t[k]).id@ != id by {
            assert(t[k] == plugins[k]);
        }
        lemma_last_with_id_skip(t, id, j);
        assert(t.subrange(0, j) =~= plugins.subrange(0, j));
    } else {
        assert(plugins.subrange(0, j) =~= plugins);
    }
}

impl LoadedPlugin {
    /// Index of the first engine of this plugin with the given name.
    pub fn find_engine_index(&self, engine_name: &str) -> (r: Option<usize>)
        ensures
            match r {
                Some(i) => first_engine_named(self.engines_info@, engine_name@) == Some(i as int),
                None => first_engine_named(self.engines_info@, engine_name@) is None,
            },
    {
        let n = self.engines_info.len();
        let mut i: usize = 0;
        while i < n
            invariant
                n == self.engines_info@.len(),
                0 <= i <= n,
                forall|k: int| 0 <= k < i ==> (#[trigger] self.engines_info@[k]).name@ != engine_name@,
            decreases n - i,
        {
            if crate::text::str_eq(self.engines_info[i].name.as_str(), engine_name) {
                proof {
                    lemma_first_engine_skip(self.engines_info@, engine_name@, i as int);
                    let t = self.engines_info@.subrange(i as int, n as int);
                    assert(t[0] == self.engines_info@[i as int]);
                }
                return Some(i);
            }
            i = i + 1;
        }
        proof {
            lemma_first_engine_skip(self.engines_info@, engine_name@, n as int);
        }
        None
    }
}

/// Whether `state` holds the library paths of `plugins`, in order.
pub open spec fn is_paths_export(plugins: Seq<LoadedPlugin>, state: PluginManagerState) -> bool {
    &&& state.plugin_paths@.len() == plugins.len()
    &&& forall|k: int| 0 <= k < plugins.len() ==> (#[trigger] state.plugin_paths@[k])@ == plugins[k].path@
}

/// Plain view of a plugin's information: id, name, version, description.
pub open spec fn plugin_info_view(p: PluginInfo) -> (Seq<char>, Seq<char>, Seq<char>, Seq<char>) {
    (p.id@, p.name@, p.version@, p.description@)
}

/// A copy of a plugin's information.
pub fn copy_plugin_info(p: &PluginInfo) -> (r: PluginInfo)
    ensures
        plugin_info_view(r) == plugin_info_view(*p),
{
    PluginInfo {
        id: p.id.clone(),
        name: p.name.clone(),
        version: p.version.clone(),
        description: p.description.clone(),
    }
}

/// A copy of an engine's information.
pub fn copy_engine_info(e: &EngineInfo) -> (r: EngineInfo)
    ensures
        engine_view(r) == engine_view(*e),
{
    EngineInfo {
        name: e.name.clone(),
        description: e.description.clone(),
        version: e.version.clone(),
        config_schema: e.config_schema.clone(),
        plugin_id: e.plugin_id.clone(),
        engine_index_in_plugin: e.engine_index_in_plugin,
    }
}

/// A directory entry as the plugin scan sees it: whether it is a file, and
/// its file name and extension (`None` when missing or not UTF-8).
pub struct ScannedEntry {
    pub is_file: bool,
    pub file_name: Option<String>,
    pub extension: Option<String>,
}

pub open spec fn opt_string(o: Option<String>) -> Option<Seq<char>> {
    match o {
        Some(s) => Some(s@),
        None => None,
    }
}

/// Whether the scan loads an entry: a file whose name is a plugin library's.
pub open spec fn scan_candidate(e: ScannedEntry) -> bool {
    e.is_file && plugin_library_name(opt_string(e.file_name), opt_string(e.extension))
}

/// What a scan of `entries` loaded through `load` (handed an entry's
/// index): `plugins[j]` is what `load` gave for candidate entry `from[j]`
/// (in directory order), and every
/// other candidate is listed in `failures` with its index and `load`'s
/// message.
pub open spec fn scanned_as<L: Fn(usize) -> Result<LoadedPlugin, String>>(
    entries: Seq<ScannedEntry>,
    load: L,
    from: Seq<int>,
    plugins: Seq<LoadedPlugin>,
    failures: Seq<(usize, String)>,
) -> bool {
    &&& from.len() == plugins.len()
    &&& forall|a: int, b: int| 0 <= a < b < from.len() ==> #[trigger] from[a] < #[trigger] from[b]
    &&& forall|j: int|
        0 <= j < from.len() ==> {
            let i = #[trigger] from[j];
            &&& 0 <= i < entries.len()
            &&& scan_candidate(entries[i])
            &&& call_ensures(load, (i as usize,), Ok::<LoadedPlugin, String>(plugins[j]))
        }
    &&& forall|f: int|
        0 <= f < failures.len() ==> {
            let i = (#[trigger] failures[f]).0 as int;
            &&& 0 <= i < entries.len()
            &&& scan_candidate(entries[i])
            &&& call_ensures(load, (i as usize,), Err::<LoadedPlugin, String>(failures[f].1))
        }
    &&& forall|i: int|
        0 <= i < entries.len() && scan_candidate(#[trigger] entries[i]) ==> (exists|j: int|
            0 <= j < from.len() && from[j] == i) || (exists|f: int|
            0 <= f < failures.len() && failures[f].0 == i)
}

impl PluginManager {
    /// The plugins of a scanned directory: each entry that is a file named
    /// like a plugin library is loaded through `load`, in directory order;
    /// the ones that fail to load are listed, with their index and message,
    /// and left out.
    pub fn from_scan<L: Fn(usize) -> Result<LoadedPlugin, String>>(
        entries: &Vec<ScannedEntry>,
        load: L,
    ) -> (r: (PluginManager, Vec<(usize, String)>))
        requires
            forall|k: usize| load.requires((k,)),
        ensures
            exists|from: Seq<int>| scanned_as(entries@, load, from, r.0.plugins@, r.1@),
    {
        let n = entries.len();
        let mut plugins: Vec<LoadedPlugin> = Vec::new();
        let mut failures: Vec<(usize, String)> = Vec::new();
        let ghost mut from: Seq<int> = Seq::empty();
        let mut i: usize = 0;
        while i < n
            invariant
                n == entries@.len(),
                0 <= i <= n,
                forall|k: usize| load.requires((k,)),
                from.len() == plugins@.len(),
                forall|a: int, b: int| 0 <= a < b < from.len() ==> #[trigger] from[a] < #[trigger] from[b],
                forall|j: int| 0 <= j < from.len() ==> #[trigger] from[j] < i,
                forall|j: int|
                    0 <= j < from.len() ==> {
                        let k = #[trigger] from[j];
                        &&& 0 <= k < entries@.len()
                        &&& scan_candidate(entries@[k])
                        &&& call_ensures(load, (k as usize,), Ok::<LoadedPlugin, String>(plugins@[j]))
                    },
                forall|f: int|
                    0 <= f < failures@.len() ==> {
                        let k = (#[trigger] failures@[f]).0 as int;
                        &&& 0 <= k < i
                        &&& scan_candidate(entries@[k])
                        &&& call_ensures(load, (k as usize,), Err::<LoadedPlugin, String>(failures@[f].1))
                    },
                forall|k: int|
                    0 <= k < i && scan_candidate(#[trigger] entries@[k]) ==> (exists|j: int|
                        0 <= j < from.len() && from[j] == k) || (exists|f: int|
                        0 <= f < failures@.len() && failures@[f].0 == k),
            decreases n - i,
        {
            let e = &entries[i];
            let ghost from0 = from;
            let ghost fail0 = failures@;
            let name = match &e.file_name {
                Some(s) => Some(s.as_str()),
                None => None,
            };
            let ext = match &e.extension {
                Some(s) => Some(s.as_str()),
                None => None,
            };
            if e.is_file && is_plugin_library(name, ext) {
                proof {
                    assert(scan_candidate(entries@[i as int]));
                }
                match load(i) {
                    Ok(p) => {
                        let ghost j = plugins@.len() as int;
                        plugins.push(p);
                        proof {
                            from = from.push(i as int);
                            assert(from[j] == i as int);
                        }
                    },
                    Err(m) => {
                        let ghost f = failures@.len() as int;
                        failures.push((i, m));
                        proof {
                            assert(failures@[f].0 == i);
                        }
                    },
                }
            } else {
                proof {
                    assert(!scan_candidate(entries@[i as int]));
                }
            }
            proof {
                assert forall|k: int|
                    0 <= k < i + 1 && scan_candidate(#[trigger] entries@[k]) implies (exists|j: int|
                        0 <= j < from.len() && from[j] == k) || (exists|f: int|
                        0 <= f < failures@.len() && failures@[f].0 == k) by {
                    if k < i {
                        if exists|j: int| 0 <= j < from0.len() && from0[j] == k {
                            let j = choose|j: int| 0 <= j < from0.len() && from0[j] == k;
                            assert(from[j] == k);
                        } else {
                            let f = choose|f: int| 0 <= f < fail0.len() && fail0[f].0 == k;
                            assert(failures@[f].0 == k);
                        }
                    } else {
                        if from.len() > from0.len() {
                            assert(from[from0.len() as int] == k);
                        } else {
                            assert(failures@[fail0.len() as int].0 == k);
                        }
                    }
                }
            }
            i = i + 1;
        }
        proof {
            assert(scanned_as(entries@, load, from, plugins@, failures@));
        }
        let r = (PluginManager { plugins }, failures);
        proof {
            assert(scanned_as(entries@, load, from, r.0.plugins@, r.1@));
        }
        r
    }

    /// A manager holding the given loaded plugins, in that order.
    pub fn from_loaded(plugins: Vec<LoadedPlugin>) -> (r: PluginManager)
        ensures
            r.plugins@ == plugins@,
    {
        PluginManager { plugins }
    }

    pub fn count_plugins(&self) -> (r: usize)
        ensures
            r == self.plugins@.len(),
    {
        self.plugins.len()
    }

    pub fn is_empty(&self) -> (r: bool)
        ensures
            r == (self.plugins@.len() == 0),
    {
        self.plugins.len() == 0
    }

    pub fn get_plugins(&self) -> (r: &Vec<LoadedPlugin>)
        ensures
            r@ == self.plugins@,
    {
        &self.plugins
    }

    /// The plugin with the given id; when several share it, the one loaded last.
    pub fn find_plugin_by_id(&self, id: &str) -> (r: Option<&LoadedPlugin>)
        ensures
            match r {
                Some(p) => last_with_id(self.plugins@, id@) matches Some(k) && *p
                    == self.plugins@[k],
                None => last_with_id(self.plugins@, id@) is None,
            },
    {
        let mut j: usize = self.plugins.len();
        while j > 0
            invariant
                0 <= j <= self.plugins@.len(),
                forall|k: int|
                    j <= k < self.plugins@.len() ==> (#[trigger] self.plugins@[k]).id@ != id@,
            decreases j,
        {
            if crate::text::str_eq(self.plugins[j - 1].id.as_str(), id) {
                proof {
                    lemma_last_with_id_skip(self.plugins@, id@, j as int);
                    let t = self.plugins@.subrange(0, j as int);
                    assert(t.last() == self.plugins@[j - 1]);
                }
                return Some(&self.plugins[j - 1]);
            }
            j = j - 1;
        }
        proof {
            lemma_last_with_id_skip(self.plugins@, id@, 0);
        }
        None
    }

    /// Unloads every plugin.
    pub fn cleanup(&mut self)
        ensures
            final(self).plugins@.len() == 0,
    {
        self.plugins = Vec::new();
    }

    /// The library paths of the loaded plugins, in load order.
    pub fn export_state(&self) -> (r: PluginManagerState)
        ensures
            is_paths_export(self.plugins@, r),
    {
        let mut paths: Vec<String> = Vec::new();
        let n = self.plugins.len();
        let mut i: usize = 0;
        while i < n
            invariant
                n == self.plugins@.len(),
                0 <= i <= n,
                paths@.len() == i,
                forall|k: int|
                    0 <= k < i ==> (#[trigger] paths@[k])@ == self.plugins@[k].path@,
            decreases n - i,
        {
            paths.push(self.plugins[i].path.clone());
            i = i + 1;
        }
        PluginManagerState { plugin_paths: paths }
    }
}


/// Plain view of an engine description: name, description, version, schema
/// text, plugin id, index within the plugin.
pub open spec fn engine_view(e: EngineInfo) -> (Seq<char>, Seq<char>, Seq<char>, Seq<char>, Seq<char>, int) {
    (e.name@, e.description@, e.version@, e.config_schema@, e.plugin_id@, e.engine_index_in_plugin as int)
}

/// Plain view of an engine's C strings.
pub open spec fn raw_engine_view(r: Option<RawEngineInfo>) -> Option<(Option<Seq<u8>>, Option<Seq<u8>>, Option<Seq<u8>>, Option<Seq<u8>>)> {
    match r {
        Some(e) => Some((opt_bytes(e.name), opt_bytes(e.description), opt_bytes(e.version), opt_bytes(e.config_json_schema))),
        None => None,
    }
}

/// Plain view of every engine's C strings.
pub open spec fn raw_engines_view(engines: Seq<Option<RawEngineInfo>>) -> Seq<Option<(Option<Seq<u8>>, Option<Seq<u8>>, Option<Seq<u8>>, Option<Seq<u8>>)>> {
    engines.map_values(|e: Option<RawEngineInfo>| raw_engine_view(e))
}

/// `message` + `: ` + `detail`, the shape of every loading error that wraps
/// a finer one.
pub open spec fn with_detail(head: Seq<char>, path_text: Seq<char>, detail: Seq<char>) -> Seq<char> {
    head + path_text + ": "@ + detail
}

/// `" (idx " + i + ") from "`.
pub open spec fn idx_from(i: int) -> Seq<char> {
    " (idx "@ + crate::text::decimal_text(i as nat) + ") from "@
}

/// The description of engine `i` made from its C strings, or the message of
/// the first field that cannot be read.
pub open spec fn engine_from_raw(
    raw: Option<(Option<Seq<u8>>, Option<Seq<u8>>, Option<Seq<u8>>, Option<Seq<u8>>)>,
    i: int,
    path_text: Seq<char>,
    id: Seq<char>,
) -> Result<(Seq<char>, Seq<char>, Seq<char>, Seq<char>, Seq<char>, int), Seq<char>> {
    match raw {
        None => Err("Plugin at "@ + path_text + " returned NULL from upsclr_plugin_get_engine_info for engine index "@
            + crate::text::decimal_text(i as nat)),
        Some((n, d, v, s)) => match c_text(n) {
            Err(e) => Err(with_detail("Invalid engine name"@ + idx_from(i), path_text, e)),
            Ok(name) => match c_text(d) {
                Err(e) => Err(with_detail("Invalid engine description"@ + idx_from(i), path_text, e)),
                Ok(desc) => match c_text(v) {
                    Err(e) => Err(with_detail("Invalid engine version"@ + idx_from(i), path_text, e)),
                    Ok(ver) => match c_text(s) {
                        Err(e) => Err(with_detail("Invalid engine schema"@ + idx_from(i), path_text, e)),
                        Ok(schema) => match json_check(schema) {
                            Err(e) => Err(with_detail("Invalid JSON schema"@ + idx_from(i), path_text, e)),
                            Ok(()) => Ok((name, desc, ver, schema, id, i)),
                        },
                    },
                },
            },
        },
    }
}

/// The engine descriptions made from all engines' C strings, in order, or
/// the message of the first engine that fails.
pub open spec fn engines_from_raw(
    raws: Seq<Option<(Option<Seq<u8>>, Option<Seq<u8>>, Option<Seq<u8>>, Option<Seq<u8>>)>>,
    path_text: Seq<char>,
    id: Seq<char>,
) -> Result<Seq<(Seq<char>, Seq<char>, Seq<char>, Seq<char>, Seq<char>, int)>, Seq<char>>
    decreases raws.len(),
{
    if raws.len() == 0 {
        Ok(Seq::empty())
    } else {
        match engines_from_raw(raws.drop_last(), path_text, id) {
            Err(e) => Err(e),
            Ok(es) => match engine_from_raw(raws.last(), raws.len() - 1, path_text, id) {
                Err(e) => Err(e),
                Ok(x) => Ok(es.push(x)),
            },
        }
    }
}

proof fn lemma_engines_error_propagates(
    raws: Seq<Option<(Option<Seq<u8>>, Option<Seq<u8>>, Option<Seq<u8>>, Option<Seq<u8>>)>>,
    path_text: Seq<char>,
    id: Seq<char>,
    j: int,
)
    requires
        0 <= j <= raws.len(),
        engines_from_raw(raws.subrange(0, j), path_text, id) is Err,
    ensures
        engines_from_raw(raws, path_text, id) == engines_from_raw(raws.subrange(0, j), path_text, id),
    decreases raws.len() - j,
{
    if j < raws.len() {
        assert(raws.drop_last().subrange(0, j) =~= raws.subrange(0, j));
        lemma_engines_error_propagates(raws.drop_last(), path_text, id, j);
    } else {
        assert(raws.subrange(0, j) =~= raws);
    }
}

proof fn lemma_engines_step(
    raws: Seq<Option<(Option<Seq<u8>>, Option<Seq<u8>>, Option<Seq<u8>>, Option<Seq<u8>>)>>,
    path_text: Seq<char>,
    id: Seq<char>,
    i: int,
)
    requires
        0 <= i < raws.len(),
    ensures
        engines_from_raw(raws.subrange(0, i + 1), path_text, id) == (match engines_from_raw(raws.subrange(0, i), path_text, id) {
            Err(e) => Err(e),
            Ok(es) => match engine_from_raw(raws[i], i, path_text, id) {
                Err(e) => Err(e),
                Ok(x) => Ok(es.push(x)),
            },
        }),
{
    let t = raws.subrange(0, i + 1);
    assert(t.drop_last() =~= raws.subrange(0, i));
}

/// What a plugin's C metadata makes: its description and engines, or the
/// message of the first string that cannot be read.
pub open spec fn plugin_from_raw(
    info: Option<(Option<Seq<u8>>, Option<Seq<u8>>, Option<Seq<u8>>)>,
    raws: Seq<Option<(Option<Seq<u8>>, Option<Seq<u8>>, Option<Seq<u8>>, Option<Seq<u8>>)>>,
    path_text: Seq<char>,
    id: Seq<char>,
) -> Result<((Seq<char>, Seq<char>, Seq<char>), Seq<(Seq<char>, Seq<char>, Seq<char>, Seq<char>, Seq<char>, int)>), Seq<char>> {
    match info {
        None => Err("Plugin at "@ + path_text + " returned NULL from upsclr_plugin_get_info"@),
        Some((n, v, d)) => match c_text(n) {
            Err(e) => Err(with_detail("Invalid plugin name from "@, path_text, e)),
            Ok(name) => match c_text(v) {
                Err(e) => Err(with_detail("Invalid plugin version from "@, path_text, e)),
                Ok(ver) => match c_text(d) {
                    Err(e) => Err(with_detail("Invalid plugin description from "@, path_text, e)),
                    Ok(desc) => match engines_from_raw(raws, path_text, id) {
                        Err(e) => Err(e),
                        Ok(es) => Ok(((name, ver, desc), es)),
                    },
                },
            },
        },
    }
}

fn detail_error(head: String, path_text: &str, detail: String) -> (r: String)
    ensures
        r@ == with_detail(head@, path_text@, detail@),
{
    head.concat(path_text).concat(": ").concat(detail.as_str())
}

fn idx_from_text(i: usize) -> (r: String)
    ensures
        r@ == idx_from(i as int),
{
    String::from_str(" (idx ").concat(crate::text::decimal_string(i as u64).as_str()).concat(") from ")
}

/// Law: an engine described from its C strings takes each field from its
/// own string (name from name, description from description, version from
/// version, schema from schema), with the plugin id and index it was given;
/// it is described exactly when all four strings read as text and the
/// schema is JSON.
pub proof fn law_engine_fields_come_from_their_own_strings(
    n: Option<Seq<u8>>,
    d: Option<Seq<u8>>,
    v: Option<Seq<u8>>,
    s: Option<Seq<u8>>,
    i: int,
    path_text: Seq<char>,
    id: Seq<char>,
)
    ensures
        engine_from_raw(Some((n, d, v, s)), i, path_text, id) is Ok <==> (c_text(n) is Ok && c_text(d) is Ok
            && c_text(v) is Ok && c_text(s) is Ok && json_check(c_text(s)->Ok_0) is Ok),
        engine_from_raw(Some((n, d, v, s)), i, path_text, id) matches Ok(x) ==> ({
            &&& c_text(n) == Ok::<Seq<char>, Seq<char>>(x.0)
            &&& c_text(d) == Ok::<Seq<char>, Seq<char>>(x.1)
            &&& c_text(v) == Ok::<Seq<char>, Seq<char>>(x.2)
            &&& c_text(s) == Ok::<Seq<char>, Seq<char>>(x.3)
            &&& x.4 == id
            &&& x.5 == i
        }),
{
}

/// Builds the description of engine `i` from its C strings.
pub fn engine_info_from_raw(raw: &Option<RawEngineInfo>, i: usize, path_text: &str, plugin_id: &String) -> (r: Result<EngineInfo, String>)
    ensures
        match (r, engine_from_raw(raw_engine_view(*raw), i as int, path_text@, plugin_id@)) {
            (Ok(e), Ok(x)) => engine_view(e) == x,
            (Err(m), Err(t)) => m@ == t,
            _ => false,
        },
        r matches Ok(e) ==> (raw matches Some(x) && {
            &&& c_text(opt_bytes(x.name)) == Ok::<Seq<char>, Seq<char>>(e.name@)
            &&& c_text(opt_bytes(x.description)) == Ok::<Seq<char>, Seq<char>>(e.description@)
            &&& c_text(opt_bytes(x.version)) == Ok::<Seq<char>, Seq<char>>(e.version@)
            &&& c_text(opt_bytes(x.config_json_schema)) == Ok::<Seq<char>, Seq<char>>(e.config_schema@)
            &&& e.plugin_id@ == plugin_id@
            &&& e.engine_index_in_plugin == i
        }),
{
    let raw = match raw {
        None => {
            return Err(String::from_str("Plugin at ").concat(path_text).concat(
                " returned NULL from upsclr_plugin_get_engine_info for engine index ",
            ).concat(crate::text::decimal_string(i as u64).as_str()));
        },
        Some(r) => r,
    };
    let name = match c_field(&raw.name) {
        Ok(s) => s,
        Err(e) => {
            return Err(detail_error(String::from_str("Invalid engine name").concat(idx_from_text(i).as_str()), path_text, e));
        },
    };
    let description = match c_field(&raw.description) {
        Ok(s) => s,
        Err(e) => {
            return Err(detail_error(String::from_str("Invalid engine description").concat(idx_from_text(i).as_str()), path_text, e));
        },
    };
    let version = match c_field(&raw.version) {
        Ok(s) => s,
        Err(e) => {
            return Err(detail_error(String::from_str("Invalid engine version").concat(idx_from_text(i).as_str()), path_text, e));
        },
    };
    let schema = match c_field(&raw.config_json_schema) {
        Ok(s) => s,
        Err(e) => {
            return Err(detail_error(String::from_str("Invalid engine schema").concat(idx_from_text(i).as_str()), path_text, e));
        },
    };
    match check_json(schema.as_str()) {
        Ok(()) => {},
        Err(e) => {
            return Err(detail_error(String::from_str("Invalid JSON schema").concat(idx_from_text(i).as_str()), path_text, e));
        },
    }
    Ok(EngineInfo {
        name,
        description,
        version,
        config_schema: schema,
        plugin_id: plugin_id.clone(),
        engine_index_in_plugin: i,
    })
}

/// Builds a loaded plugin's description from the C metadata its library
/// returned: the plugin information (`None` when `upsclr_plugin_get_info`
/// returned NULL) and each engine's information (`None` for NULL), in
/// index order. `path_text` is the `{:?}` rendering of the library path.
pub fn assemble_loaded_plugin(
    id: String,
    path: String,
    path_text: &str,
    init: UpsclrErrorCode,
    info: &Option<RawPluginInfo>,
    engines: &Vec<Option<RawEngineInfo>>,
) -> (r: Result<LoadedPlugin, String>)
    ensures
        match (r, if init != UpsclrErrorCode::Success {
            Err("Plugin at "@ + path_text@ + " failed to initialize with error code: "@ + init.debug_name())
        } else {
            plugin_from_raw(
                match *info {
                    Some(i) => Some((opt_bytes(i.name), opt_bytes(i.version), opt_bytes(i.description))),
                    None => None,
                },
                raw_engines_view(engines@),
                path_text@,
                id@,
            )
        }) {
            (Ok(p), Ok(((n, v, d), es))) => {
                &&& p.id@ == id@
                &&& p.path@ == path@
                &&& p.plugin_info.id@ == id@
                &&& p.plugin_info.name@ == n
                &&& p.plugin_info.version@ == v
                &&& p.plugin_info.description@ == d
                &&& p.engines_info@.map_values(|e: EngineInfo| engine_view(e)) == es
            },
            (Err(m), Err(t)) => m@ == t,
            _ => false,
        },
{
    if init != UpsclrErrorCode::Success {
        return Err(String::from_str("Plugin at ").concat(path_text).concat(
            " failed to initialize with error code: ",
        ).concat(init.debug_text().as_str()));
    }
    let pinfo = match info {
        None => {
            return Err(String::from_str("Plugin at ").concat(path_text).concat(
                " returned NULL from upsclr_plugin_get_info",
            ));
        },
        Some(i) => i,
    };
    let name = match c_field(&pinfo.name) {
        Ok(s) => s,
        Err(e) => {
            return Err(detail_error(String::from_str("Invalid plugin name from "), path_text, e));
        },
    };
    let version = match c_field(&pinfo.version) {
        Ok(s) => s,
        Err(e) => {
            return Err(detail_error(String::from_str("Invalid plugin version from "), path_text, e));
        },
    };
    let description = match c_field(&pinfo.description) {
        Ok(s) => s,
        Err(e) => {
            return Err(detail_error(String::from_str("Invalid plugin description from "), path_text, e));
        },
    };
    let ghost raws = raw_engines_view(engines@);
    let mut out: Vec<EngineInfo> = Vec::new();
    let n = engines.len();
    let mut i: usize = 0;
    proof {
        assert(raws.subrange(0, 0) =~= Seq::empty());
        assert(out@.map_values(|e: EngineInfo| engine_view(e)) =~= Seq::empty());
    }
    while i < n
        invariant
            n == engines@.len(),
            raws == raw_engines_view(engines@),
            0 <= i <= n,
            init == UpsclrErrorCode::Success,
            *info == Some(*pinfo),
            c_text(opt_bytes(pinfo.name)) == Ok::<Seq<char>, Seq<char>>(name@),
            c_text(opt_bytes(pinfo.version)) == Ok::<Seq<char>, Seq<char>>(version@),
            c_text(opt_bytes(pinfo.description)) == Ok::<Seq<char>, Seq<char>>(description@),
            engines_from_raw(raws.subrange(0, i as int), path_text@, id@) == Ok::<Seq<(Seq<char>, Seq<char>, Seq<char>, Seq<char>, Seq<char>, int)>, Seq<char>>(
                out@.map_values(|e: EngineInfo| engine_view(e))),
        decreases n - i,
    {
        proof {
            lemma_engines_step(raws, path_text@, id@, i as int);
            assert(raws[i as int] == raw_engine_view(engines@[i as int]));
        }
        match engine_info_from_raw(&engines[i], i, path_text, &id) {
            Ok(e) => {
                let ghost old_out = out@;
                out.push(e);
                proof {
                    assert(out@.map_values(|e: EngineInfo| engine_view(e)) =~= old_out.map_values(|e: EngineInfo| engine_view(e)).push(engine_view(e)));
                }
            },
            Err(m) => {
                proof {
                    lemma_engines_error_propagates(raws, path_text@, id@, i + 1);
                }
                return Err(m);
            },
        }
        i = i + 1;
    }
    proof {
        assert(raws.subrange(0, n as int) =~= raws);
    }
    Ok(LoadedPlugin {
        id: id.clone(),
        path,
        plugin_info: PluginInfo { id, name, version, description },
        engines_info: out,
    })
}

/// The error answered when the plugins directory is missing.
pub fn plugins_dir_missing_error(dir: &str) -> (r: AppError)
    ensures
        r matches AppError::PluginLoadError(m) && m@
            == "Plugins directory not found or is not a directory: '"@ + dir@ + "'"@,
{
    AppError::PluginLoadError(
        String::from_str("Plugins directory not found or is not a directory: '").concat(dir).concat(
            "'",
        ),
    )
}

} // verus!
