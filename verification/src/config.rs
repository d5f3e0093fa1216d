//! The configuration of the engine and of the services around it.
//!
//! The configuration is a YAML text of sections, each a list of names and
//! values: `storage`, `api`, `http` and `remote`. Before the text is
//! parsed, the variables of the environment are substituted in it. Reading
//! the file and the environment is the caller's.

use crate::cargo_profile::is_profile_test;
use crate::envsubst::dollar_curly;
use crate::envsubst::spec_dollar_curly;
use crate::string_map::key_views;
use crate::string_map::StringMap;
use crate::text::parse_port;
use crate::text::spec_list;
use crate::text::spec_port;
use crate::text::split_list;
use vstd::prelude::*;

verus! {

/// The configuration file of a release build.
pub const DEFAULT_CONFIG_FILENAME_RELEASE: &'static str = "anor-config.yaml";

/// The configuration file of a debug build.
pub const DEFAULT_CONFIG_FILENAME_DEBUG: &'static str = "anor-config.debug";

/// The configuration file of a test build.
pub const DEFAULT_CONFIG_FILENAME_TEST: &'static str = "anor-config.test";

/// The data directory of an engine whose configuration names none.
pub const DEFAULT_STORAGE_DATA_PATH: &'static str = "/var/anor";

/// The section of the configuration that the engine reads.
#[derive(Debug, Clone)]
pub struct StorageConfig {
    /// The data directory.
    pub data_path: String,
}

/// The name of the configuration file of a build.
pub open spec fn spec_config_filename(test_build: bool, debug_assertions: bool) -> Seq<char> {
    if debug_assertions {
        if test_build {
            DEFAULT_CONFIG_FILENAME_TEST@
        } else {
            DEFAULT_CONFIG_FILENAME_DEBUG@
        }
    } else {
        DEFAULT_CONFIG_FILENAME_RELEASE@
    }
}

/// The name of the configuration file of a build: that of the release
/// where the build keeps no debug assertions, else that of the tests in a
/// build for tests, else that of debugging.
pub fn get_config_filename(test_build: bool, debug_assertions: bool) -> (r: &'static str)
    ensures
        r@ == spec_config_filename(test_build, debug_assertions),
{
    if debug_assertions {
        if is_profile_test(test_build, debug_assertions) {
            DEFAULT_CONFIG_FILENAME_TEST
        } else {
            DEFAULT_CONFIG_FILENAME_DEBUG
        }
    } else {
        DEFAULT_CONFIG_FILENAME_RELEASE
    }
}

/// The names and values of a section, as texts.
pub type SectionView = Map<Seq<char>, Seq<char>>;

/// The names and values of a section, as texts.
pub open spec fn section_view(node: Map<Seq<char>, String>) -> SectionView {
    node.map_values(|value: String| value@)
}

/// The sections of a configuration, as texts.
pub open spec fn sections_view(sections: Map<Seq<char>, StringMap<String>>) -> Map<
    Seq<char>,
    SectionView,
> {
    sections.map_values(|node: StringMap<String>| section_view(node@))
}

/// The data directory that a storage section names, or the default one.
pub open spec fn spec_storage_path(node: SectionView) -> Seq<char> {
    if node.contains_key("data_path"@) {
        node["data_path"@]
    } else {
        DEFAULT_STORAGE_DATA_PATH@
    }
}

/// The data directory that a storage section names under `data_path`, or
/// the default one where it names none.
pub fn parse_storage_path(node: &StringMap<String>) -> (r: String)
    ensures
        r@ == spec_storage_path(section_view(node@)),
{
    match node.get("data_path") {
        Some(path) => path.clone(),
        None => DEFAULT_STORAGE_DATA_PATH.to_owned(),
    }
}

/// What the text of a switch says: `true`, `false`, or nothing that a
/// switch can say.
pub open spec fn spec_switch(text: Seq<char>) -> Option<bool> {
    if text == "true"@ {
        Some(true)
    } else if text == "false"@ {
        Some(false)
    } else {
        None
    }
}

/// Whether a section has a switch that can be read: it has none under
/// `enabled`, or `true`, or `false`.
pub open spec fn switch_readable(node: SectionView) -> bool {
    node.contains_key("enabled"@) ==> spec_switch(node["enabled"@]) is Some
}

/// Whether a section switches its service on, where it says so under
/// `enabled`.
pub open spec fn spec_enabled(node: SectionView) -> Option<bool> {
    if node.contains_key("enabled"@) {
        spec_switch(node["enabled"@])
    } else {
        None
    }
}

/// What the text of a switch says.
pub fn parse_switch(text: &str) -> (r: Option<bool>)
    ensures
        r == spec_switch(text@),
{
    let owned = text.to_owned();
    if owned == "true".to_owned() {
        Some(true)
    } else if owned == "false".to_owned() {
        Some(false)
    } else {
        None
    }
}

/// Whether a section switches its service on: `None` where it has
/// nothing under `enabled`.
pub fn parse_enabled(node: &StringMap<String>) -> (r: Option<bool>)
    requires
        switch_readable(section_view(node@)),
    ensures
        r == spec_enabled(section_view(node@)),
{
    match node.get("enabled") {
        Some(text) => parse_switch(text.as_str()),
        None => None,
    }
}

/// Whether a section switches its service on, if its switch can be read:
/// `Err` where it has something under `enabled` that is neither `true` nor
/// `false`.
pub fn try_parse_enabled(node: &StringMap<String>) -> (r: Result<Option<bool>, ConfigError>)
    ensures
        r == (if switch_readable(section_view(node@)) {
            Ok::<Option<bool>, ConfigError>(spec_enabled(section_view(node@)))
        } else {
            Err::<Option<bool>, ConfigError>(ConfigError::Enabled)
        }),
{
    match node.get("enabled") {
        Some(text) => match parse_switch(text.as_str()) {
            Some(enabled) => Ok(Some(enabled)),
            None => Err(ConfigError::Enabled),
        },
        None => Ok(None),
    }
}

/// Why a text is no configuration.
#[derive(Debug, Clone, Copy, PartialEq, Eq, Structural)]
pub enum ConfigError {
    /// The text is no YAML map of sections of names and values.
    Syntax,
    /// A section says something under `listen_port` that is no port.
    ListenPort,
    /// A section says something under `enabled` that is neither `true`
    /// nor `false`.
    Enabled,
}

/// The address that the API service listens on unless the configuration names others.
pub const DEFAULT_API_SERVICE_LISTEN_ADDRESS: &'static str = "127.0.0.1";

/// The port that the API service listens on unless the configuration names another.
pub const DEFAULT_API_SERVICE_LISTEN_PORT: u16 = 7311;

/// Whether the API service runs unless the configuration says so.
pub const DEFAULT_API_SERVICE_ENABLED: bool = false;

/// The address that the HTTP service listens on unless the configuration names others.
pub const DEFAULT_HTTP_SERVICE_LISTEN_ADDRESS: &'static str = "127.0.0.1";

/// The port that the HTTP service listens on unless the configuration names another.
pub const DEFAULT_HTTP_SERVICE_LISTEN_PORT: u16 = 8181;

/// Whether the HTTP service runs unless the configuration says so.
pub const DEFAULT_HTTP_SERVICE_ENABLED: bool = false;

/// The node that a client turns to unless the configuration names others.
pub const DEFAULT_REMOTE_NODE: &'static str = "127.0.0.1:9191";

/// The section of a service: where it listens and whether it runs.
#[derive(Debug, Clone)]
pub struct ServiceConfig {
    /// The addresses to listen on, as the configuration writes them.
    pub listen_addresses: Vec<String>,
    /// The port to listen on, at each of the addresses.
    pub listen_port: u16,
    pub enabled: bool,
}

/// The section of the API service.
pub type ApiConfig = ServiceConfig;

/// The section of the HTTP service.
pub type HttpConfig = ServiceConfig;

/// The section of the remote nodes.
#[derive(Debug, Clone)]
pub struct RemoteConfig {
    /// The nodes, each an address and a port as the configuration writes them.
    pub nodes: Vec<String>,
}

/// The configuration.
#[derive(Debug, Clone)]
pub struct Config {
    pub storage: Option<StorageConfig>,
    pub api: Option<ApiConfig>,
    pub http: Option<HttpConfig>,
    pub remote: Option<RemoteConfig>,
}

/// The section of a service as a value.
pub struct ServiceConfigView {
    pub listen_addresses: Seq<Seq<char>>,
    pub listen_port: u16,
    pub enabled: bool,
}

/// The configuration as a value: the data directory, the two services and
/// the remote nodes, each where the configuration has its section.
pub struct ConfigView {
    pub storage: Option<Seq<char>>,
    pub api: Option<ServiceConfigView>,
    pub http: Option<ServiceConfigView>,
    pub remote: Option<Seq<Seq<char>>>,
}

impl View for ServiceConfig {
    type V = ServiceConfigView;

    open spec fn view(&self) -> ServiceConfigView {
        ServiceConfigView {
            listen_addresses: key_views(self.listen_addresses@),
            listen_port: self.listen_port,
            enabled: self.enabled,
        }
    }
}

impl View for Config {
    type V = ConfigView;

    open spec fn view(&self) -> ConfigView {
        ConfigView {
            storage: match self.storage {
                Some(storage) => Some(storage.data_path@),
                None => None,
            },
            api: match self.api {
                Some(api) => Some(api@),
                None => None,
            },
            http: match self.http {
                Some(http) => Some(http@),
                None => None,
            },
            remote: match self.remote {
                Some(remote) => Some(key_views(remote.nodes@)),
                None => None,
            },
        }
    }
}

/// The section of a service: the addresses that it lists under
/// `listen_addresses`, or the default one; the port under `listen_port`,
/// or the default one; the switch under `enabled`, or the default one. An
/// error where the port or the switch cannot be read.
pub open spec fn spec_service(
    node: SectionView,
    default_address: Seq<char>,
    default_port: u16,
    default_enabled: bool,
) -> Result<ServiceConfigView, ConfigError> {
    let listen_addresses = if node.contains_key("listen_addresses"@) {
        spec_list(node["listen_addresses"@])
    } else {
        seq![default_address]
    };
    let listen_port = if node.contains_key("listen_port"@) {
        spec_port(node["listen_port"@])
    } else {
        Some(default_port)
    };
    if listen_port is None {
        Err(ConfigError::ListenPort)
    } else if !switch_readable(node) {
        Err(ConfigError::Enabled)
    } else {
        Ok(
            ServiceConfigView {
                listen_addresses,
                listen_port: listen_port->Some_0,
                enabled: match spec_enabled(node) {
                    Some(enabled) => enabled,
                    None => default_enabled,
                },
            },
        )
    }
}

/// The nodes that a remote section lists under `nodes`, or the default one.
pub open spec fn spec_remote(node: SectionView) -> Seq<Seq<char>> {
    if node.contains_key("nodes"@) {
        spec_list(node["nodes"@])
    } else {
        seq![DEFAULT_REMOTE_NODE@]
    }
}

/// The section of a service, if the section has one under the name.
pub open spec fn spec_service_of(
    sections: Map<Seq<char>, SectionView>,
    name: Seq<char>,
    default_address: Seq<char>,
    default_port: u16,
    default_enabled: bool,
) -> Result<Option<ServiceConfigView>, ConfigError> {
    if sections.contains_key(name) {
        match spec_service(sections[name], default_address, default_port, default_enabled) {
            Ok(service) => Ok(Some(service)),
            Err(e) => Err(e),
        }
    } else {
        Ok(None)
    }
}

/// The configuration that the sections spell, or the first error: that of
/// the API service before that of the HTTP service.
pub open spec fn spec_config(sections: Map<Seq<char>, SectionView>) -> Result<
    ConfigView,
    ConfigError,
> {
    let api = spec_service_of(
        sections,
        "api"@,
        DEFAULT_API_SERVICE_LISTEN_ADDRESS@,
        DEFAULT_API_SERVICE_LISTEN_PORT,
        DEFAULT_API_SERVICE_ENABLED,
    );
    let http = spec_service_of(
        sections,
        "http"@,
        DEFAULT_HTTP_SERVICE_LISTEN_ADDRESS@,
        DEFAULT_HTTP_SERVICE_LISTEN_PORT,
        DEFAULT_HTTP_SERVICE_ENABLED,
    );
    if api is Err {
        Err(api->Err_0)
    } else if http is Err {
        Err(http->Err_0)
    } else {
        Ok(
            ConfigView {
                storage: if sections.contains_key("storage"@) {
                    Some(spec_storage_path(sections["storage"@]))
                } else {
                    None
                },
                api: api->Ok_0,
                http: http->Ok_0,
                remote: if sections.contains_key("remote"@) {
                    Some(spec_remote(sections["remote"@]))
                } else {
                    None
                },
            },
        )
    }
}

/// The section of a service.
pub fn parse_service(
    node: &StringMap<String>,
    default_address: &str,
    default_port: u16,
    default_enabled: bool,
) -> (r: Result<ServiceConfig, ConfigError>)
    ensures
        match r {
            Ok(service) => spec_service(
                section_view(node@),
                default_address@,
                default_port,
                default_enabled,
            ) == Ok::<ServiceConfigView, ConfigError>(service@),
            Err(e) => spec_service(
                section_view(node@),
                default_address@,
                default_port,
                default_enabled,
            ) == Err::<ServiceConfigView, ConfigError>(e),
        },
{
    let listen_addresses = match node.get("listen_addresses") {
        Some(addresses) => split_list(addresses.as_str()),
        None => {
            let mut addresses: Vec<String> = Vec::new();
            addresses.push(default_address.to_owned());
            assert(key_views(addresses@) =~= seq![default_address@]);
            addresses
        },
    };
    let listen_port = match node.get("listen_port") {
        Some(port) => match parse_port(port.as_str()) {
            Some(port) => port,
            None => {
                return Err(ConfigError::ListenPort);
            },
        },
        None => default_port,
    };
    let enabled = match try_parse_enabled(node) {
        Ok(Some(enabled)) => enabled,
        Ok(None) => default_enabled,
        Err(e) => {
            return Err(e);
        },
    };
    Ok(ServiceConfig { listen_addresses, listen_port, enabled })
}

/// The remote section: the nodes that a client turns to.
pub fn parse_remote(node: &StringMap<String>) -> (r: RemoteConfig)
    ensures
        key_views(r.nodes@) == spec_remote(section_view(node@)),
{
    let nodes = match node.get("nodes") {
        Some(nodes) => split_list(nodes.as_str()),
        None => {
            let mut nodes: Vec<String> = Vec::new();
            nodes.push(DEFAULT_REMOTE_NODE.to_owned());
            assert(key_views(nodes@) =~= seq![DEFAULT_REMOTE_NODE@]);
            nodes
        },
    };
    RemoteConfig { nodes }
}

/// The configuration that the sections spell.
pub fn build_config(sections: &StringMap<StringMap<String>>) -> (r: Result<Config, ConfigError>)
    ensures
        match r {
            Ok(config) => spec_config(sections_view(sections@)) == Ok::<ConfigView, ConfigError>(
                config@,
            ),
            Err(e) => spec_config(sections_view(sections@)) == Err::<ConfigView, ConfigError>(e),
        },
{
    let storage = match sections.get("storage") {
        Some(node) => Some(StorageConfig { data_path: parse_storage_path(node) }),
        None => None,
    };
    let api = match sections.get("api") {
        Some(node) => match parse_service(
            node,
            DEFAULT_API_SERVICE_LISTEN_ADDRESS,
            DEFAULT_API_SERVICE_LISTEN_PORT,
            DEFAULT_API_SERVICE_ENABLED,
        ) {
            Ok(service) => Some(service),
            Err(e) => {
                return Err(e);
            },
        },
        None => None,
    };
    let http = match sections.get("http") {
        Some(node) => match parse_service(
            node,
            DEFAULT_HTTP_SERVICE_LISTEN_ADDRESS,
            DEFAULT_HTTP_SERVICE_LISTEN_PORT,
            DEFAULT_HTTP_SERVICE_ENABLED,
        ) {
            Ok(service) => Some(service),
            Err(e) => {
                return Err(e);
            },
        },
        None => None,
    };
    let remote = match sections.get("remote") {
        Some(node) => Some(parse_remote(node)),
        None => None,
    };
    Ok(Config { storage, api, http, remote })
}

/// What `serde_yaml::from_str` reads from a text as a map of sections,
/// each a map of names and values; `None` where it reads no such map.
pub uninterp spec fn yaml_sections(text: Seq<char>) -> Option<Map<Seq<char>, Map<Seq<char>, Seq<char>>>>;

/// The section that a list of names and values spells: each name with the
/// value that stands last for it.
pub open spec fn section_of(pairs: Seq<(String, String)>) -> SectionView
    decreases pairs.len(),
{
    if pairs.len() == 0 {
        Map::empty()
    } else {
        section_of(pairs.drop_last()).insert(pairs.last().0@, pairs.last().1@)
    }
}

/// The sections that a list of names and sections spells: each name with
/// the section that stands last for it.
pub open spec fn sections_of(list: Seq<(String, Vec<(String, String)>)>) -> Map<
    Seq<char>,
    SectionView,
>
    decreases list.len(),
{
    if list.len() == 0 {
        Map::empty()
    } else {
        sections_of(list.drop_last()).insert(list.last().0@, section_of(list.last().1@))
    }
}

/// `serde_yaml::Error`: why a text is no YAML, or not of the shape that
/// was asked for. The library does not look into it.
#[verifier::external_type_specification]
#[verifier::external_body]
pub struct ExYamlError(serde_yaml::Error);

/// The sections of a list that may be missing.
pub open spec fn listed_view(
    list: Result<Vec<(String, Vec<(String, String)>)>, serde_yaml::Error>,
) -> Option<Map<Seq<char>, SectionView>> {
    match list {
        Ok(list) => Some(sections_of(list@)),
        Err(_) => None,
    }
}

/// `serde_yaml::from_str` for `HashMap<String, HashMap<String, String>>`:
/// the sections of a YAML text with their names and values, listed in no
/// particular order, or the error where the text is no YAML or no map of
/// maps of texts. What is read depends on the text alone; which map that
/// is, the contract leaves to `yaml_sections`.
#[verifier::external_body]
fn read_sections(text: &str) -> (r: Result<Vec<(String, Vec<(String, String)>)>, serde_yaml::Error>)
    ensures
        listed_view(r) == yaml_sections(text@),
{
    let parsed: std::collections::HashMap<String, std::collections::HashMap<String, String>> =
        serde_yaml::from_str(text)?;
    Ok(parsed.into_iter().map(|(name, node)| (name, node.into_iter().collect())).collect())
}

fn to_section(pairs: &Vec<(String, String)>) -> (r: StringMap<String>)
    ensures
        section_view(r@) == section_of(pairs@),
{
    let mut node: StringMap<String> = StringMap::new();
    let mut i: usize = 0;
    proof {
        assert(pairs@.take(0) =~= Seq::<(String, String)>::empty());
        assert(section_view(node@) =~= Map::<Seq<char>, Seq<char>>::empty());
    }
    while i < pairs.len()
        invariant
            i <= pairs@.len(),
            section_view(node@) == section_of(pairs@.take(i as int)),
        decreases pairs@.len() - i,
    {
        let ghost before = node@;
        let name = pairs[i].0.clone();
        let value = pairs[i].1.clone();
        node.insert(name, value);
        proof {
            assert(pairs@.take(i + 1).drop_last() =~= pairs@.take(i as int));
            assert(section_view(before.insert(name@, value)) =~= section_view(before).insert(
                name@,
                value@,
            ));
        }
        i = i + 1;
    }
    assert(pairs@.take(i as int) =~= pairs@);
    node
}

/// The sections that a list of names and sections spells.
pub fn to_sections(list: &Vec<(String, Vec<(String, String)>)>) -> (r: StringMap<StringMap<String>>)
    ensures
        sections_view(r@) == sections_of(list@),
{
    let mut sections: StringMap<StringMap<String>> = StringMap::new();
    let mut i: usize = 0;
    proof {
        assert(list@.take(0) =~= Seq::<(String, Vec<(String, String)>)>::empty());
        assert(sections_view(sections@) =~= Map::<Seq<char>, SectionView>::empty());
    }
    while i < list.len()
        invariant
            i <= list@.len(),
            sections_view(sections@) == sections_of(list@.take(i as int)),
        decreases list@.len() - i,
    {
        let ghost before = sections@;
        let name = list[i].0.clone();
        let node = to_section(&list[i].1);
        sections.insert(name, node);
        proof {
            assert(list@.take(i + 1).drop_last() =~= list@.take(i as int));
            assert(sections_view(before.insert(name@, node)) =~= sections_view(before).insert(
                name@,
                section_view(node@),
            ));
        }
        i = i + 1;
    }
    assert(list@.take(i as int) =~= list@);
    sections
}

/// The configuration that a text spells once the variables of `env` are
/// substituted in it.
pub open spec fn spec_parse_config(text: Seq<char>, env: Map<Seq<char>, String>) -> Result<
    ConfigView,
    ConfigError,
> {
    match yaml_sections(spec_dollar_curly(text, env)) {
        Some(sections) => spec_config(sections),
        None => Err(ConfigError::Syntax),
    }
}

/// Reads the configuration from the text of its file: substitutes the
/// variables of `env`, parses the YAML and takes the sections.
pub fn parse_config(text: &str, env: &StringMap<String>) -> (r: Result<Config, ConfigError>)
    ensures
        match r {
            Ok(config) => spec_parse_config(text@, env@) == Ok::<ConfigView, ConfigError>(config@),
            Err(e) => spec_parse_config(text@, env@) == Err::<ConfigView, ConfigError>(e),
        },
{
    let substituted = dollar_curly(text, env);
    match read_sections(substituted.as_str()) {
        Ok(list) => build_config(&to_sections(&list)),
        Err(_) => Err(ConfigError::Syntax),
    }
}

} // verus!
