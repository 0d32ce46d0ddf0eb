//! The endpoint resolver: the three network endpoints of a session, read
//! from a configuration text of three sections, with a default for every
//! value that the text does not give.

use ini::Ini;
use ini::ParseError;
use vstd::prelude::*;
use vstd::string::StringExecFns;

verus! {

/// The configuration document of the `ini` crate. Verus sees nothing inside it.
#[verifier::external_type_specification]
#[verifier::external_body]
pub struct ExIni(Ini);

/// The error with which the `ini` crate refuses a malformed text.
#[verifier::external_type_specification]
#[verifier::external_body]
pub struct ExParseError(ParseError);

/// What a configuration document holds: for a section's name and a key, the
/// value that a lookup of that key in that section finds.
pub uninterp spec fn ini_entries(ini: Ini) -> Map<(Seq<char>, Seq<char>), Seq<char>>;

/// What the `ini` crate reads from a text: the entries of the document, or
/// nothing where it refuses the text as malformed.
pub uninterp spec fn ini_parsed(text: Seq<char>) -> Option<Map<(Seq<char>, Seq<char>), Seq<char>>>;

/// The entries of a document that holds nothing.
pub open spec fn no_entries() -> Map<(Seq<char>, Seq<char>), Seq<char>> {
    Map::empty()
}

/// Calls `Ini::load_from_str`. Not proved: that the outcome is a function of
/// the text alone, named `ini_parsed`, an error standing for a text that the
/// crate refuses.
#[verifier::external_body]
fn parse_ini(text: &str) -> (parsed: Result<Ini, ParseError>)
    ensures
        parsed is Ok == ini_parsed(text@) is Some,
        parsed is Ok ==> ini_entries(parsed->Ok_0) == ini_parsed(text@)->Some_0,
{
    Ini::load_from_str(text)
}

/// Calls `Ini::get_from` with a named section. Not proved: that it returns
/// the value held under that section and key, and nothing where there is none.
#[verifier::external_body]
fn ini_get(ini: &Ini, section: &str, key: &str) -> (value: Option<String>)
    ensures
        value is Some == ini_entries(*ini).contains_key((section@, key@)),
        value is Some ==> value->Some_0@ == ini_entries(*ini)[(section@, key@)],
{
    ini.get_from(Some(section), key).map(String::from)
}

/// Calls `Ini::new`. Not proved: that the new document holds no entry.
#[verifier::external_body]
fn ini_new() -> (document: Ini)
    ensures
        ini_entries(document) == no_entries(),
{
    Ini::new()
}

/// Calls `Ini::set_to` with a named section. Not proved: that afterwards a
/// lookup of that key in that section finds the value, and that every other
/// entry is as before.
#[verifier::external_body]
fn ini_set(ini: &mut Ini, section: &str, key: &str, value: &str)
    ensures
        ini_entries(*final(ini)) == ini_entries(*old(ini)).insert((section@, key@), value@),
{
    ini.set_to(Some(section), String::from(key), String::from(value));
}

/// Why no settings could be read.
#[derive(Clone, Copy, Debug, PartialEq, Eq, Structural)]
pub enum ConfigError {
    /// The configuration text is malformed.
    Malformed,
}

/// The values of the three sections, each as the text gave it, or nothing
/// where the text did not give it.
#[derive(Clone, Debug)]
pub struct Settings {
    pub data_ip: Option<String>,
    pub data_port: Option<String>,
    pub debug_ip: Option<String>,
    pub debug_port: Option<String>,
    pub send_ip: Option<String>,
    pub send_port: Option<String>,
}

/// The settings as plain values.
pub struct SettingsView {
    pub data_ip: Option<Seq<char>>,
    pub data_port: Option<Seq<char>>,
    pub debug_ip: Option<Seq<char>>,
    pub debug_port: Option<Seq<char>>,
    pub send_ip: Option<Seq<char>>,
    pub send_port: Option<Seq<char>>,
}

/// The characters of an optional string.
pub open spec fn text_of(value: Option<String>) -> Option<Seq<char>> {
    match value {
        Some(text) => Some(text@),
        None => None,
    }
}

impl View for Settings {
    type V = SettingsView;

    open spec fn view(&self) -> SettingsView {
        SettingsView {
            data_ip: text_of(self.data_ip),
            data_port: text_of(self.data_port),
            debug_ip: text_of(self.debug_ip),
            debug_port: text_of(self.debug_port),
            send_ip: text_of(self.send_ip),
            send_port: text_of(self.send_port),
        }
    }
}

/// The value held under a section and a key, if there is one.
pub open spec fn entry(
    entries: Map<(Seq<char>, Seq<char>), Seq<char>>,
    section: Seq<char>,
    key: Seq<char>,
) -> Option<Seq<char>> {
    if entries.contains_key((section, key)) {
        Some(entries[(section, key)])
    } else {
        None
    }
}

/// The settings that a document's entries give.
pub open spec fn settings_of(entries: Map<(Seq<char>, Seq<char>), Seq<char>>) -> SettingsView {
    SettingsView {
        data_ip: entry(entries, "internal_data"@, "tcp_ip"@),
        data_port: entry(entries, "internal_data"@, "tcp_port"@),
        debug_ip: entry(entries, "internal_debug"@, "tcp_ip"@),
        debug_port: entry(entries, "internal_debug"@, "tcp_port"@),
        send_ip: entry(entries, "conn"@, "tcp_ip"@),
        send_port: entry(entries, "conn"@, "tcp_port"@),
    }
}

/// The settings of the default configuration.
pub open spec fn default_settings() -> SettingsView {
    SettingsView {
        data_ip: Some("127.0.0.1"@),
        data_port: Some("4555"@),
        debug_ip: Some("127.0.0.1"@),
        debug_port: Some("4556"@),
        send_ip: Some("127.0.0.1"@),
        send_port: Some("5005"@),
    }
}

/// The entries of the default configuration.
pub open spec fn default_entries() -> Map<(Seq<char>, Seq<char>), Seq<char>> {
    no_entries().insert(
        ("internal_data"@, "tcp_ip"@),
        "127.0.0.1"@,
    ).insert(("internal_data"@, "tcp_port"@), "4555"@).insert(
        ("internal_debug"@, "tcp_ip"@),
        "127.0.0.1"@,
    ).insert(("internal_debug"@, "tcp_port"@), "4556"@).insert(
        ("conn"@, "tcp_ip"@),
        "127.0.0.1"@,
    ).insert(("conn"@, "tcp_port"@), "5005"@)
}

/// The settings that are read from a configuration text, where there is
/// one, given what the `ini` crate reads from it.
pub open spec fn loaded(text: Option<Seq<char>>) -> Result<SettingsView, ConfigError> {
    match text {
        None => Ok(default_settings()),
        Some(text) => match ini_parsed(text) {
            None => Err(ConfigError::Malformed),
            Some(entries) => Ok(settings_of(entries)),
        },
    }
}

/// An endpoint as text: the host, a colon, the port.
pub open spec fn endpoint_text(ip: Seq<char>, port: Seq<char>) -> Seq<char> {
    ip + ":"@ + port
}

/// A given value, or the default where none is given.
pub open spec fn value_or(value: Option<Seq<char>>, default: Seq<char>) -> Seq<char> {
    match value {
        Some(text) => text,
        None => default,
    }
}

impl Settings {
    /// The settings of the default configuration.
    pub fn defaults() -> (settings: Settings)
        ensures
            settings@ == default_settings(),
    {
        Settings {
            data_ip: Some(String::from_str("127.0.0.1")),
            data_port: Some(String::from_str("4555")),
            debug_ip: Some(String::from_str("127.0.0.1")),
            debug_port: Some(String::from_str("4556")),
            send_ip: Some(String::from_str("127.0.0.1")),
            send_port: Some(String::from_str("5005")),
        }
    }

    /// Reads the six values of the three sections from a document.
    pub fn from_ini(ini: &Ini) -> (settings: Settings)
        ensures
            settings@ == settings_of(ini_entries(*ini)),
    {
        Settings {
            data_ip: ini_get(ini, "internal_data", "tcp_ip"),
            data_port: ini_get(ini, "internal_data", "tcp_port"),
            debug_ip: ini_get(ini, "internal_debug", "tcp_ip"),
            debug_port: ini_get(ini, "internal_debug", "tcp_port"),
            send_ip: ini_get(ini, "conn", "tcp_ip"),
            send_port: ini_get(ini, "conn", "tcp_port"),
        }
    }
}

/// Reads the settings. Without a configuration text the defaults hold; a
/// text that is malformed is an error; any other text gives the values
/// found in it.
pub fn load_settings(text: Option<&str>) -> (outcome: Result<Settings, ConfigError>)
    ensures
        outcome is Ok == loaded(text_of_str(text)) is Ok,
        outcome is Ok ==> outcome->Ok_0@ == loaded(text_of_str(text))->Ok_0,
        outcome is Err ==> outcome->Err_0 == loaded(text_of_str(text))->Err_0,
{
    match text {
        None => Ok(Settings::defaults()),
        Some(text) => match parse_ini(text) {
            Ok(ini) => Ok(Settings::from_ini(&ini)),
            Err(_) => Err(ConfigError::Malformed),
        },
    }
}

/// The characters of an optional string slice.
pub open spec fn text_of_str(value: Option<&str>) -> Option<Seq<char>> {
    match value {
        Some(text) => Some(text@),
        None => None,
    }
}

/// The document of the default configuration: three sections, each with
/// its host and its port.
pub fn create_default_config() -> (ini: Ini)
    ensures
        ini_entries(ini) == default_entries(),
{
    let mut ini = ini_new();
    ini_set(&mut ini, "internal_data", "tcp_ip", "127.0.0.1");
    ini_set(&mut ini, "internal_data", "tcp_port", "4555");
    ini_set(&mut ini, "internal_debug", "tcp_ip", "127.0.0.1");
    ini_set(&mut ini, "internal_debug", "tcp_port", "4556");
    ini_set(&mut ini, "conn", "tcp_ip", "127.0.0.1");
    ini_set(&mut ini, "conn", "tcp_port", "5005");
    ini
}

/// An endpoint as text, from the two values given or their defaults.
fn endpoint(ip: &Option<String>, port: &Option<String>, default_ip: &str, default_port: &str) -> (address:
    String)
    ensures
        address@ == endpoint_text(
            value_or(text_of(*ip), default_ip@),
            value_or(text_of(*port), default_port@),
        ),
{
    let mut address = match ip {
        Some(text) => text.clone(),
        None => String::from_str(default_ip),
    };
    address.append(":");
    match port {
        Some(text) => address.append(text.as_str()),
        None => address.append(default_port),
    }
    address
}

/// The endpoint of the debug channel: `internal_debug`, by default 127.0.0.1:4556.
pub fn get_debug_address(settings: &Settings) -> (address: String)
    ensures
        address@ == endpoint_text(
            value_or(settings@.debug_ip, "127.0.0.1"@),
            value_or(settings@.debug_port, "4556"@),
        ),
{
    endpoint(&settings.debug_ip, &settings.debug_port, "127.0.0.1", "4556")
}

/// The endpoint of the data channel: `internal_data`, by default 127.0.0.1:4555.
pub fn get_data_address(settings: &Settings) -> (address: String)
    ensures
        address@ == endpoint_text(
            value_or(settings@.data_ip, "127.0.0.1"@),
            value_or(settings@.data_port, "4555"@),
        ),
{
    endpoint(&settings.data_ip, &settings.data_port, "127.0.0.1", "4555")
}

/// The endpoint of the forward channel: `conn`, by default 127.0.0.1:5005.
pub fn get_send_address(settings: &Settings) -> (address: String)
    ensures
        address@ == endpoint_text(
            value_or(settings@.send_ip, "127.0.0.1"@),
            value_or(settings@.send_port, "5005"@),
        ),
{
    endpoint(&settings.send_ip, &settings.send_port, "127.0.0.1", "5005")
}

/// The document of the default configuration gives the default settings.
pub proof fn lemma_default_document_gives_defaults()
    ensures
        settings_of(default_entries()) == default_settings(),
{
    reveal_strlit("internal_data");
    reveal_strlit("internal_debug");
    reveal_strlit("conn");
    reveal_strlit("tcp_ip");
    reveal_strlit("tcp_port");
    let data = "internal_data"@;
    let debug = "internal_debug"@;
    let conn = "conn"@;
    let ip = "tcp_ip"@;
    let port = "tcp_port"@;
    assert(data.len() != debug.len() && data.len() != conn.len() && debug.len() != conn.len());
    assert(ip.len() != port.len());
    assert((data, ip) != (data, port));
    assert((debug, ip) != (debug, port));
    assert((conn, ip) != (conn, port));
}

} // verus!
