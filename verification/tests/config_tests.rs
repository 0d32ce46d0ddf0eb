use ini::Ini;
use rivals_rwinner::config::{
    create_default_config, get_data_address, get_debug_address, get_send_address, load_settings, ConfigError,
    Settings,
};

#[test]
fn defaults_without_a_file() {
    let settings = load_settings(None).unwrap();
    assert_eq!(get_data_address(&settings), "127.0.0.1:4555");
    assert_eq!(get_debug_address(&settings), "127.0.0.1:4556");
    assert_eq!(get_send_address(&settings), "127.0.0.1:5005");
}

#[test]
fn values_of_the_file_are_used() {
    let text = "[internal_data]\ntcp_ip=10.0.0.1\ntcp_port=7001\n\n[internal_debug]\ntcp_ip=10.0.0.2\ntcp_port=7002\n\n[conn]\ntcp_ip=192.168.1.9\ntcp_port=9000\n";
    let settings = load_settings(Some(text)).unwrap();
    assert_eq!(get_data_address(&settings), "10.0.0.1:7001");
    assert_eq!(get_debug_address(&settings), "10.0.0.2:7002");
    assert_eq!(get_send_address(&settings), "192.168.1.9:9000");
}

#[test]
fn missing_values_fall_back_one_by_one() {
    let text = "[internal_data]\ntcp_port=7001\n[conn]\ntcp_ip=example.org\n";
    let settings = load_settings(Some(text)).unwrap();
    assert_eq!(settings.data_ip, None);
    assert_eq!(settings.data_port, Some(String::from("7001")));
    assert_eq!(get_data_address(&settings), "127.0.0.1:7001");
    assert_eq!(get_debug_address(&settings), "127.0.0.1:4556");
    assert_eq!(get_send_address(&settings), "example.org:5005");
}

#[test]
fn empty_text_gives_no_value() {
    let settings = load_settings(Some("")).unwrap();
    assert_eq!(settings.debug_ip, None);
    assert_eq!(settings.send_port, None);
    assert_eq!(get_debug_address(&settings), "127.0.0.1:4556");
}

#[test]
fn malformed_text_is_an_error() {
    assert_eq!(load_settings(Some("[internal_data]\n=4555\n")).err(), Some(ConfigError::Malformed));
}

#[test]
fn default_document_holds_the_default_values() {
    let document = create_default_config();
    assert_eq!(document.get_from(Some("internal_data"), "tcp_ip"), Some("127.0.0.1"));
    assert_eq!(document.get_from(Some("internal_data"), "tcp_port"), Some("4555"));
    assert_eq!(document.get_from(Some("internal_debug"), "tcp_ip"), Some("127.0.0.1"));
    assert_eq!(document.get_from(Some("internal_debug"), "tcp_port"), Some("4556"));
    assert_eq!(document.get_from(Some("conn"), "tcp_ip"), Some("127.0.0.1"));
    assert_eq!(document.get_from(Some("conn"), "tcp_port"), Some("5005"));
    assert_eq!(document.sections().flatten().count(), 3);
}

#[test]
fn default_document_reads_back_as_the_defaults() {
    let document = create_default_config();
    let mut written: Vec<u8> = Vec::new();
    document.write_to(&mut written).unwrap();
    let text = String::from_utf8(written).unwrap();
    let settings = load_settings(Some(&text)).unwrap();
    let defaults = Settings::defaults();
    assert_eq!(settings.data_ip, defaults.data_ip);
    assert_eq!(settings.data_port, defaults.data_port);
    assert_eq!(settings.debug_ip, defaults.debug_ip);
    assert_eq!(settings.debug_port, defaults.debug_port);
    assert_eq!(settings.send_ip, defaults.send_ip);
    assert_eq!(settings.send_port, defaults.send_port);
}

#[test]
fn settings_of_a_document() {
    let mut document = Ini::new();
    document.set_to(Some("internal_debug"), String::from("tcp_ip"), String::from("host.local"));
    document.set_to(Some("internal_debug"), String::from("tcp_port"), String::from("1"));
    document.set_to(Some("internal_debug"), String::from("tcp_port"), String::from("2"));
    let settings = Settings::from_ini(&document);
    assert_eq!(get_debug_address(&settings), "host.local:2");
    assert_eq!(get_data_address(&settings), "127.0.0.1:4555");
}
