use proxy_rs::app_config::{config_format, ConfigFormat};
use proxy_rs::system_proxy::{
    default_route_interface, gnome_disable_commands, gnome_enable_commands,
    macos_disable_commands, macos_enable_commands, network_service_for, windows_proxy_server,
    ProxyCommand,
};
use proxy_rs::text::decimal_u16;

fn as_text(cs: &[ProxyCommand]) -> Vec<(String, Vec<String>)> {
    cs.iter().map(|c| (c.program.clone(), c.args.clone())).collect()
}

fn cmd(program: &str, args: &[&str]) -> (String, Vec<String>) {
    (program.to_string(), args.iter().map(|a| a.to_string()).collect())
}

#[test]
fn route_interface_is_second_word_of_interface_line() {
    let out = "   route to: default\ndestination: default\n       mask: default\n    gateway: 192.168.1.1\n  interface: en7\n      flags: <UP,GATEWAY,DONE,STATIC,PRCLONING>\n";
    assert_eq!(default_route_interface(out), "en7");
}

#[test]
fn route_interface_falls_back_to_en0() {
    assert_eq!(default_route_interface(""), "en0");
    assert_eq!(default_route_interface("route to: default\n"), "en0");
    // The first interface line decides, even when it names nothing.
    assert_eq!(default_route_interface("interface:\ninterface: en3\n"), "en0");
}

#[test]
fn route_interface_reads_windows_line_ends() {
    assert_eq!(default_route_interface("gateway: 10.0.0.1\r\n\tinterface:\ten1\r\n"), "en1");
}

#[test]
fn network_service_is_named_on_the_line_before_the_device() {
    let listing = "An asterisk (*) denotes that a network service is disabled.\n(1) Ethernet\n(Hardware Port: Ethernet, Device: en0)\n\n(2) Wi-Fi Home\n(Hardware Port: Wi-Fi, Device: en1)\n";
    assert_eq!(network_service_for(listing, "en0"), "Ethernet");
    // Only the second word of the earlier line is taken.
    assert_eq!(network_service_for(listing, "en1"), "Wi-Fi");
    // A device that is not listed.
    assert_eq!(network_service_for(listing, "en9"), "Wi-Fi");
}

#[test]
fn network_service_skips_a_device_line_with_nothing_before_it() {
    let listing = "(Hardware Port: X, Device: en2)\n(3) Thunderbolt\n(Hardware Port: TB, Device: en2)\n";
    assert_eq!(network_service_for(listing, "en2"), "Thunderbolt");
    let listing = "(1)\n(Hardware Port: X, Device: en2)\n";
    assert_eq!(network_service_for(listing, "en2"), "Wi-Fi");
}

#[test]
fn gnome_commands() {
    assert_eq!(
        as_text(&gnome_enable_commands("127.0.0.1", 1080)),
        vec![
            cmd("gsettings", &["set", "org.gnome.system.proxy", "mode", "manual"]),
            cmd("gsettings", &["set", "org.gnome.system.proxy.socks", "host", "127.0.0.1"]),
            cmd("gsettings", &["set", "org.gnome.system.proxy.socks", "port", "1080"]),
        ]
    );
    assert_eq!(
        as_text(&gnome_disable_commands()),
        vec![cmd("gsettings", &["set", "org.gnome.system.proxy", "mode", "'none'"])]
    );
}

#[test]
fn macos_commands() {
    assert_eq!(
        as_text(&macos_enable_commands("Wi-Fi", "127.0.0.1", 65535)),
        vec![
            cmd("networksetup", &["-setsocksfirewallproxy", "Wi-Fi", "127.0.0.1", "65535"]),
            cmd("networksetup", &["-setsocksfirewallproxystate", "Wi-Fi", "on"]),
        ]
    );
    assert_eq!(
        as_text(&macos_disable_commands("Ethernet")),
        vec![cmd("networksetup", &["-setsocksfirewallproxystate", "Ethernet", "off"])]
    );
}

#[test]
fn windows_proxy_server_value() {
    assert_eq!(windows_proxy_server("127.0.0.1", 1080), "socks5=127.0.0.1:1080");
    assert_eq!(windows_proxy_server("", 0), "socks5=:0");
}

#[test]
fn port_numbers_in_decimal() {
    assert_eq!(decimal_u16(0), "0");
    assert_eq!(decimal_u16(9), "9");
    assert_eq!(decimal_u16(10), "10");
    assert_eq!(decimal_u16(10800), "10800");
    assert_eq!(decimal_u16(u16::MAX), "65535");
}

#[test]
fn config_format_by_extension() {
    assert_eq!(config_format("/etc/proxy/client.json"), ConfigFormat::Json);
    assert_eq!(config_format("client.JSON"), ConfigFormat::Json);
    assert_eq!(config_format("client.toml"), ConfigFormat::Toml);
    assert_eq!(config_format("config"), ConfigFormat::Toml);
    assert_eq!(config_format("settings.yaml"), ConfigFormat::Toml);
}
