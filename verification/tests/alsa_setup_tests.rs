use iradio_bridge::alsa_setup::{asoundrc_update_is_defined, extract_field, plan_asoundrc_update};

fn chars(s: &str) -> Vec<char> {
    s.chars().collect()
}

fn field(content: &str, f: &str) -> Option<String> {
    extract_field(&chars(content), &chars(f)).map(|v| v.into_iter().collect())
}

const BASE: &str = "pcm.inferno {\n    type inferno\n    NAME \"Studio\"\n    BIND_IP 192.168.1.20\n    DEVICE_ID 0000c0ffee000001\n    CLOCK_PATH /run/clock\n}\n\n";

#[test]
fn extract_field_rules() {
    assert_eq!(field(BASE, "BIND_IP"), Some("192.168.1.20".to_string()));
    assert_eq!(field(BASE, "NAME"), Some("Studio".to_string()));
    assert_eq!(field(BASE, "MISSING"), None);
    assert_eq!(field("  KEY   \"\"\n KEY \"v\" \r\n", "KEY"), Some("v".to_string()));
    assert_eq!(field("KEYvalue", "KEY"), Some("value".to_string()));
    assert_eq!(field("", "KEY"), None);
}

fn block(slot: usize, name: &str, ip: &str, clock: &str, dev: &str) -> String {
    let process_id = 9 + slot;
    let alt_port = 6100 + (slot - 1) * 20;
    format!(
        "\n# iradio-bridge Dante TX slot {slot}\npcm.inferno_iradio_{slot} {{\n    type inferno\n    NAME \"{name}-ir{slot}\"\n    BIND_IP {ip}\n    SAMPLE_RATE 48000\n    PROCESS_ID {process_id}\n    ALT_PORT {alt_port}\n    RX_CHANNELS 0\n    TX_CHANNELS 2\n    TX_LATENCY_NS 10000000\n    RX_LATENCY_NS 10000000\n    CLOCK_PATH {clock}\n    DEVICE_ID {dev}\n    hint {{ show off description \"Inferno iradio slot {slot} TX\" }}\n}}\n"
    )
}

#[test]
fn writes_blocks_for_each_slot() {
    assert!(asoundrc_update_is_defined(BASE, 2));
    let out = plan_asoundrc_update(BASE, 2).unwrap().unwrap();
    let expected = format!(
        "{}\n{}{}",
        BASE.trim_end(),
        block(1, "Studio", "192.168.1.20", "/run/clock", "0000c0ffee00000b"),
        block(2, "Studio", "192.168.1.20", "/run/clock", "0000c0ffee00000c"),
    );
    assert_eq!(out, expected);
}

#[test]
fn defaults_for_clock_and_name() {
    let content = "BIND_IP 10.0.0.1\nDEVICE_ID abcd\n";
    let out = plan_asoundrc_update(content, 1).unwrap().unwrap();
    let expected = format!(
        "{}\n{}",
        content.trim_end(),
        block(1, "Inferno", "10.0.0.1", "/tmp/ptp-usrvclock", "abcdabd7")
    );
    assert_eq!(out, expected);
}

#[test]
fn short_device_id_uses_zero_suffix() {
    let content = "BIND_IP 10.0.0.1\nDEVICE_ID 12\n";
    let out = plan_asoundrc_update(content, 1).unwrap().unwrap();
    assert!(out.contains("DEVICE_ID 12000a\n"));
}

#[test]
fn already_configured_is_left_alone() {
    let content = format!("{}pcm.inferno_iradio_1 {{\n}}\n", BASE);
    assert_eq!(plan_asoundrc_update(&content, 4), Ok(None));
}

#[test]
fn missing_fields_are_errors() {
    assert_eq!(
        plan_asoundrc_update("DEVICE_ID 00\n", 1),
        Err("BIND_IP not found in .asoundrc — is the Inferno appliance configured?".to_string())
    );
    assert_eq!(
        plan_asoundrc_update("BIND_IP 1.2.3.4\n", 1),
        Err("DEVICE_ID not found in .asoundrc".to_string())
    );
}

#[test]
fn zero_slots_appends_only_newline() {
    let content = "BIND_IP 1.2.3.4\nDEVICE_ID 0001\n\n\n";
    let out = plan_asoundrc_update(content, 0).unwrap().unwrap();
    assert_eq!(out, "BIND_IP 1.2.3.4\nDEVICE_ID 0001\n");
}

#[test]
fn device_id_that_cannot_be_cut_is_rejected() {
    let content = "BIND_IP 1.2.3.4\nDEVICE_ID 0123456789aé\n";
    assert!(!asoundrc_update_is_defined(content, 1));
    assert!(asoundrc_update_is_defined("BIND_IP 1.2.3.4\n", 1));
}
