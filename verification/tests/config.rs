use cockatiel_client::config::{
    default_ip, default_port, default_position, default_priority, fill_object, is_zero_pin, must_reread,
    CockatielConfig, ConfigRead, Loaded,
};

fn args(list: &[&str]) -> Vec<String> {
    list.iter().map(|s| s.to_string()).collect()
}

fn assert_default(c: &CockatielConfig) {
    assert_eq!(c.ip, "127.0.0.1");
    assert_eq!(c.port, 9734);
    assert_eq!(c.pin, 0);
    assert_eq!(c.module_name, "unnamed_module");
    assert_eq!(c.position, 1);
    assert_eq!(c.priority, 100);
}

fn json(s: &str) -> serde_json::Value {
    serde_json::from_str(s).unwrap()
}

#[test]
fn defaults() {
    assert_eq!(default_ip(), "127.0.0.1");
    assert_eq!(default_port(), 9734);
    assert_eq!(default_position(), 1);
    assert_eq!(default_priority(), 100);
    assert!(is_zero_pin(&0));
    assert!(!is_zero_pin(&-1));
    assert_default(&CockatielConfig::unnamed());
}

fn load(content: &str) -> Loaded {
    CockatielConfig::load_or_create(ConfigRead::Unparsed(content.to_string()))
}

fn object(s: &str) -> serde_json::Map<String, serde_json::Value> {
    match json(s) {
        serde_json::Value::Object(m) => m,
        _ => panic!(),
    }
}

const CREATED: &str = "{\n  \"ip\": \"127.0.0.1\",\n  \"port\": 9734,\n  \"module_name\": \"unnamed_module\",\n  \"position\": 1,\n  \"priority\": 100\n}";

#[test]
fn a_missing_config_file_is_created() {
    let loaded = CockatielConfig::load_or_create(ConfigRead::Missing);
    assert_default(&loaded.config);
    assert_eq!(loaded.file.as_deref(), Some(CREATED));
}

#[test]
fn a_config_file_with_the_settings_is_taken_as_it_is() {
    let mut c = CockatielConfig::unnamed();
    c.port = 7;
    let loaded = CockatielConfig::load_or_create(ConfigRead::Parsed(c));
    assert_eq!(loaded.config.port, 7);
    assert_eq!(loaded.file, None);
}

#[test]
fn a_combined_config_file_is_filled_in() {
    let loaded = load("{\"module_specific\": {\"volume\": 0.5}, \"port\": 1234, \"pin\": 9}");
    let file = loaded.file.unwrap();
    let filled = "{\"ip\":\"127.0.0.1\",\"module_name\":\"unnamed_module\",\"module_specific\":{\"volume\":0.5},\"pin\":9,\"port\":1234,\"position\":1,\"priority\":100}";
    assert_eq!(json(&file), json(filled));
    assert!(file.starts_with("{\n  \"ip\": \"127.0.0.1\",\n"));
    assert_eq!((loaded.config.port, loaded.config.pin), (1234, 9));
    assert_eq!(loaded.config.module_name, "unnamed_module");
}

#[test]
fn an_object_with_a_bad_setting_is_not_thrown_away() {
    let loaded = load("{\"port\":\"abc\",\"module_name\":\"m\",\"module_specific\":{\"k\":1}}");
    assert_default(&loaded.config);
    let file = loaded.file.unwrap();
    let kept = json(&file);
    assert_eq!(kept["port"], json("\"abc\""));
    assert_eq!(kept["module_name"], json("\"m\""));
    assert_eq!(kept["module_specific"], json("{\"k\":1}"));
    assert_eq!(kept["priority"], json("100"));
    let again = load(&file);
    assert_default(&again.config);
    assert_eq!(again.file, Some(file));
}

#[test]
fn a_config_file_that_is_no_object_is_replaced() {
    for content in ["ip = 1", "[1,2]", "7", ""] {
        let loaded = load(content);
        assert_default(&loaded.config);
        assert_eq!(loaded.file.as_deref(), Some(CREATED), "{:?}", content);
    }
}

#[test]
fn loading_again_changes_nothing() {
    let first = load("{\"module_specific\": {\"volume\": 0.5, \"deep\": [[1e3]]}}");
    let file = first.file.unwrap();
    let c = CockatielConfig::from_object(&object(&file)).unwrap();
    assert_default(&c);
    let again = CockatielConfig::load_or_create(ConfigRead::Parsed(c));
    assert_default(&again.config);
    assert_eq!(again.file, None);
    let bad = load("{\"port\": 80.5, \"module_specific\": {\"volume\": 0.5}}");
    let file = bad.file.unwrap();
    assert_default(&bad.config);
    assert_eq!(json(&file)["module_specific"], json("{\"volume\": 0.5}"));
    let again = load(&file);
    assert_default(&again.config);
    assert_eq!(again.file, Some(file));
}

#[test]
fn the_config_file_is_written_only_if_the_settings_changed() {
    let c = CockatielConfig::unnamed();
    let read = Some("{\"other\": 1}".to_string());
    assert_eq!(c.persist_if(false, &read, &None), None);
    assert_eq!(c.persist_if(true, &read, &None), c.persist(&read, &None));
    assert!(c.persist_if(true, &None, &None).is_some());
}

#[test]
fn settings_are_read_from_an_object() {
    let c = CockatielConfig::from_object(&object(
        "{\"ip\":\"h\\n\",\"port\":65535,\"pin\":-7,\"module_name\":\"tts\",\"position\":-2147483648,\"priority\":4294967295,\"x\":1}",
    ))
    .unwrap();
    assert_eq!((c.ip.as_str(), c.port, c.pin, c.module_name.as_str()), ("h\n", 65535, -7, "tts"));
    assert_eq!((c.position, c.priority), (i32::MIN, u32::MAX));
    let c = CockatielConfig::from_object(&object("{\"module_name\":\"unnamed_module\"}")).unwrap();
    assert_default(&c);
    for bad in [
        "{}",
        "{\"module_name\":1}",
        "{\"module_name\":null}",
        "{\"module_name\":\"m\",\"ip\":7}",
        "{\"module_name\":\"m\",\"port\":65536}",
        "{\"module_name\":\"m\",\"port\":-1}",
        "{\"module_name\":\"m\",\"port\":80.0}",
        "{\"module_name\":\"m\",\"port\":\"80\"}",
        "{\"module_name\":\"m\",\"pin\":2147483648}",
        "{\"module_name\":\"m\",\"priority\":18446744073709551615}",
        "{\"module_name\":\"m\",\"position\":1e3}",
    ] {
        assert!(CockatielConfig::from_object(&object(bad)).is_none(), "{}", bad);
    }
}

#[test]
fn settings_in_a_file_of_their_own_are_read_back() {
    for pin in [0, 1, -1, i32::MIN, i32::MAX] {
        let mut c = CockatielConfig::unnamed();
        c.ip = "\"\\\u{1}\u{1f600}".to_string();
        c.pin = pin;
        let text = c.file_text();
        let m = object(&text);
        assert_eq!(m.contains_key("pin"), pin != 0);
        let d = CockatielConfig::from_object(&m).unwrap();
        assert_eq!((d.ip, d.port, d.pin, d.module_name), (c.ip, c.port, c.pin, c.module_name));
        assert_eq!((d.position, d.priority), (c.position, c.priority));
    }
    let mut c = CockatielConfig::unnamed();
    c.pin = 5;
    assert!(c.file_text().contains("9734,\n  \"pin\": 5,\n  \"module_name\""));
}

#[test]
fn an_object_is_filled_in_place() {
    let mut m = object("{\"priority\": 7, \"x\": []}");
    fill_object(&mut m);
    assert_eq!(
        serde_json::Value::Object(m),
        json("{\"ip\":\"127.0.0.1\",\"port\":9734,\"module_name\":\"unnamed_module\",\"position\":1,\"priority\":7,\"x\":[]}"),
    );
}

#[test]
fn deeply_nested_settings_of_a_module_are_kept() {
    let nested = |n: usize| format!("{{\"module_specific\": {}{}}}", "[".repeat(n), "]".repeat(n));
    let c = CockatielConfig::unnamed();
    let written = c.persist(&Some(nested(126)), &None).unwrap();
    assert_eq!(json(&written)["module_specific"], json(&nested(126))["module_specific"]);
    let written = load(&nested(126)).file.unwrap();
    assert_eq!(json(&written)["module_specific"], json(&nested(126))["module_specific"]);
}

#[test]
fn the_pin_variable_sets_the_pin() {
    let mut c = CockatielConfig::unnamed();
    c.apply_pin_variable(&Some("4711".to_string()));
    assert_eq!(c.pin, 4711);
    c.apply_pin_variable(&Some("no number".to_string()));
    c.apply_pin_variable(&Some(" 1".to_string()));
    c.apply_pin_variable(&None);
    assert_eq!(c.pin, 4711);
}

#[test]
fn options_override_the_settings() {
    let mut c = CockatielConfig::unnamed();
    let changed = c.apply_arguments(&args(&[
        "program", "--ip", "10.0.0.1", "stray", "-p", "80", "--pin", "-5", "--name", "  tts  ",
    ]));
    assert!(changed);
    assert_eq!(c.ip, "10.0.0.1");
    assert_eq!(c.port, 80);
    assert_eq!(c.pin, -5);
    assert_eq!(c.module_name, "tts");
    assert!(c.apply_arguments(&args(&["program", "-i", "h", "--port", "81", "-n", "n"])));
    assert_eq!((c.ip.as_str(), c.port, c.module_name.as_str()), ("h", 81, "n"));
}

#[test]
fn options_that_set_nothing_change_nothing() {
    for list in [
        &[][..],
        &["--ip"][..],
        &["program"][..],
        &["program", "--ip"][..],
        &["program", "--port", "high"][..],
        &["program", "--port", "65536"][..],
        &["program", "--pin", ""][..],
        &["program", "--name", "  "][..],
        &["program", "ip", "10.0.0.1"][..],
        &["--ip", "10.0.0.1"][..],
    ] {
        let mut c = CockatielConfig::unnamed();
        assert!(!c.apply_arguments(&args(list)), "{:?}", list);
        assert_default(&c);
    }
}

#[test]
fn an_option_takes_the_argument_behind_it_whatever_it_is() {
    let mut c = CockatielConfig::unnamed();
    assert!(c.apply_arguments(&args(&["program", "--ip", "--port", "80"])));
    assert_eq!(c.ip, "--port");
    assert_eq!(c.port, 9734);
}

#[test]
fn the_command_line_pin_wins_over_the_variable() {
    let mut c = CockatielConfig::unnamed();
    c.pin = 1;
    assert!(c.configure(&Some("2".to_string()), &args(&["program", "--pin", "3", "--pin", "4"])));
    assert_eq!(c.pin, 4);
    assert!(!c.configure(&Some("2".to_string()), &args(&["program"])));
    assert_eq!(c.pin, 2);
}

#[test]
fn the_settings_are_persisted_without_the_pin() {
    let mut c = CockatielConfig::unnamed();
    c.ip = "h\"\n".to_string();
    c.pin = 1234;
    c.position = -2;
    let read = Some("{\"module_specific\": [1.5], \"other\": null, \"port\": 1}".to_string());
    assert!(!must_reread(&read));
    let written = c.persist(&read, &None).unwrap();
    assert_eq!(
        json(&written),
        json("{\"ip\":\"h\\\"\\n\",\"port\":9734,\"module_name\":\"unnamed_module\",\"position\":-2,\"priority\":100,\"module_specific\":[1.5],\"other\":null}"),
    );
    assert_eq!(c.persist(&Some(written.clone()), &None), Some(written));
}

#[test]
fn a_pin_that_is_in_the_config_file_stays_there() {
    let mut c = CockatielConfig::unnamed();
    c.pin = 1234;
    let written = c.persist(&Some("{\"pin\": 9}".to_string()), &None).unwrap();
    assert_eq!(json(&written)["pin"], json("9"));
}

#[test]
fn module_settings_are_found_on_a_second_look() {
    let c = CockatielConfig::unnamed();
    let again = Some("{\"module_specific\": {\"a\": 1}}".to_string());
    assert!(must_reread(&None));
    assert!(must_reread(&Some("not json".to_string())));
    assert!(must_reread(&Some("{}".to_string())));
    let written = c.persist(&None, &again).unwrap();
    assert_eq!(json(&written)["module_specific"], json("{\"a\":1}"));
    assert_eq!(json(&written)["port"], json("9734"));
    let first = Some("{\"module_specific\": 7}".to_string());
    let written = c.persist(&first, &again).unwrap();
    assert_eq!(json(&written)["module_specific"], json("7"));
    let written = c.persist(&None, &Some("[1]".to_string())).unwrap();
    assert!(json(&written).get("module_specific").is_none());
}

#[test]
fn a_config_file_that_is_no_object_is_not_written() {
    let read = Some("[1]".to_string());
    assert!(!must_reread(&read));
    assert_eq!(CockatielConfig::unnamed().persist(&read, &None), None);
}

#[test]
fn strings_are_escaped_as_json_escapes_them() {
    let mut c = CockatielConfig::unnamed();
    c.module_name = "\"\\\u{8}\u{9}\u{a}\u{b}\u{c}\u{d}\u{1f}\u{7f}é".to_string();
    let written = c.persist(&None, &None).unwrap();
    assert!(written.contains("\"\\\"\\\\\\b\\t\\n\\u000b\\f\\r\\u001f\u{7f}é\""), "{}", written);
}

#[test]
fn the_socket_is_that_of_the_settings() {
    assert_eq!(CockatielConfig::unnamed().socket_url(), "ws://127.0.0.1:9734");
}
