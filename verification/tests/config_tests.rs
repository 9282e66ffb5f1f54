use blutgang::config::CliArgs;
use blutgang::config::ConfigValue;
use blutgang::config::Settings;
use blutgang::config::delta_from_max_per_second;
use blutgang::config::normalize_address;
use blutgang::config::padded_block_time;
use blutgang::config::replace_localhost;
use blutgang::config::split_csv;

fn kv(k: &str, v: ConfigValue) -> (String, ConfigValue) {
    (k.to_string(), v)
}

fn blutgang_table() -> ConfigValue {
    ConfigValue::Table(vec![
        kv("do_clear", ConfigValue::Bool(true)),
        kv("address", ConfigValue::Str("localhost".to_string())),
        kv("sort_on_startup", ConfigValue::Bool(false)),
        kv("ma_length", ConfigValue::Int(10)),
        kv("health_check", ConfigValue::Bool(true)),
        kv("header_check", ConfigValue::Bool(true)),
        kv("ttl", ConfigValue::Int(300)),
        kv("expected_block_time", ConfigValue::Int(10000)),
        kv("max_retries", ConfigValue::Int(32)),
        kv("health_check_ttl", ConfigValue::Int(400)),
        kv("supress_rpc_check", ConfigValue::Bool(false)),
    ])
}

fn sled_table() -> ConfigValue {
    ConfigValue::Table(vec![
        kv("db_path", ConfigValue::Str("./cache".to_string())),
        kv("cache_capacity", ConfigValue::Int(1000000000)),
        kv("compression", ConfigValue::Bool(true)),
        kv("print_profile", ConfigValue::Bool(false)),
        kv("flush_every_ms", ConfigValue::Int(240)),
        kv("mode", ConfigValue::Str("HighThroughput".to_string())),
    ])
}

fn admin_table() -> ConfigValue {
    ConfigValue::Table(vec![
        kv("enabled", ConfigValue::Bool(true)),
        kv("address", ConfigValue::Str("localhost:5715".to_string())),
        kv("readonly", ConfigValue::Bool(false)),
        kv("jwt", ConfigValue::Bool(false)),
    ])
}

fn full_tree() -> ConfigValue {
    ConfigValue::Table(vec![
        kv("blutgang", blutgang_table()),
        kv("sled", sled_table()),
        kv("admin", admin_table()),
        kv(
            "metrics",
            ConfigValue::Table(vec![kv(
                "address",
                ConfigValue::Str("localhost:9091".to_string()),
            )]),
        ),
        kv(
            "node1",
            ConfigValue::Table(vec![
                kv("url", ConfigValue::Str("http://one".to_string())),
                kv("ws_url", ConfigValue::Str("ws://one".to_string())),
                kv("max_consecutive", ConfigValue::Int(150)),
                kv("max_per_second", ConfigValue::Int(200)),
            ]),
        ),
        kv(
            "node2",
            ConfigValue::Table(vec![
                kv("url", ConfigValue::Str("http://two".to_string())),
                kv("max_consecutive", ConfigValue::Int(6)),
                kv("max_per_second", ConfigValue::Int(0)),
            ]),
        ),
    ])
}

#[test]
fn accepted_document_determines_settings() {
    let s = Settings::create_from_config(&full_tree()).unwrap();
    assert_eq!(s.do_clear, true);
    assert_eq!(s.address, "127.0.0.1:3000");
    assert_eq!(s.ttl, 300);
    // padded by a tenth
    assert_eq!(s.expected_block_time, 11000);
    assert_eq!(s.max_retries, 32);
    assert_eq!(s.health_check_ttl, 400);
    assert_eq!(s.sort_on_startup, false);
    // node2 names no streaming endpoint
    assert_eq!(s.is_ws, false);
    assert_eq!(s.rpc_list.len(), 2);
    assert_eq!(s.poverty_list.len(), 0);
    assert_eq!(s.rpc_list[0].get_url(), "http://one");
    assert_eq!(s.rpc_list[0].max_consecutive, 150);
    // 200 requests per second leave 5000 microseconds between picks
    assert_eq!(s.rpc_list[0].min_time_delta, 5000);
    assert_eq!(s.rpc_list[1].get_url(), "http://two");
    assert_eq!(s.rpc_list[1].ws_url, None);
    assert_eq!(s.rpc_list[1].min_time_delta, 0);
    assert_eq!(s.sled_config.db_path, "./cache");
    assert_eq!(s.sled_config.low_space_mode, false);
    assert_eq!(s.admin.enabled, true);
    assert_eq!(s.admin.address, "127.0.0.1:5715");
    assert_eq!(s.metrics.enabled, true);
    assert_eq!(s.metrics.address, "127.0.0.1:9091");
}

#[test]
fn missing_required_key_is_rejected() {
    // drop do_clear from the blutgang table
    let tree = ConfigValue::Table(vec![
        kv(
            "blutgang",
            ConfigValue::Table(vec![kv("address", ConfigValue::Str("x".to_string()))]),
        ),
        kv("sled", sled_table()),
        kv("admin", admin_table()),
        kv("metrics", ConfigValue::Table(vec![])),
    ]);
    let e = Settings::create_from_config(&tree).unwrap_err();
    assert_eq!(e.message, "Missing do_clear toggle!");
}

#[test]
fn wrongly_typed_key_is_rejected() {
    let tree = ConfigValue::Table(vec![
        kv("blutgang", blutgang_table()),
        kv("sled", sled_table()),
        kv("admin", admin_table()),
        kv(
            "metrics",
            ConfigValue::Table(vec![kv(
                "address",
                ConfigValue::Str("localhost:9091".to_string()),
            )]),
        ),
        kv(
            "node1",
            ConfigValue::Table(vec![
                kv("url", ConfigValue::Str("http://one".to_string())),
                kv("ws_url", ConfigValue::Int(7)),
                kv("max_consecutive", ConfigValue::Int(6)),
                kv("max_per_second", ConfigValue::Int(0)),
            ]),
        ),
    ]);
    let e = Settings::create_from_config(&tree).unwrap_err();
    assert_eq!(e.message, "Could not parse ws_url as str!");
}

#[test]
fn non_table_document_is_rejected() {
    let e = Settings::create_from_config(&ConfigValue::Int(3)).unwrap_err();
    assert_eq!(e.message, "Could not parse config as a table!");
}

// The same settings through the real TOML parser.
#[test]
fn settings_from_file_text() {
    let text = r#"
[blutgang]
do_clear = true
address = "localhost"
sort_on_startup = false
ma_length = 10
health_check = false
header_check = true
ttl = 300
expected_block_time = 0
max_retries = 8
supress_rpc_check = true

[sled]
db_path = "./cache"
cache_capacity = 1000000000
compression = false
print_profile = false
flush_every_ms = 240
mode = "LowSpace"

[admin]
enabled = false

[metrics]

[node1]
url = "http://one"
max_consecutive = 5
max_per_second = 0
"#;
    let s = Settings::create_from_file(&text.to_string()).unwrap();
    assert_eq!(s.address, "127.0.0.1:3000");
    assert_eq!(s.max_retries, 8);
    // no health check: the health-check interval never fires
    assert_eq!(s.health_check_ttl, u64::MAX);
    // a zero expected block time turns streaming features off
    assert_eq!(s.expected_block_time, 0);
    assert_eq!(s.is_ws, false);
    assert_eq!(s.rpc_list.len(), 1);
    assert_eq!(s.rpc_list[0].get_url(), "http://one");
    assert_eq!(s.sled_config.low_space_mode, true);
    assert_eq!(s.admin.enabled, false);
    assert_eq!(s.metrics.enabled, false);
}

#[test]
fn invalid_toml_is_rejected() {
    let e = Settings::create_from_file(&"[blutgang".to_string()).unwrap_err();
    assert_eq!(e.message, "Error parsing TOML");
}

#[test]
fn args_build_backends_from_csv() {
    let args = CliArgs {
        rpc_list: "http://one,http://two".to_string(),
        address: "0.0.0.0".to_string(),
        port: "3000".to_string(),
        db_path: "blutgang-cache".to_string(),
        cache_capacity: 1000000,
        print_profile: false,
        flush_every_ms: 240,
        clear: true,
        compression: false,
        health_check: false,
        header_check: true,
        ttl: 300,
        max_retries: 32,
        health_check_ttl: 400,
        supress_rpc_check: false,
        admin_enabled: false,
        admin_address: String::new(),
        readonly: false,
        jwt: false,
        key: String::new(),
        metrics_address: String::new(),
        ma_length: 10,
        max_per_second: 500,
    };
    let s = Settings::create_from_args(args);
    assert_eq!(s.rpc_list.len(), 2);
    assert_eq!(s.rpc_list[0].get_url(), "http://one");
    assert_eq!(s.rpc_list[1].get_url(), "http://two");
    assert_eq!(s.rpc_list[0].max_consecutive, 6);
    assert_eq!(s.rpc_list[0].min_time_delta, 2000);
    assert_eq!(s.address, "0.0.0.0:3000");
    assert_eq!(s.is_ws, false);
    assert_eq!(s.expected_block_time, 0);
    assert_eq!(s.admin.enabled, false);
    assert_eq!(s.admin.address, "::1:3001");
    assert_eq!(s.metrics.address, "::1:9091");
}

#[test]
fn address_normalization() {
    assert_eq!(
        replace_localhost(&"localhost:3000".to_string()),
        "127.0.0.1:3000"
    );
    assert_eq!(
        replace_localhost(&"xlocalhostlocalhosty".to_string()),
        "x127.0.0.1127.0.0.1y"
    );
    assert_eq!(replace_localhost(&"10.0.0.7".to_string()), "10.0.0.7");
    assert_eq!(
        normalize_address(&"localhost".to_string(), &"3000".to_string()),
        "127.0.0.1:3000"
    );
    assert_eq!(
        normalize_address(&"1.2.3.4:88".to_string(), &"3000".to_string()),
        "1.2.3.4:88"
    );
}

#[test]
fn csv_splitting() {
    assert_eq!(split_csv(&"a,b,c".to_string()), vec!["a", "b", "c"]);
    assert_eq!(split_csv(&"".to_string()), vec![""]);
    assert_eq!(split_csv(&"a,,b,".to_string()), vec!["a", "", "b", ""]);
}

#[test]
fn rate_cap_to_cooldown_delta() {
    assert_eq!(delta_from_max_per_second(0), 0);
    assert_eq!(delta_from_max_per_second(200), 5000);
    assert_eq!(delta_from_max_per_second(1), 1000000);
}

#[test]
fn block_time_padding() {
    assert_eq!(padded_block_time(12500), 13750);
    assert_eq!(padded_block_time(u64::MAX), u64::MAX);
}

#[test]
fn default_settings() {
    let s = Settings::default();
    assert_eq!(s.address, "127.0.0.1:3000");
    assert_eq!(s.ttl, 1000);
    assert_eq!(s.expected_block_time, 12500);
    assert_eq!(s.max_retries, 32);
    assert_eq!(s.health_check_ttl, 1000);
    assert!(s.rpc_list.is_empty());
    assert!(s.poverty_list.is_empty());
    assert_eq!(s.admin.enabled, true);
    assert_eq!(s.metrics.address, "127.0.0.1:3001");
}
