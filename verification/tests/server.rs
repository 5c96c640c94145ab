use spacetime_schema::server::{
    build_schema_url, effective_server, resolve_server_url, ServerConfig,
};

fn cfg(nickname: &str, protocol: &str, host: &str) -> ServerConfig {
    ServerConfig {
        nickname: nickname.to_string(),
        protocol: protocol.to_string(),
        host: host.to_string(),
    }
}

#[test]
fn full_urls_pass_through() {
    let none: Vec<ServerConfig> = vec![];
    assert_eq!(resolve_server_url("http://example.com:9000", &none), "http://example.com:9000");
    assert_eq!(resolve_server_url("https://example.com", &none), "https://example.com");
}

#[test]
fn configured_nickname_wins() {
    let configs = vec![
        cfg("dev", "http", "dev.example.com"),
        cfg("prod", "https", "prod.example.com"),
    ];
    assert_eq!(resolve_server_url("prod", &configs), "https://prod.example.com");
    assert_eq!(resolve_server_url("dev", &configs), "http://dev.example.com");
}

#[test]
fn builtin_nicknames_and_fallback() {
    let none: Vec<ServerConfig> = vec![];
    assert_eq!(resolve_server_url("local", &none), "http://localhost:3000");
    assert_eq!(resolve_server_url("cloud", &none), "https://maincloud.spacetimedb.com");
    assert_eq!(resolve_server_url("maincloud", &none), "https://maincloud.spacetimedb.com");
    assert_eq!(resolve_server_url("myhost:3000", &none), "http://myhost:3000");
}

#[test]
fn cloud_flag_forces_cloud() {
    assert_eq!(effective_server(true, "local"), "cloud");
    assert_eq!(effective_server(false, "local"), "local");
}

#[test]
fn schema_url_has_default_version() {
    assert_eq!(
        build_schema_url("http://localhost:3000", "mydb", None),
        "http://localhost:3000/v1/database/mydb/schema?version=9"
    );
    assert_eq!(
        build_schema_url("https://maincloud.spacetimedb.com", "game", Some("7")),
        "https://maincloud.spacetimedb.com/v1/database/game/schema?version=7"
    );
}
