use request_guard::config::{
    AppConfig, DataBaseConfig, DatabaseType, HmacAlgorithm, JwtConfig, Server, ServerConfig, SslConfig,
};
use request_guard::latency::LatencyLayer;
use request_guard::params::{one, ten, Page, QueryParams};

fn empty_db() -> DataBaseConfig {
    DataBaseConfig {
        db_type: DatabaseType::Sqlite,
        host: None,
        port: None,
        username: None,
        password: None,
        database: None,
        schema: None,
    }
}

#[test]
fn database_defaults() {
    let c = empty_db();
    assert_eq!(*c.get_type(), DatabaseType::Sqlite);
    assert_eq!(c.host(), "127.0.0.1");
    assert_eq!(c.port(), 5432);
    assert_eq!(c.username(), "postgres");
    assert_eq!(c.password(), "postgres");
    assert_eq!(c.database(), "postgres");
    assert_eq!(c.schema(), "public");
}

#[test]
fn database_values_override_defaults() {
    let c = DataBaseConfig {
        db_type: DatabaseType::Postgres,
        host: Some("db".to_string()),
        port: Some(6543),
        username: Some("u".to_string()),
        password: Some("p".to_string()),
        database: Some("d".to_string()),
        schema: Some("s".to_string()),
    };
    assert_eq!(c.host(), "db");
    assert_eq!(c.port(), 6543);
    assert_eq!(c.username(), "u");
    assert_eq!(c.password(), "p");
    assert_eq!(c.database(), "d");
    assert_eq!(c.schema(), "s");
}

#[test]
fn jwt_defaults() {
    let c = JwtConfig { secret: None, algorithm: None, expiration: None, leeway: None };
    assert_eq!(c.secret(), "default_secret");
    assert_eq!(c.algorithm(), HmacAlgorithm::HS256);
    assert_eq!(c.expiration(), 3600);
    assert_eq!(c.leeway(), 60);
    let c = JwtConfig {
        secret: Some("s".to_string()),
        algorithm: Some(HmacAlgorithm::HS512),
        expiration: Some(5),
        leeway: Some(1_000_000),
    };
    assert_eq!(c.secret(), "s");
    assert_eq!(c.algorithm(), HmacAlgorithm::HS512);
    assert_eq!(c.expiration(), 5);
    assert_eq!(c.leeway(), 86400);
}

#[test]
fn ssl_and_server_settings() {
    let ssl = SslConfig { enable: true, cert_path: Some("c.pem".to_string()), key_path: None };
    assert!(ssl.enable());
    assert_eq!(ssl.cert_path().unwrap(), "c.pem");
    assert!(ssl.key_path().is_none());
    let server = Server::new(ServerConfig { port: 8080 });
    assert_eq!(server.port(), 8080);
    let app = AppConfig {
        auth: JwtConfig { secret: None, algorithm: None, expiration: None, leeway: None },
        server: ServerConfig { port: 3000 },
        database: empty_db(),
    };
    assert_eq!(app.server().port(), 3000);
    assert_eq!(app.auth().expiration(), 3600);
    assert_eq!(app.database().schema(), "public");
}

#[test]
fn pages_and_defaults() {
    assert_eq!(one(), 1);
    assert_eq!(ten(), 10);
    let p = Page::from_pagination(QueryParams { page: 3, page_size: 20 }, 45, vec!["a", "b"]);
    assert_eq!(p.page, 3);
    assert_eq!(p.page_size, 20);
    assert_eq!(p.total, 45);
    assert_eq!(p.items, vec!["a", "b"]);
    let q = Page::new(1, 2, 3, Vec::<u8>::new());
    assert_eq!(q.total, 3);
}

#[test]
fn latency_in_log() {
    assert_eq!(LatencyLayer::describe(0), "0 \u{3bc}s");
    assert_eq!(LatencyLayer::describe(999), "999 \u{3bc}s");
    assert_eq!(LatencyLayer::describe(1000), "1 ms");
    assert_eq!(LatencyLayer::describe(25999), "25 ms");
}

#[test]
fn connection_urls() {
    assert_eq!(empty_db().connection_url(), "sqlite:postgres?mode=rwc");
    let c = DataBaseConfig {
        db_type: DatabaseType::Postgres,
        host: Some("db.local".to_string()),
        port: None,
        username: None,
        password: Some("pw".to_string()),
        database: Some("app".to_string()),
        schema: None,
    };
    assert_eq!(c.connection_url(), "postgres://postgres:pw@db.local:5432/app");
}

#[test]
fn page_offsets() {
    assert_eq!(QueryParams { page: 1, page_size: 10 }.offset(), 0);
    assert_eq!(QueryParams { page: 3, page_size: 20 }.offset(), 40);
    assert_eq!(QueryParams { page: 0, page_size: 20 }.offset(), 0);
    assert_eq!(QueryParams { page: u64::MAX, page_size: 100 }.offset(), u64::MAX);
    assert_eq!(QueryParams { page: u64::MAX, page_size: 0 }.offset(), 0);
}
