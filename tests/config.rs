use emailer::config::{AppConfig, Environment};

#[test]
fn address_joins_host_and_port() {
    let c = AppConfig { port: 8080, host: "127.0.0.1".to_string() };
    assert_eq!(c.address(), "127.0.0.1:8080");
    let c = AppConfig { port: 0, host: "localhost".to_string() };
    assert_eq!(c.address(), "localhost:0");
    let c = AppConfig { port: 65535, host: "h".to_string() };
    assert_eq!(c.address(), "h:65535");
}

#[test]
fn environment_from_name_in_any_case() {
    assert_eq!(Environment::try_from("local".to_string()), Ok(Environment::Local));
    assert_eq!(Environment::try_from("PRODUCTION".to_string()), Ok(Environment::Production));
    assert_eq!(
        Environment::try_from("Staging".to_string()),
        Err("staging is not supported environment. Use either `local` or `production`".to_string())
    );
}

#[test]
fn environment_names() {
    assert_eq!(Environment::Local.as_str(), "local");
    assert_eq!(Environment::Production.as_str(), "production");
}
