use hastic::api::metric::{get_query, QueryAttribute, QueryError};
use hastic::config::{AlertingType, Config, ConfigError, ConfigKey, ConfigSource, DatasourceConfig};
use hastic::services::user_service::{User, UserService};

fn empty() -> ConfigSource {
    ConfigSource {
        port: None,
        prometheus_url: None,
        prometheus_query: None,
        influx_url: None,
        influx_org_id: None,
        influx_token: None,
        influx_query: None,
        alerting_type: None,
        alerting_endpoint: None,
        alerting_interval_text: None,
        alerting_interval: None,
    }
}

fn prometheus() -> ConfigSource {
    let mut c = empty();
    c.prometheus_url = Some("http://localhost:9090".to_string());
    c.prometheus_query = Some("rate(go_memstats_alloc_bytes_total[5m])".to_string());
    c
}

#[test]
fn prometheus_config_with_default_port() {
    let c = Config::new(&prometheus()).ok().unwrap();
    assert_eq!(c.port, 8000);
    match c.datasource_config {
        DatasourceConfig::Prometheus(p) => {
            assert_eq!(p.url, "http://localhost:9090");
            assert_eq!(p.query, "rate(go_memstats_alloc_bytes_total[5m])");
        }
        _ => panic!("expected prometheus"),
    }
    assert!(c.alerting.is_none());
}

#[test]
fn prometheus_wins_over_influx() {
    let mut src = prometheus();
    src.influx_url = Some("http://influx".to_string());
    src.port = Some(4347);
    let c = Config::new(&src).ok().unwrap();
    assert_eq!(c.port, 4347);
    assert!(matches!(c.datasource_config, DatasourceConfig::Prometheus(_)));
}

#[test]
fn influx_config() {
    let mut src = empty();
    src.influx_url = Some("http://influx".to_string());
    src.influx_org_id = Some("org".to_string());
    assert!(matches!(Config::new(&src), Err(ConfigError::MissingProperty(ConfigKey::InfluxToken))));
    src.influx_token = Some("tok".to_string());
    assert!(matches!(Config::new(&src), Err(ConfigError::MissingProperty(ConfigKey::InfluxQuery))));
    src.influx_query = Some("q".to_string());
    match Config::new(&src).ok().unwrap().datasource_config {
        DatasourceConfig::Influx(i) => {
            assert_eq!(i.url, "http://influx");
            assert_eq!(i.org_id, "org");
            assert_eq!(i.token, "tok");
            assert_eq!(i.query, "q");
        }
        _ => panic!("expected influx"),
    }
}

#[test]
fn datasource_errors() {
    assert!(matches!(Config::new(&empty()), Err(ConfigError::NoDatasource)));
    let mut src = empty();
    src.prometheus_url = Some("u".to_string());
    assert!(matches!(Config::new(&src), Err(ConfigError::MissingProperty(ConfigKey::PrometheusQuery))));
    let mut src = empty();
    src.influx_url = Some("u".to_string());
    assert!(matches!(Config::new(&src), Err(ConfigError::MissingProperty(ConfigKey::InfluxOrgId))));
}

#[test]
fn alerting_config() {
    let mut src = prometheus();
    src.alerting_type = Some("webhook".to_string());
    assert!(matches!(Config::new(&src), Err(ConfigError::MissingAlertingEndpoint)));
    src.alerting_endpoint = Some("http://hook".to_string());
    assert!(matches!(Config::new(&src), Err(ConfigError::MissingAlertingInterval)));
    src.alerting_interval_text = Some("ten".to_string());
    assert!(matches!(Config::new(&src), Err(ConfigError::BadAlertingInterval)));
    src.alerting_interval_text = Some("10".to_string());
    src.alerting_interval = Some(10);
    let c = Config::new(&src).ok().unwrap();
    let a = c.alerting.unwrap();
    assert_eq!(a.interval, 10);
    match a.alerting_type {
        AlertingType::Webhook(w) => assert_eq!(w.endpoint, "http://hook"),
    }
    src.alerting_type = Some("email".to_string());
    match Config::new(&src) {
        Err(ConfigError::UnknownAlertingType(t)) => assert_eq!(t, "email"),
        _ => panic!("expected unknown alerting type"),
    }
}

#[test]
fn metric_query_parameters() {
    let s = |v: &str| Some(v.to_string());
    assert_eq!(get_query(&s("1"), &s("20"), &s("+3")), Ok((1, 20, 3)));
    assert_eq!(get_query(&s("18446744073709551615"), &s("0"), &s("1")), Ok((u64::MAX, 0, 1)));
    assert_eq!(get_query(&None, &s("2"), &s("3")), Err(QueryError::MissingAttribute(QueryAttribute::From)));
    assert_eq!(get_query(&s("1"), &None, &None), Err(QueryError::MissingAttribute(QueryAttribute::To)));
    assert_eq!(get_query(&s("1"), &s("2"), &None), Err(QueryError::MissingAttribute(QueryAttribute::Step)));
    assert_eq!(get_query(&s("x"), &s("2"), &s("3")), Err(QueryError::BadNumber(QueryAttribute::From)));
    assert_eq!(get_query(&s("1"), &s("-2"), &s("3")), Err(QueryError::BadNumber(QueryAttribute::To)));
    assert_eq!(get_query(&s("1"), &s("2"), &s("18446744073709551616")), Err(QueryError::BadNumber(QueryAttribute::Step)));
    assert_eq!(get_query(&s("1"), &s("2"), &s("")), Err(QueryError::BadNumber(QueryAttribute::Step)));
    assert_eq!(get_query(&s(" 1"), &s("2"), &s("3")), Err(QueryError::BadNumber(QueryAttribute::From)));
}

#[test]
fn login_only_admin() {
    let u = |n: &str, p: &str| User { username: n.to_string(), password: p.to_string() };
    assert_eq!(UserService::login(&u("admin", "admin")), Some("asdsadsad".to_string()));
    assert_eq!(UserService::login(&u("admin", "nope")), None);
    assert_eq!(UserService::login(&u("root", "admin")), None);
    let _ = UserService::new();
    let _ = hastic::user_service::UserService::new();
}
