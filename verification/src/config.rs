use vstd::prelude::*;
use vstd::string::StringExecFns;

verus! {

pub struct WebhookAlertingConfig {
    pub endpoint: String,
}

pub enum AlertingType {
    Webhook(WebhookAlertingConfig),
}

/// Where alerts go and how often, in seconds, detection runs for them.
pub struct AlertingConfig {
    pub alerting_type: AlertingType,
    pub interval: u64,
}

pub struct PrometheusConfig {
    pub url: String,
    pub query: String,
}

pub struct InfluxConfig {
    pub url: String,
    pub org_id: String,
    pub token: String,
    pub query: String,
}

/// The metric's data source.
pub enum DatasourceConfig {
    Prometheus(PrometheusConfig),
    Influx(InfluxConfig),
}

/// The server's configuration.
pub struct Config {
    pub port: u16,
    pub datasource_config: DatasourceConfig,
    pub alerting: Option<AlertingConfig>,
}

/// The values read from the configuration file and the `HASTIC_` environment
/// variables: each field is the value of its key when it is present and has the
/// expected type, `None` otherwise. `alerting_interval_text` is `alerting.interval`
/// read as text, `alerting_interval` the same key read as an unsigned number.
pub struct ConfigSource {
    pub port: Option<u16>,
    pub prometheus_url: Option<String>,
    pub prometheus_query: Option<String>,
    pub influx_url: Option<String>,
    pub influx_org_id: Option<String>,
    pub influx_token: Option<String>,
    pub influx_query: Option<String>,
    pub alerting_type: Option<String>,
    pub alerting_endpoint: Option<String>,
    pub alerting_interval_text: Option<String>,
    pub alerting_interval: Option<u64>,
}

/// A required configuration key.
#[derive(Debug, Clone, Copy, PartialEq, Eq, Structural)]
pub enum ConfigKey {
    PrometheusQuery,
    InfluxOrgId,
    InfluxToken,
    InfluxQuery,
}

/// Why the configuration was refused.
pub enum ConfigError {
    /// A data source is named but this key of it is missing.
    MissingProperty(ConfigKey),
    /// Neither `prometheus.url` nor `influx.url` is set.
    NoDatasource,
    /// Alerting is configured without `alerting.endpoint`.
    MissingAlertingEndpoint,
    /// Alerting is configured without `alerting.interval`.
    MissingAlertingInterval,
    /// `alerting.interval` is not a non-negative integer.
    BadAlertingInterval,
    /// `alerting.type` is not `webhook`; the given type is kept.
    UnknownAlertingType(String),
}

pub open spec fn opt_view(o: Option<String>) -> Option<Seq<char>> {
    match o {
        Some(s) => Some(s@),
        None => None,
    }
}

pub struct ConfigSourceView {
    pub port: Option<u16>,
    pub prometheus_url: Option<Seq<char>>,
    pub prometheus_query: Option<Seq<char>>,
    pub influx_url: Option<Seq<char>>,
    pub influx_org_id: Option<Seq<char>>,
    pub influx_token: Option<Seq<char>>,
    pub influx_query: Option<Seq<char>>,
    pub alerting_type: Option<Seq<char>>,
    pub alerting_endpoint: Option<Seq<char>>,
    pub alerting_interval_text: Option<Seq<char>>,
    pub alerting_interval: Option<u64>,
}

impl View for ConfigSource {
    type V = ConfigSourceView;

    open spec fn view(&self) -> ConfigSourceView {
        ConfigSourceView {
            port: self.port,
            prometheus_url: opt_view(self.prometheus_url),
            prometheus_query: opt_view(self.prometheus_query),
            influx_url: opt_view(self.influx_url),
            influx_org_id: opt_view(self.influx_org_id),
            influx_token: opt_view(self.influx_token),
            influx_query: opt_view(self.influx_query),
            alerting_type: opt_view(self.alerting_type),
            alerting_endpoint: opt_view(self.alerting_endpoint),
            alerting_interval_text: opt_view(self.alerting_interval_text),
            alerting_interval: self.alerting_interval,
        }
    }
}

pub enum DatasourceView {
    Prometheus { url: Seq<char>, query: Seq<char> },
    Influx { url: Seq<char>, org_id: Seq<char>, token: Seq<char>, query: Seq<char> },
}

impl View for DatasourceConfig {
    type V = DatasourceView;

    open spec fn view(&self) -> DatasourceView {
        match self {
            DatasourceConfig::Prometheus(p) => DatasourceView::Prometheus { url: p.url@, query: p.query@ },
            DatasourceConfig::Influx(i) => DatasourceView::Influx {
                url: i.url@,
                org_id: i.org_id@,
                token: i.token@,
                query: i.query@,
            },
        }
    }
}

pub enum ConfigErrorView {
    MissingProperty(ConfigKey),
    NoDatasource,
    MissingAlertingEndpoint,
    MissingAlertingInterval,
    BadAlertingInterval,
    UnknownAlertingType(Seq<char>),
}

impl View for ConfigError {
    type V = ConfigErrorView;

    open spec fn view(&self) -> ConfigErrorView {
        match self {
            ConfigError::MissingProperty(k) => ConfigErrorView::MissingProperty(*k),
            ConfigError::NoDatasource => ConfigErrorView::NoDatasource,
            ConfigError::MissingAlertingEndpoint => ConfigErrorView::MissingAlertingEndpoint,
            ConfigError::MissingAlertingInterval => ConfigErrorView::MissingAlertingInterval,
            ConfigError::BadAlertingInterval => ConfigErrorView::BadAlertingInterval,
            ConfigError::UnknownAlertingType(s) => ConfigErrorView::UnknownAlertingType(s@),
        }
    }
}

/// The data source the configuration names: Prometheus when `prometheus.url` is
/// set, else InfluxDB when `influx.url` is set; every other key of the chosen
/// source is required.
pub open spec fn datasource_of(c: ConfigSourceView) -> Result<DatasourceView, ConfigErrorView> {
    if c.prometheus_url is Some {
        if c.prometheus_query is None {
            Err(ConfigErrorView::MissingProperty(ConfigKey::PrometheusQuery))
        } else {
            Ok(DatasourceView::Prometheus { url: c.prometheus_url.unwrap(), query: c.prometheus_query.unwrap() })
        }
    } else if c.influx_url is Some {
        if c.influx_org_id is None {
            Err(ConfigErrorView::MissingProperty(ConfigKey::InfluxOrgId))
        } else if c.influx_token is None {
            Err(ConfigErrorView::MissingProperty(ConfigKey::InfluxToken))
        } else if c.influx_query is None {
            Err(ConfigErrorView::MissingProperty(ConfigKey::InfluxQuery))
        } else {
            Ok(
                DatasourceView::Influx {
                    url: c.influx_url.unwrap(),
                    org_id: c.influx_org_id.unwrap(),
                    token: c.influx_token.unwrap(),
                    query: c.influx_query.unwrap(),
                },
            )
        }
    } else {
        Err(ConfigErrorView::NoDatasource)
    }
}

/// The alerting the configuration asks for: none without `alerting.type`; else the
/// endpoint and a numeric interval are required and the type must be `webhook`.
/// The result is the endpoint and the interval.
pub open spec fn alerting_of(c: ConfigSourceView) -> Result<Option<(Seq<char>, u64)>, ConfigErrorView> {
    if c.alerting_type is None {
        Ok(None)
    } else if c.alerting_endpoint is None {
        Err(ConfigErrorView::MissingAlertingEndpoint)
    } else if c.alerting_interval_text is None {
        Err(ConfigErrorView::MissingAlertingInterval)
    } else if c.alerting_interval is None {
        Err(ConfigErrorView::BadAlertingInterval)
    } else if c.alerting_type.unwrap() != "webhook"@ {
        Err(ConfigErrorView::UnknownAlertingType(c.alerting_type.unwrap()))
    } else {
        Ok(Some((c.alerting_endpoint.unwrap(), c.alerting_interval.unwrap())))
    }
}

pub open spec fn alerting_view(a: Option<AlertingConfig>) -> Option<(Seq<char>, u64)> {
    match a {
        Some(cfg) => match cfg.alerting_type {
            AlertingType::Webhook(w) => Some((w.endpoint@, cfg.interval)),
        },
        None => None,
    }
}

fn copy_string(s: &String) -> (r: String)
    ensures
        r@ == s@,
{
    s.clone()
}

/// Resolves the data source from the configuration's values.
pub fn resolve_datasource(config: &ConfigSource) -> (r: Result<DatasourceConfig, ConfigError>)
    ensures
        match r {
            Ok(d) => datasource_of(config@) == Ok::<DatasourceView, ConfigErrorView>(d@),
            Err(e) => datasource_of(config@) == Err::<DatasourceView, ConfigErrorView>(e@),
        },
{
    if let Some(url) = &config.prometheus_url {
        let query = match &config.prometheus_query {
            Some(q) => copy_string(q),
            None => return Err(ConfigError::MissingProperty(ConfigKey::PrometheusQuery)),
        };
        return Ok(DatasourceConfig::Prometheus(PrometheusConfig { url: copy_string(url), query }));
    }
    if let Some(url) = &config.influx_url {
        let org_id = match &config.influx_org_id {
            Some(v) => copy_string(v),
            None => return Err(ConfigError::MissingProperty(ConfigKey::InfluxOrgId)),
        };
        let token = match &config.influx_token {
            Some(v) => copy_string(v),
            None => return Err(ConfigError::MissingProperty(ConfigKey::InfluxToken)),
        };
        let query = match &config.influx_query {
            Some(v) => copy_string(v),
            None => return Err(ConfigError::MissingProperty(ConfigKey::InfluxQuery)),
        };
        return Ok(DatasourceConfig::Influx(InfluxConfig { url: copy_string(url), org_id, token, query }));
    }
    Err(ConfigError::NoDatasource)
}

/// Resolves the alerting settings from the configuration's values.
pub fn resolve_alerting(config: &ConfigSource) -> (r: Result<Option<AlertingConfig>, ConfigError>)
    ensures
        match r {
            Ok(a) => alerting_of(config@) == Ok::<Option<(Seq<char>, u64)>, ConfigErrorView>(alerting_view(a)),
            Err(e) => alerting_of(config@) == Err::<Option<(Seq<char>, u64)>, ConfigErrorView>(e@),
        },
{
    let analytic_type = match &config.alerting_type {
        None => return Ok(None),
        Some(t) => t,
    };
    let endpoint = match &config.alerting_endpoint {
        None => return Err(ConfigError::MissingAlertingEndpoint),
        Some(e) => copy_string(e),
    };
    if config.alerting_interval_text.is_none() {
        return Err(ConfigError::MissingAlertingInterval);
    }
    let interval = match config.alerting_interval {
        None => return Err(ConfigError::BadAlertingInterval),
        Some(i) => i,
    };
    let webhook = String::from_str("webhook");
    if !analytic_type.eq(&webhook) {
        return Err(ConfigError::UnknownAlertingType(copy_string(analytic_type)));
    }
    Ok(Some(AlertingConfig { alerting_type: AlertingType::Webhook(WebhookAlertingConfig { endpoint }), interval }))
}

/// The port the server listens on when none is configured.
pub const DEFAULT_PORT: u16 = 8000;

impl Config {
    /// The configuration from the values read: the port (8000 by default), the
    /// data source, then the alerting settings; the first error found is returned.
    pub fn new(source: &ConfigSource) -> (r: Result<Config, ConfigError>)
        ensures
            match r {
                Ok(c) => c.port == (match source.port {
                    Some(p) => p,
                    None => DEFAULT_PORT,
                }) && datasource_of(source@) == Ok::<DatasourceView, ConfigErrorView>(c.datasource_config@)
                    && alerting_of(source@) == Ok::<Option<(Seq<char>, u64)>, ConfigErrorView>(
                    alerting_view(c.alerting),
                ),
                Err(e) => datasource_of(source@) == Err::<DatasourceView, ConfigErrorView>(e@) || (
                datasource_of(source@) is Ok && alerting_of(source@) == Err::<
                    Option<(Seq<char>, u64)>,
                    ConfigErrorView,
                >(e@)),
            },
    {
        let port = match source.port {
            Some(p) => p,
            None => DEFAULT_PORT,
        };
        let datasource_config = match resolve_datasource(source) {
            Ok(d) => d,
            Err(e) => return Err(e),
        };
        let alerting = match resolve_alerting(source) {
            Ok(a) => a,
            Err(e) => return Err(e),
        };
        Ok(Config { port, datasource_config, alerting })
    }
}

} // verus!
