//! Application configuration: the telemetry receivers, and the settings
//! endpoints that read, update and test them.
use vstd::prelude::*;

use crate::text;
use crate::text::{chars_to_string, join2, join3, str_chars, trim_chars, u64_to_dec};

verus! {

/// Telemetry/observability configuration: one optional endpoint per kind
/// of export; an absent or empty endpoint disables that export.
#[derive(Debug, Clone)]
pub struct TelemetryConfig {
    /// Tempo endpoint for distributed traces (OTLP/gRPC).
    pub tempo_endpoint: Option<String>,
    /// Loki endpoint for log export (OTLP/gRPC).
    pub loki_endpoint: Option<String>,
    /// Prometheus remote write endpoint.
    pub prometheus_endpoint: Option<String>,
}

impl Default for TelemetryConfig {
    fn default() -> (r: Self)
        ensures
            r.tempo_endpoint is None,
            r.loki_endpoint is None,
            r.prometheus_endpoint is None,
    {
        TelemetryConfig { tempo_endpoint: None, loki_endpoint: None, prometheus_endpoint: None }
    }
}

impl TelemetryConfig {
    /// The Tempo endpoint for traces.
    pub fn get_tempo_endpoint(&self) -> (r: Option<&String>)
        ensures
            match self.tempo_endpoint {
                Some(e) => r == Some(&e),
                None => r is None,
            },
    {
        self.tempo_endpoint.as_ref()
    }

    /// The Loki endpoint for logs.
    pub fn get_loki_endpoint(&self) -> (r: Option<&String>)
        ensures
            match self.loki_endpoint {
                Some(e) => r == Some(&e),
                None => r is None,
            },
    {
        self.loki_endpoint.as_ref()
    }

    /// The Prometheus endpoint for metrics.
    pub fn get_prometheus_endpoint(&self) -> (r: Option<&String>)
        ensures
            match self.prometheus_endpoint {
                Some(e) => r == Some(&e),
                None => r is None,
            },
    {
        self.prometheus_endpoint.as_ref()
    }

    /// Whether any telemetry export is configured: an endpoint left empty
    /// (or blank) disables its export.
    pub fn is_enabled(&self) -> (r: bool)
        ensures
            r == (endpoint_configured(self.tempo_endpoint.deep_view()) || endpoint_configured(
                self.loki_endpoint.deep_view(),
            ) || endpoint_configured(self.prometheus_endpoint.deep_view())),
    {
        configured(&self.tempo_endpoint) || configured(&self.loki_endpoint) || configured(
            &self.prometheus_endpoint,
        )
    }
}

/// An endpoint is configured when it is present and not blank.
pub open spec fn endpoint_configured(e: Option<Seq<char>>) -> bool {
    match e {
        Some(s) => text::trim(s).len() > 0,
        None => false,
    }
}

/// Whether an endpoint is present and not blank.
fn configured(e: &Option<String>) -> (r: bool)
    ensures
        r == endpoint_configured(e.deep_view()),
{
    match e {
        Some(s) => {
            let cs = str_chars(s.as_str());
            let t = trim_chars(cs.as_slice());
            t.len() > 0
        },
        None => false,
    }
}

/// Root application configuration.
#[derive(Debug, Clone)]
pub struct AppConfig {
    /// Telemetry settings.
    pub telemetry: TelemetryConfig,
}

impl Default for AppConfig {
    fn default() -> (r: Self)
        ensures
            r.telemetry.tempo_endpoint is None,
            r.telemetry.loki_endpoint is None,
            r.telemetry.prometheus_endpoint is None,
    {
        AppConfig { telemetry: TelemetryConfig::default() }
    }
}

// ---------------------------------------------------------------------------
// The telemetry settings endpoints
// ---------------------------------------------------------------------------

/// Telemetry receiver settings, as the API reads and writes them.
#[derive(Debug, Clone)]
pub struct TelemetrySettings {
    pub tempo_endpoint: Option<String>,
    pub loki_endpoint: Option<String>,
    pub prometheus_endpoint: Option<String>,
}

/// An endpoint as it is stored: trimmed, and absent when blank.
pub open spec fn normalized_endpoint(e: Option<Seq<char>>) -> Option<Seq<char>> {
    match e {
        Some(s) => if text::trim(s).len() > 0 {
            Some(text::trim(s))
        } else {
            None
        },
        None => None,
    }
}

/// Trims an endpoint, and drops it when blank.
pub fn normalize_endpoint(e: Option<String>) -> (r: Option<String>)
    ensures
        r.deep_view() == normalized_endpoint(e.deep_view()),
{
    match e {
        Some(s) => {
            let cs = str_chars(s.as_str());
            let t = trim_chars(cs.as_slice());
            if t.len() > 0 {
                Some(chars_to_string(t.as_slice()))
            } else {
                None
            }
        },
        None => None,
    }
}

/// The settings the API reports for a configuration.
pub fn telemetry_settings(cfg: &AppConfig) -> (r: TelemetrySettings)
    ensures
        r.tempo_endpoint == cfg.telemetry.tempo_endpoint,
        r.loki_endpoint == cfg.telemetry.loki_endpoint,
        r.prometheus_endpoint == cfg.telemetry.prometheus_endpoint,
{
    TelemetrySettings {
        tempo_endpoint: cfg.telemetry.tempo_endpoint.clone(),
        loki_endpoint: cfg.telemetry.loki_endpoint.clone(),
        prometheus_endpoint: cfg.telemetry.prometheus_endpoint.clone(),
    }
}

/// Applies updated settings to a configuration: each endpoint is stored
/// normalized (trimmed, absent when blank); the normalized settings are
/// returned as the answer.
pub fn update_telemetry(cfg: &mut AppConfig, payload: TelemetrySettings) -> (r: TelemetrySettings)
    ensures
        final(cfg).telemetry.tempo_endpoint.deep_view() == normalized_endpoint(
            payload.tempo_endpoint.deep_view(),
        ),
        final(cfg).telemetry.loki_endpoint.deep_view() == normalized_endpoint(
            payload.loki_endpoint.deep_view(),
        ),
        final(cfg).telemetry.prometheus_endpoint.deep_view() == normalized_endpoint(
            payload.prometheus_endpoint.deep_view(),
        ),
        r.tempo_endpoint == final(cfg).telemetry.tempo_endpoint,
        r.loki_endpoint == final(cfg).telemetry.loki_endpoint,
        r.prometheus_endpoint == final(cfg).telemetry.prometheus_endpoint,
{
    let tempo = normalize_endpoint(payload.tempo_endpoint);
    let loki = normalize_endpoint(payload.loki_endpoint);
    let prometheus = normalize_endpoint(payload.prometheus_endpoint);
    cfg.telemetry = TelemetryConfig {
        tempo_endpoint: tempo.clone(),
        loki_endpoint: loki.clone(),
        prometheus_endpoint: prometheus.clone(),
    };
    TelemetrySettings { tempo_endpoint: tempo, loki_endpoint: loki, prometheus_endpoint: prometheus }
}

/// Normalizing an endpoint twice changes nothing more.
pub proof fn lemma_normalize_idempotent(e: Option<Seq<char>>)
    ensures
        normalized_endpoint(normalized_endpoint(e)) == normalized_endpoint(e),
{
    if let Some(s) = e {
        let t = text::trim(s);
        if t.len() > 0 {
            text::lemma_lead_ws_bound(s);
            text::lemma_trail_ws_bound(text::trim_start(s));
            lemma_trim_of_trimmed(s);
        }
    }
}

proof fn lemma_trim_of_trimmed(s: Seq<char>)
    requires
        text::trim(s).len() > 0,
    ensures
        text::trim(text::trim(s)) == text::trim(s),
{
    let a = text::lead_ws(s) as int;
    text::lemma_lead_ws_bound(s);
    let u = text::trim_start(s);
    text::lemma_trail_ws_bound(u);
    let t = text::trim(s);
    assert(t.len() > 0);
    assert(t[0] == u[0]);
    assert(u[0] == s[a]);
    assert(!text::is_ws(t[0]));
    assert(t.last() == u[u.len() - text::trail_ws(u) - 1]);
    assert(!text::is_ws(t.last()));
    text::lemma_trim_unchanged(t);
}


// ---------------------------------------------------------------------------
// Testing an endpoint
// ---------------------------------------------------------------------------

/// Request to test an OTLP endpoint.
#[derive(Debug, Clone)]
pub struct TestEndpointRequest {
    /// The endpoint URL to test (e.g., "http://collector:4317").
    pub endpoint: String,
}

/// Response from an endpoint test.
#[derive(Debug, Clone)]
pub struct TestEndpointResponse {
    pub reachable: bool,
    pub error: Option<String>,
}

/// The parts of a URI, as `http::Uri` parses a text: its host, its port and
/// its scheme; or the message of the parse error.
pub uninterp spec fn parsed_uri(text: Seq<char>) -> Result<
    (Option<Seq<char>>, Option<u16>, Option<Seq<char>>),
    Seq<char>,
>;

/// The host, port and scheme of a URI (`str::parse::<http::Uri>`, then
/// `host`, `port_u16` and `scheme_str`).  Claimed: the result is the parse
/// named by `parsed_uri`, a function of the text alone.
#[verifier::external_body]
fn parse_uri(s: &str) -> (r: Result<(Option<String>, Option<u16>, Option<String>), String>)
    ensures
        match r {
            Ok((h, p, sc)) => parsed_uri(s@) == Ok::<
                (Option<Seq<char>>, Option<u16>, Option<Seq<char>>),
                Seq<char>,
            >((h.deep_view(), p, sc.deep_view())),
            Err(e) => parsed_uri(s@) == Err::<
                (Option<Seq<char>>, Option<u16>, Option<Seq<char>>),
                Seq<char>,
            >(e@),
        },
{
    match s.parse::<axum::http::Uri>() {
        Ok(u) => Ok((
            u.host().map(String::from),
            u.port_u16(),
            u.scheme_str().map(String::from),
        )),
        Err(e) => Err(format!("{e}")),
    }
}

/// The port an endpoint is reached on: its own, or by its scheme 443
/// (https), 80 (http), and otherwise 4317 (OTLP).
pub open spec fn endpoint_port(port: Option<u16>, scheme: Option<Seq<char>>) -> u16 {
    match port {
        Some(p) => p,
        None => match scheme {
            Some(s) => if s == "https"@ {
                443
            } else if s == "http"@ {
                80
            } else {
                4317
            },
            None => 4317,
        },
    }
}

/// What testing an endpoint goes on with.
pub enum EndpointCheck {
    /// The test is over, with this answer.
    Answer(TestEndpointResponse),
    /// Try to open a TCP connection to `host:port`.
    Connect(String),
}

/// What testing the endpoint `endpoint` does: a blank endpoint, one that is
/// not a URI, or one without a host is answered as unreachable with the
/// reason; otherwise a connection to its host and port is tried.
pub fn endpoint_check(endpoint: &str) -> (r: EndpointCheck)
    ensures
        ({
            let e = text::trim(endpoint@);
            if e.len() == 0 {
                r matches EndpointCheck::Answer(a) && !a.reachable && a.error.deep_view() == Some(
                    "Endpoint is empty"@,
                )
            } else {
                match parsed_uri(e) {
                    Err(msg) => r matches EndpointCheck::Answer(a) && !a.reachable
                        && a.error.deep_view() == Some("Invalid URL: "@ + msg),
                    Ok((host, port, scheme)) => match host {
                        None => r matches EndpointCheck::Answer(a) && !a.reachable
                            && a.error.deep_view() == Some("URL missing host"@),
                        Some(h) => r matches EndpointCheck::Connect(target) && target@ == h + ":"@
                            + text::dec_string(endpoint_port(port, scheme) as nat),
                    },
                }
            }
        }),
{
    let cs = str_chars(endpoint);
    let t = trim_chars(cs.as_slice());
    if t.len() == 0 {
        return EndpointCheck::Answer(
            TestEndpointResponse {
                reachable: false,
                error: Some(chars_to_string(str_chars("Endpoint is empty").as_slice())),
            },
        );
    }
    let e = chars_to_string(t.as_slice());
    match parse_uri(e.as_str()) {
        Err(msg) => EndpointCheck::Answer(
            TestEndpointResponse {
                reachable: false,
                error: Some(join2("Invalid URL: ", msg.as_str())),
            },
        ),
        Ok((host, port, scheme)) => match host {
            None => EndpointCheck::Answer(
                TestEndpointResponse {
                    reachable: false,
                    error: Some(chars_to_string(str_chars("URL missing host").as_slice())),
                },
            ),
            Some(h) => {
                let p: u16 = match port {
                    Some(p) => p,
                    None => match scheme {
                        Some(sc) => {
                            let sv = str_chars(sc.as_str());
                            if text::chars_eq_str(sv.as_slice(), "https") {
                                443
                            } else if text::chars_eq_str(sv.as_slice(), "http") {
                                80
                            } else {
                                4317
                            }
                        },
                        None => 4317,
                    },
                };
                let digits = u64_to_dec(p as u64);
                let ds = chars_to_string(digits.as_slice());
                EndpointCheck::Connect(join3(h.as_str(), ":", ds.as_str()))
            },
        },
    }
}

/// How a connection attempt to a tested endpoint ended.
pub enum ConnectOutcome {
    Connected,
    Failed(String),
    TimedOut,
}

/// The answer of an endpoint test from how its connection attempt ended.
pub fn connect_answer(outcome: ConnectOutcome) -> (r: TestEndpointResponse)
    ensures
        match outcome {
            ConnectOutcome::Connected => r.reachable && r.error is None,
            ConnectOutcome::Failed(e) => !r.reachable && r.error.deep_view() == Some(
                "Connection failed: "@ + e@,
            ),
            ConnectOutcome::TimedOut => !r.reachable && r.error.deep_view() == Some(
                "Connection timed out"@,
            ),
        },
{
    match outcome {
        ConnectOutcome::Connected => TestEndpointResponse { reachable: true, error: None },
        ConnectOutcome::Failed(e) => TestEndpointResponse {
            reachable: false,
            error: Some(join2("Connection failed: ", e.as_str())),
        },
        ConnectOutcome::TimedOut => TestEndpointResponse {
            reachable: false,
            error: Some(chars_to_string(str_chars("Connection timed out").as_slice())),
        },
    }
}

} // verus!
