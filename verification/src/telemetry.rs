//! Telemetry configuration and log forwarding, as pure computation.
//!
//! Reading the process environment, building exporters, and emitting
//! trace events belong to the embedding layer.  What this module owns is
//! the decision logic: which sampler a sampler-kind setting selects,
//! which service name and version win, and how a host log call maps to a
//! structured record.

use vstd::prelude::*;

verus! {

/// The sampling policy selected for the tracer provider.
#[derive(Clone, Copy, PartialEq, Eq, Structural, Debug)]
pub enum SamplerChoice {
    AlwaysOff,
    AlwaysOn,
    ParentBasedAlwaysOn,
    ParentBasedAlwaysOff,
    TraceIdRatio,
}

/// The view of an optional string.
pub open spec fn opt_str_view(o: Option<String>) -> Option<Seq<char>> {
    match o {
        Some(s) => Some(s@),
        None => None,
    }
}

/// The sampler a sampler-kind setting selects; an absent or unknown
/// kind falls back to parent-based always-on.
pub open spec fn spec_sampler_of(kind: Option<Seq<char>>) -> SamplerChoice {
    match kind {
        None => SamplerChoice::ParentBasedAlwaysOn,
        Some(k) => if k == "always_off"@ {
            SamplerChoice::AlwaysOff
        } else if k == "always_on"@ {
            SamplerChoice::AlwaysOn
        } else if k == "parentbased_always_on"@ {
            SamplerChoice::ParentBasedAlwaysOn
        } else if k == "parentbased_always_off"@ {
            SamplerChoice::ParentBasedAlwaysOff
        } else if k == "traceidratio"@ {
            SamplerChoice::TraceIdRatio
        } else {
            SamplerChoice::ParentBasedAlwaysOn
        },
    }
}

/// Whether a string equals a literal.
fn str_is(s: &String, lit: &str) -> (r: bool)
    ensures
        r == (s@ == lit@),
{
    let other = lit.to_owned();
    *s == other
}

/// Selects the sampler for a sampler-kind setting.
pub fn build_sampler(kind: &Option<String>) -> (r: SamplerChoice)
    ensures
        r == spec_sampler_of(opt_str_view(*kind)),
{
    match kind {
        None => SamplerChoice::ParentBasedAlwaysOn,
        Some(k) => {
            if str_is(k, "always_off") {
                SamplerChoice::AlwaysOff
            } else if str_is(k, "always_on") {
                SamplerChoice::AlwaysOn
            } else if str_is(k, "parentbased_always_on") {
                SamplerChoice::ParentBasedAlwaysOn
            } else if str_is(k, "parentbased_always_off") {
                SamplerChoice::ParentBasedAlwaysOff
            } else if str_is(k, "traceidratio") {
                SamplerChoice::TraceIdRatio
            } else {
                SamplerChoice::ParentBasedAlwaysOn
            }
        },
    }
}

/// Mathematical value of a [`TelemetryEnv`].
#[verifier::ext_equal]
pub ghost struct TelemetryEnvV {
    pub endpoint: Option<Seq<char>>,
    pub service_name: Option<Seq<char>>,
    pub sampler_kind: Option<Seq<char>>,
    pub sampler_arg: Option<Seq<char>>,
    pub package_version: Seq<char>,
}

/// The settings the embedding layer read from the process environment,
/// handed in as plain values.
pub struct TelemetryEnv {
    pub endpoint: Option<String>,
    pub service_name: Option<String>,
    pub sampler_kind: Option<String>,
    pub sampler_arg: Option<String>,
    pub package_version: String,
}

impl View for TelemetryEnv {
    type V = TelemetryEnvV;

    open spec fn view(&self) -> TelemetryEnvV {
        TelemetryEnvV {
            endpoint: opt_str_view(self.endpoint),
            service_name: opt_str_view(self.service_name),
            sampler_kind: opt_str_view(self.sampler_kind),
            sampler_arg: opt_str_view(self.sampler_arg),
            package_version: self.package_version@,
        }
    }
}

/// Mathematical value of a [`TelemetryConfig`].
#[verifier::ext_equal]
pub ghost struct TelemetryConfigV {
    pub service_name: Seq<char>,
    pub service_version: Seq<char>,
    pub endpoint: Option<Seq<char>>,
    pub sampler: SamplerChoice,
    pub sampler_ratio_arg: Option<Seq<char>>,
}

/// The telemetry configuration the embedding layer applies: resource
/// attributes, optional exporter endpoint, and the selected sampler.
pub struct TelemetryConfig {
    pub service_name: String,
    pub service_version: String,
    pub endpoint: Option<String>,
    pub sampler: SamplerChoice,
    pub sampler_ratio_arg: Option<String>,
}

impl View for TelemetryConfig {
    type V = TelemetryConfigV;

    open spec fn view(&self) -> TelemetryConfigV {
        TelemetryConfigV {
            service_name: self.service_name@,
            service_version: self.service_version@,
            endpoint: opt_str_view(self.endpoint),
            sampler: self.sampler,
            sampler_ratio_arg: opt_str_view(self.sampler_ratio_arg),
        }
    }
}

/// The service name the configuration settles on: the explicit override
/// wins, then the environment's, then the default.
pub open spec fn spec_service_name(
    service_name_override: Option<Seq<char>>,
    env_service_name: Option<Seq<char>>,
) -> Seq<char> {
    match service_name_override {
        Some(n) => n,
        None => match env_service_name {
            Some(n) => n,
            None => "unknown_service:oaas"@,
        },
    }
}

/// Computes the telemetry configuration.  The service name falls back
/// from the override to the environment to a fixed default; the version
/// falls back to the package's own; the sampler is selected by
/// [`spec_sampler_of`], and its ratio argument is kept only when the
/// ratio sampler was selected.
pub fn init_telemetry(
    service_name_override: Option<String>,
    service_version: Option<String>,
    env: TelemetryEnv,
) -> (c: TelemetryConfig)
    ensures
        c@.service_name == spec_service_name(
            opt_str_view(service_name_override),
            env@.service_name,
        ),
        c@.service_version == match service_version {
            Some(v) => v@,
            None => env@.package_version,
        },
        c@.endpoint == env@.endpoint,
        c@.sampler == spec_sampler_of(env@.sampler_kind),
        c@.sampler_ratio_arg == if c@.sampler == SamplerChoice::TraceIdRatio {
            env@.sampler_arg
        } else {
            None::<Seq<char>>
        },
{
    let sampler = build_sampler(&env.sampler_kind);
    let sampler_ratio_arg = match sampler {
        SamplerChoice::TraceIdRatio => env.sampler_arg,
        _ => None,
    };
    let service_name = match service_name_override {
        Some(n) => n,
        None => match env.service_name {
            Some(n) => n,
            None => "unknown_service:oaas".to_owned(),
        },
    };
    let version = match service_version {
        Some(v) => v,
        None => env.package_version,
    };
    TelemetryConfig {
        service_name,
        service_version: version,
        endpoint: env.endpoint,
        sampler,
        sampler_ratio_arg,
    }
}

/// The severity of a forwarded host log call, by the host's numeric
/// levels: 10, 20, 30 and 40 are trace, debug, info and warning; any
/// other level is an error.
#[derive(Clone, Copy, PartialEq, Eq, Structural, Debug)]
pub enum LogLevel {
    Trace,
    Debug,
    Info,
    Warn,
    Error,
}

/// The severity a numeric host level maps to.
pub open spec fn spec_severity_of(level: u32) -> LogLevel {
    if level == 10 {
        LogLevel::Trace
    } else if level == 20 {
        LogLevel::Debug
    } else if level == 30 {
        LogLevel::Info
    } else if level == 40 {
        LogLevel::Warn
    } else {
        LogLevel::Error
    }
}

/// Mathematical value of a [`LogRecord`].
#[verifier::ext_equal]
pub ghost struct LogRecordV {
    pub severity: LogLevel,
    pub message: Seq<char>,
    pub module: Seq<char>,
    pub line: u32,
    pub thread: Seq<char>,
}

/// One structured record, ready for the embedding layer to emit.
pub struct LogRecord {
    pub severity: LogLevel,
    pub message: String,
    pub module: String,
    pub line: u32,
    pub thread: String,
}

impl View for LogRecord {
    type V = LogRecordV;

    open spec fn view(&self) -> LogRecordV {
        LogRecordV {
            severity: self.severity,
            message: self.message@,
            module: self.module@,
            line: self.line,
            thread: self.thread@,
        }
    }
}

/// Builds the structured record for a forwarded host log call: the
/// level maps to a severity, and absent context fields become their
/// empty defaults.
pub fn forward_log(
    level: u32,
    message: String,
    module: Option<String>,
    line: Option<u32>,
    thread: Option<String>,
) -> (r: LogRecord)
    ensures
        r@.severity == spec_severity_of(level),
        r@.message == message@,
        r@.module == match module {
            Some(m) => m@,
            None => Seq::<char>::empty(),
        },
        r@.line == line.unwrap_or(0),
        r@.thread == match thread {
            Some(t) => t@,
            None => Seq::<char>::empty(),
        },
{
    let severity = if level == 10 {
        LogLevel::Trace
    } else if level == 20 {
        LogLevel::Debug
    } else if level == 30 {
        LogLevel::Info
    } else if level == 40 {
        LogLevel::Warn
    } else {
        LogLevel::Error
    };
    let m = match module {
        Some(m) => m,
        None => String::new(),
    };
    let ln = match line {
        Some(l) => l,
        None => 0,
    };
    let t = match thread {
        Some(t) => t,
        None => String::new(),
    };
    LogRecord { severity, message, module: m, line: ln, thread: t }
}

} // verus!
