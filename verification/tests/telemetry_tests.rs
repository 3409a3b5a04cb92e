use oprc_core::telemetry::{
    build_sampler, forward_log, init_telemetry, LogLevel, SamplerChoice, TelemetryEnv,
};

fn env_with(sampler_kind: Option<&str>, sampler_arg: Option<&str>) -> TelemetryEnv {
    TelemetryEnv {
        endpoint: None,
        service_name: None,
        sampler_kind: sampler_kind.map(|s| s.to_string()),
        sampler_arg: sampler_arg.map(|s| s.to_string()),
        package_version: "1.2.3".to_string(),
    }
}

#[test]
fn sampler_kinds_are_recognized() {
    let cases = [
        ("always_off", SamplerChoice::AlwaysOff),
        ("always_on", SamplerChoice::AlwaysOn),
        ("parentbased_always_on", SamplerChoice::ParentBasedAlwaysOn),
        ("parentbased_always_off", SamplerChoice::ParentBasedAlwaysOff),
        ("traceidratio", SamplerChoice::TraceIdRatio),
    ];
    for (kind, expected) in cases {
        assert_eq!(build_sampler(&Some(kind.to_string())), expected);
    }
}

#[test]
fn absent_or_unknown_sampler_kind_falls_back() {
    assert_eq!(build_sampler(&None), SamplerChoice::ParentBasedAlwaysOn);
    assert_eq!(
        build_sampler(&Some("no_such_sampler".to_string())),
        SamplerChoice::ParentBasedAlwaysOn
    );
}

#[test]
fn service_name_override_wins() {
    let mut env = env_with(None, None);
    env.service_name = Some("from-env".to_string());
    let cfg = init_telemetry(Some("explicit".to_string()), None, env);
    assert_eq!(cfg.service_name, "explicit".to_string());
}

#[test]
fn service_name_falls_back_to_env_then_default() {
    let mut env = env_with(None, None);
    env.service_name = Some("from-env".to_string());
    let cfg = init_telemetry(None, None, env);
    assert_eq!(cfg.service_name, "from-env".to_string());

    let cfg = init_telemetry(None, None, env_with(None, None));
    assert_eq!(cfg.service_name, "unknown_service:oaas".to_string());
}

#[test]
fn service_version_falls_back_to_the_package_version() {
    let cfg = init_telemetry(None, Some("9.0".to_string()), env_with(None, None));
    assert_eq!(cfg.service_version, "9.0".to_string());
    let cfg = init_telemetry(None, None, env_with(None, None));
    assert_eq!(cfg.service_version, "1.2.3".to_string());
}

#[test]
fn ratio_argument_is_kept_only_for_the_ratio_sampler() {
    let cfg = init_telemetry(None, None, env_with(Some("traceidratio"), Some("0.25")));
    assert_eq!(cfg.sampler, SamplerChoice::TraceIdRatio);
    assert_eq!(cfg.sampler_ratio_arg, Some("0.25".to_string()));

    let cfg = init_telemetry(None, None, env_with(Some("always_on"), Some("0.25")));
    assert_eq!(cfg.sampler, SamplerChoice::AlwaysOn);
    assert_eq!(cfg.sampler_ratio_arg, None);
}

#[test]
fn endpoint_is_passed_through() {
    let mut env = env_with(None, None);
    env.endpoint = Some("http://collector:4318".to_string());
    let cfg = init_telemetry(None, None, env);
    assert_eq!(cfg.endpoint, Some("http://collector:4318".to_string()));
}

#[test]
fn log_levels_map_to_severities() {
    let cases = [
        (10, LogLevel::Trace),
        (20, LogLevel::Debug),
        (30, LogLevel::Info),
        (40, LogLevel::Warn),
        (50, LogLevel::Error),
        (0, LogLevel::Error),
        (35, LogLevel::Error),
    ];
    for (level, expected) in cases {
        let record = forward_log(level, "m".to_string(), None, None, None);
        assert_eq!(record.severity, expected);
    }
}

#[test]
fn log_record_defaults_absent_context_fields() {
    let record = forward_log(30, "hello".to_string(), None, None, None);
    assert_eq!(record.message, "hello".to_string());
    assert_eq!(record.module, String::new());
    assert_eq!(record.line, 0);
    assert_eq!(record.thread, String::new());

    let record = forward_log(
        20,
        "hi".to_string(),
        Some("app.main".to_string()),
        Some(17),
        Some("MainThread".to_string()),
    );
    assert_eq!(record.module, "app.main".to_string());
    assert_eq!(record.line, 17);
    assert_eq!(record.thread, "MainThread".to_string());
}
