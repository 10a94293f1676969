use all_smi::labels::LabelMap;
use all_smi::parsing::{
    extract_label_to_detail, extract_labels_batch, get_label_or, get_label_or_default,
    parse_metric_token, parse_metric_u32, parse_prometheus,
};

fn s(x: &str) -> String {
    x.to_string()
}

#[test]
fn test_parse_metric_frequency() {
    let line = "GPU HW active frequency: 444 MHz";
    let v = parse_metric_u32(line, "MHz");
    assert_eq!(v, Some(444u32));
}

#[test]
fn test_parse_metric_percentage() {
    let line = "E-Cluster HW active residency:  64.29% (details omitted)";
    let v = parse_metric_token(line, "%").and_then(|t| t.parse::<f64>().ok());
    assert!(v.is_some());
    assert!((v.unwrap() - 64.29).abs() < 1e-6);
}

#[test]
fn test_parse_metric_power() {
    let line = "CPU Power: 475 mW";
    let v = parse_metric_token(line, "mW").and_then(|t| t.parse::<f64>().ok());
    assert_eq!(v, Some(475.0));
}

#[test]
fn test_parse_metric_invalid() {
    let line = "Invalid Line";
    let v = parse_metric_u32(line, "MHz");
    assert!(v.is_none());
}

#[test]
fn test_parse_metric_token_edges() {
    assert_eq!(parse_metric_token("A:", "MHz"), None);
    assert_eq!(parse_metric_token("A: 12MHzMHz", "MHz"), Some(s("12")));
    assert_eq!(parse_metric_token("A: b: 7 W", "W"), Some(s("b:")));
    assert_eq!(parse_metric_u32("A: 4294967296 MHz", "MHz"), None);
    assert_eq!(parse_metric_u32("A: +5", ""), Some(5));
}

#[test]
fn test_extract_label_to_detail() {
    let mut labels = LabelMap::new();
    labels.insert(s("cuda_version"), s("11.8"));
    labels.insert(s("driver_version"), s("525.60.13"));

    let mut detail = LabelMap::new();

    extract_label_to_detail(&labels, "cuda_version", &mut detail, "cuda_version");
    assert_eq!(detail.get("cuda_version"), Some(&s("11.8")));

    extract_label_to_detail(&labels, "driver_version", &mut detail, "driver_version");
    assert_eq!(detail.get("driver_version"), Some(&s("525.60.13")));

    extract_label_to_detail(&labels, "non_existent", &mut detail, "non_existent");
    assert_eq!(detail.get("non_existent"), None);
}

#[test]
fn test_extract_labels_batch() {
    let mut labels = LabelMap::new();
    labels.insert(s("cuda_version"), s("11.8"));
    labels.insert(s("driver_version"), s("525.60.13"));
    labels.insert(s("architecture"), s("Ampere"));

    let mut detail = LabelMap::new();

    extract_labels_batch(
        &labels,
        &mut detail,
        &["cuda_version", "driver_version", "architecture", "non_existent"],
    );

    assert_eq!(detail.get("cuda_version"), Some(&s("11.8")));
    assert_eq!(detail.get("driver_version"), Some(&s("525.60.13")));
    assert_eq!(detail.get("architecture"), Some(&s("Ampere")));
    assert_eq!(detail.get("non_existent"), None);
}

#[test]
fn test_get_label_or_default() {
    let mut labels = LabelMap::new();
    labels.insert(s("gpu"), s("RTX 4090"));
    labels.insert(s("index"), s("2"));

    let gpu_name = get_label_or_default(&labels, "gpu");
    assert_eq!(gpu_name, "RTX 4090");

    let non_existent = get_label_or_default(&labels, "non_existent");
    assert_eq!(non_existent, "");

    let custom_default = get_label_or(&labels, "non_existent", "N/A");
    assert_eq!(custom_default, "N/A");

    let index = get_label_or(&labels, "index", "0");
    assert_eq!(index, "2");
}

#[test]
fn test_label_map_insert_replaces() {
    let mut m = LabelMap::new();
    m.insert(s("k"), s("a"));
    m.insert(s("k"), s("b"));
    m.insert(s("j"), s("c"));
    assert_eq!(m.get("k"), Some(&s("b")));
    assert_eq!(m.len(), 2);
    assert!(m.contains_key("j"));
    assert!(!m.contains_key("x"));
}

#[test]
fn test_parse_prometheus_success() {
    let line = r#"all_smi_gpu_utilization{gpu="RTX", uuid="GPU-1"} 25.5"#;
    let parsed = parse_prometheus(line);
    assert!(parsed.is_some());
    let (name, labels, value) = parsed.unwrap();
    assert_eq!(name, "gpu_utilization");
    assert!(labels.contains(r#"gpu="RTX""#));
    assert_eq!(value.parse::<f64>().unwrap(), 25.5);
}

#[test]
fn test_parse_prometheus_invalid() {
    let line = "bad format";
    let parsed = parse_prometheus(line);
    assert!(parsed.is_none());
}

#[test]
fn prometheus_lines_of_other_shapes() {
    assert!(parse_prometheus("all_smi_{a=\"b\"} 1").is_none());
    assert!(parse_prometheus("all_smi_x{} 1").is_none());
    assert!(parse_prometheus("all_smi_x{a=\"b\"}  1").is_none());
    assert!(parse_prometheus("all_smi_x{a=\"b\"} 1e5").is_none());
    assert!(parse_prometheus("gpu_x{a=\"b\"} 1").is_none());
    assert_eq!(
        parse_prometheus("  all_smi_cpu_cores{instance=\"n1\"} 16\n"),
        Some(("cpu_cores".to_string(), "instance=\"n1\"".to_string(), "16".to_string()))
    );
}

#[test]
fn exported_sample_reads_back() {
    let mut builder = all_smi::metrics::MetricBuilder::new();
    builder.metric(
        "all_smi_gpu_utilization",
        &vec![(s("gpu"), s("RTX")), (s("uuid"), s("GPU-1"))],
        "25.5",
    );
    let text = builder.build();
    assert_eq!(
        parse_prometheus(&text),
        Some((s("gpu_utilization"), s("gpu=\"RTX\",uuid=\"GPU-1\""), s("25.5")))
    );
}

#[test]
fn prometheus_value_of_unicode_digits() {
    let (name, labels, value) = parse_prometheus("all_smi_x{a=\"b\"} \u{0663}.\u{0661}").unwrap();
    assert_eq!((name.as_str(), labels.as_str()), ("x", "a=\"b\""));
    assert_eq!(value, "\u{0663}.\u{0661}");
    assert_eq!(value.parse::<f64>().unwrap_or(0.0), 0.0);
    assert!(parse_prometheus("all_smi_x{a=\"b\"} \u{00BD}").is_none());
    assert!(parse_prometheus("all_smi_x{a=\"b\"} 4\u{0967}2").is_some());
}
