use all_smi::hlsmi::{
    parse_hlsmi_output, parse_index, parse_memory_mib, parse_power, parse_temperature, parse_utilization,
    HlsmiField,
};
use all_smi::system::calculate_adaptive_interval;

#[test]
fn test_parse_hlsmi_output() {
    let output = "0, 01P4-HL3090A0-18-U4V193-22-07-00, HL-325L, 131072 MiB, 672 MiB, 130400 MiB, 226 W, 850 W, 36 C, 0 %\n\
                  1, 01P4-HL3090A0-18-U4V298-03-04-04, HL-325L, 131072 MiB, 672 MiB, 130400 MiB, 230 W, 850 W, 39 C, 0 %";

    let result = parse_hlsmi_output(output);
    assert!(result.is_ok());

    let data = result.unwrap();
    assert_eq!(data.devices.len(), 2);

    assert_eq!(data.devices[0].index, 0);
    assert_eq!(data.devices[0].uuid, "01P4-HL3090A0-18-U4V193-22-07-00");
    assert_eq!(data.devices[0].name, "HL-325L");
    assert_eq!(data.devices[0].memory_total, 131072);
    assert_eq!(data.devices[0].memory_used, 672);
    assert_eq!(data.devices[0].memory_free, 130400);
    assert_eq!(data.devices[0].power_draw_text.parse::<f64>().unwrap(), 226.0);
    assert_eq!(data.devices[0].power_max_text.parse::<f64>().unwrap(), 850.0);
    assert_eq!(data.devices[0].temperature, 36);
    assert_eq!(data.devices[0].utilization_text.parse::<f64>().unwrap(), 0.0);

    assert_eq!(data.devices[1].index, 1);
    assert_eq!(data.devices[1].temperature, 39);
}

#[test]
fn test_parse_hlsmi_output_skips_and_errors() {
    let data = parse_hlsmi_output("\n  \nshort,line\r\n").unwrap();
    assert_eq!(data.devices.len(), 0);
    let err = parse_hlsmi_output("x, u, n, 1 MiB, 1 MiB, 1 MiB, 1 W, 1 W, 1 C, 1 %").unwrap_err();
    assert_eq!(err.field, HlsmiField::Index);
    let err = parse_hlsmi_output("0, u, n, 1 MiB, 1 MiB, 1 MiB, 1 W, 1 W, hot, 1 %").unwrap_err();
    assert_eq!(err.field, HlsmiField::Temperature);
    assert_eq!(err.text, "hot");
}

#[test]
fn test_parse_memory_mib() {
    assert_eq!(parse_memory_mib("131072 MiB").unwrap(), 131072);
    assert_eq!(parse_memory_mib("672 MiB").unwrap(), 672);
    assert_eq!(parse_memory_mib("130400 MiB").unwrap(), 130400);
}

#[test]
fn test_parse_temperature() {
    assert_eq!(parse_temperature("36 C").unwrap(), 36);
    assert_eq!(parse_temperature("39 C").unwrap(), 39);
    assert_eq!(parse_temperature("0 C").unwrap(), 0);
}

#[test]
fn test_parse_index_errors() {
    assert_eq!(parse_index(" 7 ").unwrap(), 7);
    assert!(parse_index("").is_err());
    assert!(parse_index("-1").is_err());
    assert!(parse_index("4294967296").is_err());
    assert_eq!(parse_index("4294967295").unwrap(), 4294967295);
}

#[test]
fn test_calculate_adaptive_interval() {
    assert_eq!(calculate_adaptive_interval(0), 2);
    assert_eq!(calculate_adaptive_interval(1), 2);
    assert_eq!(calculate_adaptive_interval(5), 2);
    assert_eq!(calculate_adaptive_interval(10), 2);
    assert_eq!(calculate_adaptive_interval(11), 3);
    assert_eq!(calculate_adaptive_interval(25), 3);
    assert_eq!(calculate_adaptive_interval(50), 3);
    assert_eq!(calculate_adaptive_interval(51), 4);
    assert_eq!(calculate_adaptive_interval(75), 4);
    assert_eq!(calculate_adaptive_interval(100), 4);
    assert_eq!(calculate_adaptive_interval(101), 5);
    assert_eq!(calculate_adaptive_interval(150), 5);
    assert_eq!(calculate_adaptive_interval(200), 5);
    assert_eq!(calculate_adaptive_interval(201), 6);
    assert_eq!(calculate_adaptive_interval(500), 6);
    assert_eq!(calculate_adaptive_interval(1000), 6);
}

#[test]
fn test_parse_power() {
    assert_eq!(parse_power("226 W").unwrap().parse::<f64>().unwrap(), 226.0);
    assert_eq!(parse_power("850 W").unwrap().parse::<f64>().unwrap(), 850.0);
    assert_eq!(parse_power("0 W").unwrap().parse::<f64>().unwrap(), 0.0);
}

#[test]
fn test_parse_utilization() {
    assert_eq!(parse_utilization("0 %").unwrap().parse::<f64>().unwrap(), 0.0);
    assert_eq!(parse_utilization("50 %").unwrap().parse::<f64>().unwrap(), 50.0);
    assert_eq!(parse_utilization("100 %").unwrap().parse::<f64>().unwrap(), 100.0);
}

#[test]
fn fraction_columns_follow_the_float_grammar() {
    for ok in ["226.5 W", "-1e3 W", ".5 W", "7. W", "+INF W", "infinity W", "NaN W", "1E+2 W"] {
        let t = parse_power(ok).unwrap();
        assert!(t.parse::<f64>().is_ok(), "{ok}");
    }
    for bad in ["N/A W", ". W", "1e W", "e5 W", "1.2.3 W", " W", "in f W", "--1 W"] {
        let e = parse_power(bad).unwrap_err();
        assert_eq!(e.field, HlsmiField::Power);
        assert!(e.text.parse::<f64>().is_err(), "{bad}");
    }
    let e = parse_utilization("busy %").unwrap_err();
    assert_eq!((e.field, e.text.as_str()), (HlsmiField::Utilization, "busy"));
}

#[test]
fn hlsmi_row_with_non_numeric_power_is_an_error() {
    let err = parse_hlsmi_output("0, u, n, 1 MiB, 1 MiB, 1 MiB, N/A W, 1 W, 1 C, 1 %").unwrap_err();
    assert_eq!((err.field, err.text.as_str()), (HlsmiField::Power, "N/A"));
    let err = parse_hlsmi_output("0, u, n, 1 MiB, 1 MiB, 1 MiB, 1 W, 1 W, 1 C, x %").unwrap_err();
    assert_eq!(err.field, HlsmiField::Utilization);
}

#[test]
fn hlsmi_error_is_first_bad_column_of_first_bad_row() {
    let out = "0, u, n, 1 MiB, 1 MiB, 1 MiB, 1 W, 1 W, 1 C, 1 %\n\
               1, u, n, 1 MiB, lots MiB, 1 MiB, N/A W, 1 W, 1 C, 1 %\n\
               x, u, n, 1 MiB, 1 MiB, 1 MiB, 1 W, 1 W, 1 C, 1 %";
    let err = parse_hlsmi_output(out).unwrap_err();
    assert_eq!((err.field, err.text.as_str()), (HlsmiField::Memory, "lots"));
}
