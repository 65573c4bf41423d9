use indexing_core::capacity::parse_cpu_count;
use indexing_core::{mcpu, CpuCapacity};

#[test]
fn test_cpu_capacity_serialization() {
    assert_eq!(CpuCapacity::from_str("2000m").unwrap(), mcpu(2000));
    assert_eq!(CpuCapacity::from_cpu_millis(2500), mcpu(2500));
    assert_eq!(
        CpuCapacity::from_str("2.5").unwrap_err(),
        "invalid cpu capacity: `2.5`. String format expects a trailing 'm'."
    );
    // A JSON string carries the strict `<millis>m` form.
    let json_string = serde_json::Value::String("1200m".to_string());
    let parsed = match &json_string {
        serde_json::Value::String(text) => CpuCapacity::from_str(text).unwrap(),
        _ => unreachable!(),
    };
    assert_eq!(parsed, mcpu(1200));
    // A JSON number carries a count of whole CPUs; the lenient path
    // reads its decimal text.
    let json_number = serde_json::Value::Number(serde_json::Number::from_f64(1.2f64).unwrap());
    assert_eq!(parse_cpu_count(&json_number.to_string()).unwrap(), mcpu(1200));
    let json_number = serde_json::Value::Number(serde_json::Number::from(1u32));
    assert_eq!(parse_cpu_count(&json_number.to_string()).unwrap(), mcpu(1000));
    assert_eq!(CpuCapacity::from_cpu_millis(2500).display_string(), "2500m");
    // Serialization is canonical: always the quoted `<millis>m` string.
    let out = serde_json::Value::String(mcpu(2500).display_string());
    assert_eq!(serde_json::to_string(&out).unwrap(), "\"2500m\"");
}

#[test]
fn test_from_millis_round_trip() {
    for n in [0u32, 1, 999, 1000, 4000, u32::MAX] {
        assert_eq!(CpuCapacity::from_cpu_millis(n).cpu_millis(), n);
        assert_eq!(mcpu(n).cpu_millis(), n);
    }
}

#[test]
fn test_named_constants() {
    assert_eq!(CpuCapacity::zero(), mcpu(0));
    assert_eq!(CpuCapacity::one_cpu_thread(), mcpu(1000));
    assert_eq!(CpuCapacity::pipeline_full_capacity(), mcpu(4000));
}

#[test]
fn test_invalid_number_error_message() {
    assert_eq!(
        CpuCapacity::from_str("12x4m").unwrap_err(),
        "invalid cpu capacity: `12x4m`."
    );
    assert_eq!(
        CpuCapacity::from_str("m").unwrap_err(),
        "invalid cpu capacity: `m`."
    );
    assert_eq!(
        CpuCapacity::from_str("").unwrap_err(),
        "invalid cpu capacity: ``. String format expects a trailing 'm'."
    );
}

#[test]
fn test_canonical_round_trip() {
    for n in [0u32, 7, 1200, 2500, u32::MAX] {
        let text = CpuCapacity::from_cpu_millis(n).display_string();
        assert_eq!(CpuCapacity::from_str(&text).unwrap(), mcpu(n));
    }
}

#[test]
fn test_parse_cpu_count_shapes() {
    assert_eq!(parse_cpu_count("2.5").unwrap(), mcpu(2500));
    assert_eq!(parse_cpu_count("+3").unwrap(), mcpu(3000));
    // truncation toward zero at milli-CPU precision
    assert_eq!(parse_cpu_count("0.1239").unwrap(), mcpu(123));
    assert!(parse_cpu_count("").is_none());
    assert!(parse_cpu_count("1.").is_none());
    assert!(parse_cpu_count(".5").is_none());
    assert!(parse_cpu_count("1.2m").is_none());
    // a whole-CPU count too large for the machine word
    assert!(parse_cpu_count("4294967296").is_none());
}

#[test]
fn test_arithmetic() {
    assert_eq!(mcpu(1500).add(mcpu(500)), mcpu(2000));
    assert_eq!(mcpu(1500).sub(mcpu(500)), mcpu(1000));
    assert_eq!(mcpu(1500).mul(3), mcpu(4500));
}
