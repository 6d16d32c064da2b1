use beacon::base::json::Json;
use beacon::k8s::metrics::{
    container_usage, read_usage, resource, split_quantity, Metrics, Quantity, Reading, Scale, Usage,
};

fn json(text: &str) -> Json {
    Json::parse(text.as_bytes()).expect("valid JSON")
}

fn value(quantity: &Quantity) -> Option<f64> {
    let (number, scale) = match quantity {
        Quantity::Scientific(number) => (number, 1.0),
        Quantity::Scaled { number, scale } => (
            number,
            match scale {
                Scale::One => 1.0,
                Scale::Nano => 1e-9,
                Scale::Micro => 1e-6,
                Scale::Milli => 1e-3,
                Scale::Kilo => 1e3,
                Scale::Mega => 1e6,
                Scale::Giga => 1e9,
                Scale::Tera => 1e12,
                Scale::Peta => 1e15,
                Scale::Exa => 1e18,
                Scale::Kibi => 1024.0,
                Scale::Mebi => 1024.0 * 1024.0,
                Scale::Gibi => 1024.0 * 1024.0 * 1024.0,
                Scale::Tebi => 1024.0 * 1024.0 * 1024.0 * 1024.0,
                Scale::Pebi => 1024.0 * 1024.0 * 1024.0 * 1024.0 * 1024.0,
                Scale::Exbi => 1024.0 * 1024.0 * 1024.0 * 1024.0 * 1024.0 * 1024.0,
            },
        ),
    };
    number.parse::<f64>().ok().map(|number| number * scale)
}

fn parse_quantity(text: &str) -> Option<f64> {
    value(&split_quantity(text)?)
}

/// What readings come to, rounded once.
fn total(readings: &[Reading]) -> Usage {
    let amount = |quantity: &Option<Quantity>| quantity.as_ref().and_then(value).unwrap_or(0.0);
    let cpu: f64 = readings.iter().map(|r| amount(&r.cpu) * 1000.0).sum();
    let memory: f64 = readings.iter().map(|r| amount(&r.memory)).sum();
    Usage {
        cpu_millis: cpu.round() as i64,
        memory_bytes: memory.round() as i64,
    }
}

fn pod_usage(data: &Json) -> Usage {
    total(&container_usage(data))
}

fn about(value: Option<f64>, expected: f64) {
    let value = value.expect("a quantity");
    assert!(
        (value - expected).abs() < expected.abs() * 1e-9 + 1e-9,
        "{value} is not {expected}"
    );
}

/// `m` is milli and `M` is mega. Confusing them turns a tenth of a core
/// into a hundred million of them.
#[test]
fn case_decides_the_magnitude() {
    about(parse_quantity("100m"), 0.1);
    about(parse_quantity("100M"), 1e8);
}

#[test]
fn decimal_suffixes() {
    about(parse_quantity("1"), 1.0);
    about(parse_quantity("1500n"), 1.5e-6);
    about(parse_quantity("250u"), 250e-6);
    about(parse_quantity("2k"), 2000.0);
    about(parse_quantity("3G"), 3e9);
}

#[test]
fn binary_suffixes() {
    about(parse_quantity("123Ki"), 123.0 * 1024.0);
    about(parse_quantity("1Gi"), 1024.0 * 1024.0 * 1024.0);
}

/// `129e6` is how some controllers write a memory limit, and the exponent
/// is part of the number rather than a suffix.
#[test]
fn scientific_notation() {
    about(parse_quantity("129e6"), 129e6);
    about(parse_quantity("1.5e3"), 1500.0);
}

#[test]
fn nonsense_is_not_a_quantity() {
    assert!(parse_quantity("").is_none());
    assert!(parse_quantity("lots").is_none());
    assert!(parse_quantity("12Qi").is_none());
}

/// metrics-server reports per container; the pod total is ours to compute.
#[test]
fn a_pods_usage_is_the_sum_of_its_containers() {
    let data = json(r#"{
        "containers": [
            { "name": "app", "usage": { "cpu": "12m", "memory": "100Mi" } },
            { "name": "sidecar", "usage": { "cpu": "3500u", "memory": "24Mi" } }
        ]
    }"#);

    let usage = pod_usage(&data);
    assert_eq!(usage.cpu_millis, 16, "12m + 3.5m, rounded once");
    assert_eq!(usage.memory_bytes, 124 * 1024 * 1024);
}

#[test]
fn a_pod_with_no_metrics_reads_as_zero() {
    assert_eq!(pod_usage(&json(r#"{}"#)), Usage::default());
    assert_eq!(total(&[read_usage(None)]), Usage::default());
}

/// The column is read at a glance, so it is rounded the way somebody would
/// say it out loud.
#[test]
fn usage_reads_the_way_a_person_says_it() {
    let usage = Usage {
        cpu_millis: 250,
        memory_bytes: (1.4 * 1024.0 * 1024.0 * 1024.0) as i64,
    };
    assert_eq!(usage.cpu(), "250m");
    assert_eq!(usage.memory(), "1.4Gi");

    let big = Usage {
        cpu_millis: 4000,
        memory_bytes: 512 * 1024 * 1024,
    };
    assert_eq!(big.cpu(), "4000m");
    assert_eq!(big.memory(), "512Mi");

    assert_eq!(Usage::default().memory(), "0");
}

#[test]
fn metrics_are_looked_up_the_way_a_table_reads_them() {
    let mut metrics = Metrics::new();
    metrics.record_pod(
        Some("argo"),
        Some("api"),
        Usage {
            cpu_millis: 5,
            memory_bytes: 10,
        },
    );
    metrics.record_node(
        Some("k3s"),
        Usage {
            cpu_millis: 900,
            memory_bytes: 20,
        },
    );

    assert_eq!(metrics.get(Some("argo"), "api").unwrap().cpu_millis, 5);
    assert_eq!(metrics.get(None, "k3s").unwrap().cpu_millis, 900);
    assert!(metrics.get(Some("other"), "api").is_none());
    assert_eq!(metrics.len(), 2);
}

fn in_floats(memory_bytes: i64) -> String {
    let bytes = memory_bytes as f64;
    for (unit, size) in [
        ("Gi", 1024.0 * 1024.0 * 1024.0),
        ("Mi", 1024.0 * 1024.0),
        ("Ki", 1024.0),
        ("", 1.0),
    ] {
        if bytes >= size {
            let value = bytes / size;
            return if value >= 100.0 || unit.is_empty() {
                format!("{}{unit}", value.round() as i64)
            } else {
                format!("{value:.1}{unit}")
            };
        }
    }
    "0".to_string()
}

/// The number before the unit is what dividing and rounding in floating point
/// gives, whatever the size.
#[test]
fn memory_agrees_with_floating_point() {
    let mut bytes: i64 = 1;
    while bytes < i64::MAX / 3 {
        for offset in [-1i64, 0, 1, 52_428, 52_429, 104_857] {
            let memory_bytes = bytes + offset;
            let usage = Usage {
                cpu_millis: 0,
                memory_bytes,
            };
            assert_eq!(usage.memory(), in_floats(memory_bytes), "for {memory_bytes}");
        }
        bytes *= 3;
    }
}

#[test]
fn what_has_no_name_is_not_recorded() {
    let mut metrics = Metrics::new();
    metrics.record_pod(Some("a"), None, Usage::default());
    metrics.record_node(None, Usage::default());
    assert!(metrics.is_empty());
}

#[test]
fn the_metrics_api_is_a_group_of_its_own() {
    let pods = resource("PodMetrics", "pods");
    assert_eq!(pods.group, "metrics.k8s.io");
    assert_eq!(pods.api_version, "metrics.k8s.io/v1beta1");
    assert_eq!(pods.plural, "pods");
}

/// An `E` is an exponent only where digits follow it.
#[test]
fn exa_is_no_exponent() {
    assert_eq!(parse_quantity("1E"), Some(1e18));
    assert_eq!(parse_quantity("1Ei"), Some(1152921504606846976.0));
    assert_eq!(parse_quantity("2.5E"), Some(2.5e18));
    assert_eq!(parse_quantity("1E3"), Some(1e3));
    assert_eq!(parse_quantity("1e+3"), Some(1e3));
    assert_eq!(parse_quantity("1E-3"), Some(1e-3));
    assert_eq!(parse_quantity("1e"), None);
    assert_eq!(parse_quantity("1E+"), None);
    assert_eq!(parse_quantity("1ei"), None);
}
