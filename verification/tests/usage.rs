use chrono::{FixedOffset, TimeZone};
use meter_cache::types::usage::{tag_readings, untag_readings, EnergyType, MeterReading, RawUsageData, Reading};

fn text(value: &serde_json::Value, key: &str) -> Option<String> {
    value.get(key).unwrap().as_str().map(|s| s.to_owned())
}

fn micros(value: &serde_json::Value, key: &str) -> i64 {
    let utc: chrono::DateTime<chrono::Utc> =
        chrono::DateTime::parse_from_rfc3339(value.get(key).unwrap().as_str().unwrap()).unwrap().into();
    utc.timestamp_micros()
}

fn page(sample: &str) -> RawUsageData {
    let document: serde_json::Value = serde_json::from_str(sample).unwrap();
    let results = document
        .get("results")
        .unwrap()
        .as_array()
        .unwrap()
        .iter()
        .map(|r| MeterReading {
            consumption: (r.get("consumption").unwrap().as_f64().unwrap() as f32).to_bits(),
            interval_start: micros(r, "interval_start"),
            interval_end: micros(r, "interval_end"),
        })
        .collect();
    RawUsageData {
        count: document.get("count").unwrap().as_i64().unwrap() as i32,
        next: text(&document, "next"),
        previous: text(&document, "previous"),
        results,
    }
}

#[test]
fn test_deserialise_meter_reading() {
    let sample = r#"
            {
                "count": 1,
                "next": null,
                "previous": "https://no-such-luck",
                "results": [
                    {
                        "consumption": 0,
                        "interval_start": "2022-06-01T08:38:05+01:00",
                        "interval_end": "2022-06-01T09:08:05+01:00"
                    }
                ]
            }
        "#;
    let json_data = page(sample);

    let hour = 3600;
    let expected_start = FixedOffset::east_opt(1 * hour)
        .unwrap()
        .with_ymd_and_hms(2022, 6, 1, 8, 38, 5)
        .unwrap();
    let expected_end = FixedOffset::east_opt(1 * hour)
        .unwrap()
        .with_ymd_and_hms(2022, 6, 1, 9, 8, 5)
        .unwrap();

    assert_eq!(json_data.count, 1);
    assert_eq!(json_data.next, None);
    assert_eq!(json_data.previous, Some("https://no-such-luck".to_owned()));
    assert_eq!(json_data.results.len(), 1);
    assert_eq!(f32::from_bits(json_data.results[0].consumption), 0 as f32);
    assert_eq!(json_data.results[0].interval_start, expected_start.timestamp_micros());
    assert_eq!(json_data.results[0].interval_end, expected_end.timestamp_micros());

    let readings = json_data.readings(EnergyType::Gas);
    assert_eq!(
        readings,
        vec![Reading {
            energy_type: EnergyType::Gas,
            interval_start: 1_654_069_085_000_000,
            interval_end: 1_654_070_885_000_000,
            consumption: 0,
        }]
    );
}

#[test]
fn tagging_and_untagging_are_inverse() {
    let raw = vec![
        MeterReading { consumption: 7, interval_end: 20, interval_start: 10 },
        MeterReading { consumption: 9, interval_end: 40, interval_start: 30 },
    ];
    let tagged = tag_readings(&raw, EnergyType::Electricity);
    assert_eq!(tagged.len(), 2);
    assert_eq!(tagged[1].energy_type, EnergyType::Electricity);
    assert_eq!(tagged[1].interval_start, 30);
    assert_eq!(tagged[1].interval_end, 40);
    assert_eq!(tagged[1].consumption, 9);
    assert_eq!(untag_readings(&tagged), raw);
    assert_eq!(raw[0].with_type(EnergyType::Gas).to_raw(), raw[0]);
}
