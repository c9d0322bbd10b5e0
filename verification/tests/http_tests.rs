use lode_stm32h723::bme280::Measurements;
use lode_stm32h723::http::{reading_body, HOST, URL};

fn body(temperature: i32, pressure: u32, humidity: u32) -> String {
    let b = reading_body(&Measurements { temperature, pressure, humidity });
    b.as_str().to_string()
}

#[test]
fn body_of_typical_reading() {
    assert_eq!(
        body(2315, 25767233, 51322),
        r#"{"temperature_c":23.15,"humidity_pct":50.11,"pressure_hpa":1006.53}"#
    );
}

#[test]
fn body_pads_decimals_to_two_digits() {
    assert_eq!(
        body(2005, 256 * 100_005, 1024 * 40 + 10),
        r#"{"temperature_c":20.05,"humidity_pct":40.00,"pressure_hpa":1000.05}"#
    );
}

#[test]
fn body_of_negative_temperature() {
    assert_eq!(
        body(-1234, 0, 0),
        r#"{"temperature_c":-12.34,"humidity_pct":0.00,"pressure_hpa":0.00}"#
    );
    assert_eq!(
        body(-5, 0, 0),
        r#"{"temperature_c":-0.05,"humidity_pct":0.00,"pressure_hpa":0.00}"#
    );
    assert_eq!(
        body(-150, 0, 0),
        r#"{"temperature_c":-1.50,"humidity_pct":0.00,"pressure_hpa":0.00}"#
    );
    assert_eq!(
        body(-100, 0, 0),
        r#"{"temperature_c":-1.00,"humidity_pct":0.00,"pressure_hpa":0.00}"#
    );
}

#[test]
fn body_of_extreme_values_fits_buffer() {
    let s = body(i32::MIN, u32::MAX, u32::MAX);
    assert_eq!(
        s,
        r#"{"temperature_c":-21474836.48,"humidity_pct":4194303.99,"pressure_hpa":167772.15}"#
    );
    assert!(s.len() <= 81);
    assert_eq!(s.len(), 81);
}

#[test]
fn backend_endpoint() {
    assert_eq!(HOST, "lode-api-rust.onrender.com");
    assert_eq!(URL, "https://lode-api-rust.onrender.com/readings");
}
