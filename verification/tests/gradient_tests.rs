use mandelzoom::GradientError;
use mandelzoom::gradient::{get_gradient, lerp_color};

fn driver_stops() -> Vec<&'static str> {
    vec!["#1C448E", "#6F8695", "#CEC288", "#FFE381", "#DBFE87"]
}

#[test]
fn table_length_matches_iteration_cap() {
    let table = get_gradient(driver_stops(), 5000).unwrap();
    assert_eq!(table.len(), 5000);
}

#[test]
fn table_length_zero() {
    let table = get_gradient(driver_stops(), 0).unwrap();
    assert_eq!(table.len(), 0);
}

#[test]
fn table_length_two_stops() {
    let table = get_gradient(vec!["#000000", "#FFFFFF"], 7).unwrap();
    assert_eq!(table.len(), 7);
}

#[test]
fn first_entry_is_first_stop() {
    let table = get_gradient(driver_stops(), 100).unwrap();
    assert_eq!(table[0], [0x1C, 0x44, 0x8E]);
}

#[test]
fn black_to_white_endpoints() {
    // two stops, ten entries: entry 0 is the first stop exactly, and
    // entry 9 sits at fraction 9/10, truncated: 255 * 9 / 10 == 229
    let table = get_gradient(vec!["#000000", "#FFFFFF"], 10).unwrap();
    assert_eq!(table[0], [0, 0, 0]);
    assert_eq!(table[9], [229, 229, 229]);
}

#[test]
fn invalid_stop_rejected() {
    assert_eq!(
        get_gradient(vec!["#000000", "#FFFFF"], 10),
        Err(GradientError::InvalidColorFormat)
    );
    assert_eq!(
        get_gradient(vec!["not hex", "#FFFFFF"], 10),
        Err(GradientError::InvalidColorFormat)
    );
}

#[test]
fn too_few_stops_rejected() {
    assert_eq!(get_gradient(vec![], 10), Err(GradientError::TooFewColorStops));
    assert_eq!(get_gradient(vec!["#000000"], 10), Err(GradientError::TooFewColorStops));
}

#[test]
fn lerp_at_zero_is_first_color() {
    assert_eq!(lerp_color(&[10, 20, 30], &[200, 100, 0], 0, 5), [10, 20, 30]);
}

#[test]
fn lerp_midpoint_truncates() {
    // rising channels round down; falling channels keep the truncated value
    assert_eq!(lerp_color(&[0, 0, 0], &[255, 255, 255], 1, 2), [127, 127, 127]);
    assert_eq!(lerp_color(&[255, 0, 10], &[0, 255, 10], 1, 2), [127, 127, 10]);
}

#[test]
fn lerp_near_end() {
    assert_eq!(lerp_color(&[0, 0, 0], &[255, 255, 255], 9, 10), [229, 229, 229]);
}
