//! The `WIDTHxHEIGHT` wire form of a resolution.

use project_mapper::sink::Resolution;
use project_mapper::sink::ResolutionJsonError;

#[test]
fn renders_width_and_height() {
    let r = Resolution { width: 1920, height: 1080 };
    assert_eq!(r.to_json(), "1920x1080");
}

#[test]
fn renders_zero_resolution() {
    let r = Resolution { width: 0, height: 0 };
    assert_eq!(r.to_json(), "0x0");
}

#[test]
fn renders_extreme_resolution() {
    let r = Resolution { width: u32::MAX, height: 1 };
    assert_eq!(r.to_json(), "4294967295x1");
}

#[test]
fn reads_plain_resolution() {
    let r = Resolution::from_json(&String::from("2560x1440")).unwrap();
    assert_eq!(r.width, 2560);
    assert_eq!(r.height, 1440);
}

#[test]
fn reads_leading_zeros() {
    let r = Resolution::from_json(&String::from("01920x0001080")).unwrap();
    assert_eq!(r.width, 1920);
    assert_eq!(r.height, 1080);
}

#[test]
fn round_trips_every_rendered_value() {
    for (w, h) in [(0, 0), (1, 2), (640, 480), (1920, 1080), (u32::MAX, u32::MAX)] {
        let r = Resolution { width: w, height: h };
        let back = Resolution::from_json(&r.to_json()).unwrap();
        assert_eq!(back, r);
    }
}

#[test]
fn rejects_missing_separator() {
    assert_eq!(
        Resolution::from_json(&String::from("1920")),
        Err(ResolutionJsonError::MissingSeparator)
    );
    assert_eq!(
        Resolution::from_json(&String::from("")),
        Err(ResolutionJsonError::MissingSeparator)
    );
}

#[test]
fn rejects_second_separator() {
    assert_eq!(
        Resolution::from_json(&String::from("1x2x3")),
        Err(ResolutionJsonError::ExtraSeparator)
    );
}

#[test]
fn rejects_bad_width() {
    assert_eq!(
        Resolution::from_json(&String::from("x1080")),
        Err(ResolutionJsonError::InvalidWidth)
    );
    assert_eq!(
        Resolution::from_json(&String::from("19a0x1080")),
        Err(ResolutionJsonError::InvalidWidth)
    );
    // One past u32::MAX does not fit.
    assert_eq!(
        Resolution::from_json(&String::from("4294967296x1080")),
        Err(ResolutionJsonError::InvalidWidth)
    );
}

#[test]
fn rejects_bad_height() {
    assert_eq!(
        Resolution::from_json(&String::from("1920x")),
        Err(ResolutionJsonError::InvalidHeight)
    );
    assert_eq!(
        Resolution::from_json(&String::from("1920x10b0")),
        Err(ResolutionJsonError::InvalidHeight)
    );
    assert_eq!(
        Resolution::from_json(&String::from("1920x4294967296")),
        Err(ResolutionJsonError::InvalidHeight)
    );
}

#[test]
fn widest_values_still_fit() {
    let r = Resolution::from_json(&String::from("4294967295x4294967295")).unwrap();
    assert_eq!(r.width, u32::MAX);
    assert_eq!(r.height, u32::MAX);
}
