use oomd_core::cgroup::interface::{PressureType, PsiData};
use oomd_core::cgroup::v2::{parse_pressure, parse_system_pressure};
use oomd_core::error::OomdError;
use oomd_core::model::ResourcePressure;

#[test]
fn pressure_type_words() {
    assert_eq!(PressureType::Partial.as_str(), "some");
    assert_eq!(PressureType::Full.as_str(), "full");
}

#[test]
fn parses_full_line_with_total() {
    let d = PsiData::from_line("full avg10=85.0 avg60=80.0 avg300=60.0 total=123").unwrap();
    assert_eq!(d, PsiData { avg10: 8500, avg60: 8000, avg300: 6000, total: Some(123) });
}

#[test]
fn parses_line_without_total() {
    let d = PsiData::from_line("some avg10=0.22 avg60=0.17 avg300=1.11").unwrap();
    assert_eq!(d, PsiData { avg10: 22, avg60: 17, avg300: 111, total: None });
}

#[test]
fn parses_kernel_example_line() {
    let d = PsiData::from_line("some avg10=0.22 avg60=0.17 avg300=1.11 total=58761459").unwrap();
    assert_eq!(d.total, Some(58761459));
}

#[test]
fn averages_without_fraction_and_with_long_fraction() {
    let d = PsiData::from_line("full avg10=100 avg60=7 avg300=12.3456").unwrap();
    assert_eq!(d, PsiData { avg10: 10000, avg60: 700, avg300: 1234, total: None });
}

#[test]
fn words_after_the_fifth_are_not_read() {
    let d = PsiData::from_line("full avg10=1.00 avg60=2.00 avg300=3.00 total=4 extra").unwrap();
    assert_eq!(d.total, Some(4));
}

#[test]
fn malformed_lines_are_parse_errors() {
    let bad = [
        "",
        "full avg10=1.0 avg60=1.0",
        "most avg10=1.0 avg60=1.0 avg300=1.0",
        "full avg10=1.0 avg60=1.0 avg300=x",
        "full avg10=1.0 avg60=1.0 avg300=1.0 total=abc",
        "full avg10=1.0 avg60=1.0 avg300=1.0 sum=1",
        "full avg10=1.0=2 avg60=1.0 avg300=1.0",
        "full avg60=1.0 avg10=1.0 avg300=1.0",
        "full avg10=100.01 avg60=1.0 avg300=1.0",
        "full avg10=-1.0 avg60=1.0 avg300=1.0",
        "full avg10=1. avg60=1.0 avg300=1.0",
        "full avg10=.5 avg60=1.0 avg300=1.0",
    ];
    for line in bad {
        match PsiData::from_line(line) {
            Err(OomdError::Parse(_)) => {}
            other => panic!("{:?} gave {:?}", line, other),
        }
    }
}

#[test]
fn canonical_line_is_written_with_two_decimals() {
    let d = PsiData { avg10: 8500, avg60: 5, avg300: 10000, total: Some(0) };
    assert_eq!(d.to_line(PressureType::Full), "full avg10=85.00 avg60=0.05 avg300=100.00 total=0");
    let d = PsiData { avg10: 1, avg60: 123, avg300: 0, total: None };
    assert_eq!(d.to_line(PressureType::Partial), "some avg10=0.01 avg60=1.23 avg300=0.00");
}

#[test]
fn round_trip_gives_the_same_record() {
    let lines = [
        "full avg10=85.0 avg60=80.0 avg300=60.0 total=18446744073709551615",
        "some avg10=0.00 avg60=99.99 avg300=100 total=1",
        "some avg10=3.14159 avg60=2 avg300=0.5",
    ];
    for line in lines {
        let d = PsiData::from_line(line).unwrap();
        for kind in [PressureType::Partial, PressureType::Full] {
            let again = PsiData::from_line(&d.to_line(kind)).unwrap();
            assert_eq!(again, d);
        }
    }
}

#[test]
fn resource_pressure_keeps_its_range() {
    assert!(ResourcePressure::new(10000, 0, 5000, None).is_some());
    assert!(ResourcePressure::new(10001, 0, 0, None).is_none());
    assert!(ResourcePressure::new(0, 10001, 0, None).is_none());
    assert!(ResourcePressure::new(0, 0, 10001, Some(1)).is_none());
    let p = ResourcePressure::new(1, 2, 3, Some(4)).unwrap();
    assert_eq!((p.sec_10(), p.sec_60(), p.sec_300(), p.total()), (1, 2, 3, Some(4)));
}

#[test]
fn weighted_is_the_largest_of_the_three() {
    // max(85, 0.8 * 80, 0.6 * 60) = 85
    assert_eq!(ResourcePressure::new(8500, 8000, 6000, None).unwrap().weighted(), 85000);
    // max(10, 0.8 * 50, 0.6 * 20) = 40
    assert_eq!(ResourcePressure::new(1000, 5000, 2000, None).unwrap().weighted(), 40000);
    // max(0, 0.8 * 0.01, 0.6 * 100) = 60
    assert_eq!(ResourcePressure::new(0, 1, 10000, None).unwrap().weighted(), 60000);
    // 0.8 * 0.01 % = 0.008 %
    assert_eq!(ResourcePressure::new(0, 1, 0, None).unwrap().weighted(), 8);
    assert_eq!(ResourcePressure::new(10000, 10000, 10000, None).unwrap().weighted(), 100000);
}

#[test]
fn to_resource_pressure_caps_at_full_scale() {
    let d = PsiData { avg10: 20000, avg60: 8000, avg300: 10001, total: Some(9) };
    let p = d.to_resource_pressure();
    assert_eq!((p.sec_10(), p.sec_60(), p.sec_300(), p.total()), (10000, 8000, 10000, Some(9)));
}

#[test]
fn pressure_file_prefers_the_full_line() {
    let content = "some avg10=1.00 avg60=2.00 avg300=3.00 total=4\nfull avg10=5.00 avg60=6.00 avg300=7.00 total=8\n";
    let p = parse_pressure(content).unwrap();
    assert_eq!((p.sec_10(), p.sec_60(), p.sec_300(), p.total()), (500, 600, 700, Some(8)));
}

#[test]
fn pressure_file_falls_back_to_the_some_line() {
    let p = parse_pressure("some avg10=1.00 avg60=2.00 avg300=3.00 total=4\n").unwrap();
    assert_eq!((p.sec_10(), p.sec_60(), p.sec_300(), p.total()), (100, 200, 300, Some(4)));
}

#[test]
fn pressure_file_without_lines_is_unavailable() {
    assert!(matches!(parse_pressure(""), Err(OomdError::PressureUnavailable(_))));
    assert!(matches!(parse_pressure("other 1 2 3\n"), Err(OomdError::PressureUnavailable(_))));
}

#[test]
fn pressure_file_with_malformed_line_is_a_parse_error() {
    assert!(matches!(parse_pressure("full avg10=x avg60=1 avg300=1\n"), Err(OomdError::Parse(_))));
}

#[test]
fn system_pressure_reads_the_full_line_only() {
    let content = "some avg10=1.00 avg60=2.00 avg300=3.00 total=4\nfull avg10=5.00 avg60=6.00 avg300=7.00 total=8\n";
    let p = parse_system_pressure(content).unwrap();
    assert_eq!(p.sec_10(), 500);
    assert!(matches!(
        parse_system_pressure("some avg10=1.00 avg60=2.00 avg300=3.00 total=4\n"),
        Err(OomdError::PressureUnavailable(_))
    ));
}
