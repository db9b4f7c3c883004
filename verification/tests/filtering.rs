use bereal_export::args::TimeInterval;
use bereal_export::filter::filter_moments;
use bereal_export::parser::BerealMomentRecord;
use bereal_export::time::DateTime;

fn moment(caption: Option<&str>, h: u8) -> BerealMomentRecord {
    BerealMomentRecord {
        front_camera_path: "./Photos/front.webp".to_string(),
        back_camera_path: "./Photos/back.webp".to_string(),
        caption: caption.map(|c| c.to_string()),
        naive_time_taken: DateTime::new(2023, 5, 20, h, 0, 0, 0).unwrap(),
        late: false,
        song: None,
        behind_the_scenes: None,
    }
}

fn interval(from_h: u8, to_h: u8) -> TimeInterval {
    TimeInterval {
        from: DateTime::new(2023, 5, 20, from_h, 0, 0, 0).unwrap(),
        to: DateTime::new(2023, 5, 20, to_h, 0, 0, 0).unwrap(),
    }
}

#[test]
fn no_filters_keep_everything() {
    let moments = vec![moment(Some("a"), 8), moment(None, 9)];
    let out = filter_moments(moments, None, vec![]).unwrap();
    assert_eq!(out.len(), 2);
}

#[test]
fn caption_filter_matches_case_insensitively() {
    let moments = vec![
        moment(Some("Beach Day"), 8),
        moment(Some("lazy sunday"), 9),
        moment(None, 10),
    ];
    let out = filter_moments(moments, Some("BEACH".to_string()), vec![]).unwrap();
    assert_eq!(out.len(), 1);
    assert_eq!(out[0].caption.as_deref(), Some("Beach Day"));
}

#[test]
fn time_filter_keeps_moments_inside_any_interval() {
    let moments = vec![moment(None, 7), moment(None, 12), moment(None, 18)];
    let out = filter_moments(moments, None, vec![interval(11, 13), interval(17, 19)]).unwrap();
    assert_eq!(out.len(), 2);
    assert_eq!(out[0].naive_time_taken.hour, 12);
    assert_eq!(out[1].naive_time_taken.hour, 18);
}

#[test]
fn interval_bounds_are_inclusive() {
    let moments = vec![moment(None, 11), moment(None, 13)];
    let out = filter_moments(moments, None, vec![interval(11, 13)]).unwrap();
    assert_eq!(out.len(), 2);
}

#[test]
fn both_filters_must_pass() {
    let moments = vec![moment(Some("beach"), 7), moment(Some("beach"), 12), moment(Some("x"), 12)];
    let out =
        filter_moments(moments, Some("beach".to_string()), vec![interval(11, 13)]).unwrap();
    assert_eq!(out.len(), 1);
    assert_eq!(out[0].naive_time_taken.hour, 12);
}

#[test]
fn invalid_pattern_fails_the_call() {
    let err = filter_moments(vec![moment(None, 8)], Some("(".to_string()), vec![]).unwrap_err();
    assert!(err.starts_with("invalid regex: "));
}
