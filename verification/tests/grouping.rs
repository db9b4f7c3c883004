use bereal_export::args::{MemoriesGrouping, RealmojiGrouping};
use bereal_export::export::{ExportJobGenerator, ExportJobSpec, ExportParameters};
use bereal_export::group::{
    group_moments, group_realmojis, translate_bereal_moment_to_name_prefix, OutputMomentSpec,
};
use bereal_export::parser::{BerealBTSData, BerealMomentRecord, BerealRealmojiRecord};
use bereal_export::time::DateTime;

fn moment_at(y: u32, mo: u8, d: u8, h: u8) -> BerealMomentRecord {
    BerealMomentRecord {
        front_camera_path: "./Photos/front.webp".to_string(),
        back_camera_path: "./Photos/back.webp".to_string(),
        caption: None,
        naive_time_taken: DateTime::new(y, mo, d, h, 30, 9, 0).unwrap(),
        late: false,
        song: None,
        behind_the_scenes: None,
    }
}

fn moji(path: &str, emoji: &str, instant: bool) -> BerealRealmojiRecord {
    BerealRealmojiRecord {
        image_path: path.to_string(),
        is_instant: instant,
        post_time: DateTime::new(2023, 7, 1, 10, 0, 0, 0).unwrap(),
        emoji: emoji.to_string(),
    }
}

#[test]
fn name_prefix_is_the_padded_capture_time() {
    let m = moment_at(2021, 3, 4, 5);
    assert_eq!(translate_bereal_moment_to_name_prefix(&m), "2021-03-04T05-30-09");
}

#[test]
fn memories_groupings_build_their_folders() {
    let moments = vec![moment_at(2021, 3, 4, 5), moment_at(2022, 11, 23, 6)];
    let folders = |g: MemoriesGrouping| {
        group_moments(&moments, g)
            .unwrap()
            .into_iter()
            .map(|s| s.folder)
            .collect::<Vec<_>>()
    };
    assert_eq!(folders(MemoriesGrouping::Ungrouped), vec!["", ""]);
    assert_eq!(folders(MemoriesGrouping::Year), vec!["2021", "2022"]);
    assert_eq!(folders(MemoriesGrouping::Month), vec!["2021/03", "2022/11"]);
    assert_eq!(folders(MemoriesGrouping::Day), vec!["2021/03/04", "2022/11/23"]);
    assert_eq!(folders(MemoriesGrouping::DayFlat), vec!["2021-03-04", "2022-11-23"]);
}

#[test]
fn grouping_keeps_every_moment_in_order() {
    let moments = vec![moment_at(2021, 3, 4, 5), moment_at(2021, 3, 4, 6)];
    let grouped = group_moments(&moments, MemoriesGrouping::Day).unwrap();
    assert_eq!(grouped.len(), 2);
    assert_eq!(grouped[0].moment.naive_time_taken, moments[0].naive_time_taken);
    assert_eq!(grouped[1].moment.naive_time_taken, moments[1].naive_time_taken);
}

#[test]
fn moment_jobs_cover_both_cameras_and_bts() {
    let mut m = moment_at(2021, 3, 4, 5);
    m.behind_the_scenes = Some(BerealBTSData::Video { path: "./Photos/bts.mp4".to_string() });
    let spec = OutputMomentSpec {
        folder: "2021".to_string(),
        file_name_prefix: "2021-03-04T05-30-09".to_string(),
        moment: m,
    };
    let p = ExportParameters {
        input_path: "export".to_string(),
        image_format: bereal_export::args::ImageFormat::Unchanged,
        desc_prefix: String::new(),
        desc_suffix: String::new(),
        disable_metadata: true,
    };
    let jobs = spec.get_export_jobs(&p);
    assert_eq!(jobs.len(), 3);
    match &jobs[0] {
        ExportJobSpec::ImageConvert { output_file_name, original_image_path, .. } => {
            assert_eq!(output_file_name, "2021-03-04T05-30-09_camera_front");
            assert_eq!(original_image_path, "export/./Photos/front.webp");
        },
        _ => panic!("expected an image conversion"),
    }
    match &jobs[1] {
        ExportJobSpec::ImageConvert { output_file_name, .. } => {
            assert_eq!(output_file_name, "2021-03-04T05-30-09_camera_back");
        },
        _ => panic!("expected an image conversion"),
    }
    match &jobs[2] {
        ExportJobSpec::Copy { output_file_name, original_path } => {
            assert_eq!(output_file_name, "2021-03-04T05-30-09_BTS");
            assert_eq!(original_path, "export/./Photos/bts.mp4");
        },
        _ => panic!("expected a copy"),
    }
    assert_eq!(spec.get_output_folder(&"out".to_string()), "out/2021");
}

#[test]
fn ungrouped_realmojis_deduplicate_by_image() {
    let mojis = vec![
        moji("./Photos/a.webp", "a", true),
        moji("./Photos/a.webp", "b", false),
        moji("./Photos/b.webp", "a", false),
    ];
    let out = group_realmojis(&mojis, RealmojiGrouping::Ungrouped).unwrap();
    assert_eq!(out.len(), 2);
    assert_eq!(out[0].file_name_prefix, "realmoji-0");
    assert_eq!(out[0].image_file, "./Photos/a.webp");
    assert_eq!(out[0].folder, "");
    assert_eq!(out[1].file_name_prefix, "realmoji-1");
    assert_eq!(out[1].image_file, "./Photos/b.webp");
}

#[test]
fn instant_grouping_separates_and_dedups_within_groups() {
    let mojis = vec![
        moji("./Photos/a.webp", "a", true),
        moji("./Photos/a.webp", "a", false),
        moji("./Photos/a.webp", "a", true),
    ];
    let out = group_realmojis(&mojis, RealmojiGrouping::Instant).unwrap();
    // the same image may appear once per group, the third one is a duplicate
    assert_eq!(out.len(), 2);
    assert_eq!(out[0].folder, "instant");
    assert_eq!(out[1].folder, "non-instant");
    assert_eq!(out[1].file_name_prefix, "realmoji-1");
}

#[test]
fn emoji_grouping_uses_unicode_names() {
    let mojis = vec![moji("./Photos/a.webp", "a", true), moji("./Photos/b.webp", "\u{1F602}", true)];
    let out = group_realmojis(&mojis, RealmojiGrouping::Emoji).unwrap();
    assert_eq!(out.len(), 2);
    assert_eq!(out[0].folder, "latin-small-letter-a");
    assert_eq!(out[1].folder, "face-with-tears-of-joy");
}
