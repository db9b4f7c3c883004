use bereal_export::parser::parser_v0::{
    bereal_path_sanitize_to_pathbuf, moment_from_parts, realmoji_from_parts,
    strip_bereal_id_from_path, MediaEntry, ParserV0,
};
use bereal_export::parser::{check_vesion_panic, BerealBTSData, BerealSongData, PARSER_COUNT};
use bereal_export::time::DateTime;

fn sample_time() -> DateTime {
    DateTime::new(2024, 7, 22, 9, 11, 5, 339).unwrap()
}

#[test]
fn strips_the_user_id_segment() {
    assert_eq!(
        strip_bereal_id_from_path("Photos/abc123XY/img.webp"),
        Some("./Photos/img.webp".to_string())
    );
    assert_eq!(
        strip_bereal_id_from_path("/Photos/abc/deep/tree/img.webp"),
        Some(".//Photos/deep/tree/img.webp".to_string())
    );
}

#[test]
fn rejects_paths_of_other_shapes() {
    assert_eq!(strip_bereal_id_from_path("Elsewhere/abc/img.webp"), None);
    assert_eq!(strip_bereal_id_from_path("Photos//img.webp"), None);
    assert_eq!(strip_bereal_id_from_path("Photos/ab-cd/img.webp"), None);
    assert_eq!(strip_bereal_id_from_path("Photos/abc"), None);
    assert_eq!(strip_bereal_id_from_path(""), None);
    assert_eq!(
        bereal_path_sanitize_to_pathbuf("nope").unwrap_err(),
        "BeReal path not recognised! nope"
    );
}

#[test]
fn moment_needs_images_on_both_cameras() {
    let front = MediaEntry::Image { path: "Photos/id1/front.webp".to_string() };
    let back = MediaEntry::Image { path: "Photos/id1/back.webp".to_string() };
    let bts = MediaEntry::Video { path: "Photos/id1/bts.mp4".to_string() };
    let m = moment_from_parts(
        &front,
        &back,
        Some(&bts),
        Some("cap".to_string()),
        Some(BerealSongData::Spotify { spotify_song_id: "s1".to_string() }),
        sample_time(),
        true,
    )
    .unwrap();
    assert_eq!(m.front_camera_path, "./Photos/front.webp");
    assert_eq!(m.back_camera_path, "./Photos/back.webp");
    assert_eq!(m.caption.as_deref(), Some("cap"));
    assert!(m.late);
    match &m.behind_the_scenes {
        Some(BerealBTSData::Video { path }) => assert_eq!(path, "./Photos/bts.mp4"),
        None => panic!("behind-the-scenes video lost"),
    }

    let video_front = MediaEntry::Video { path: "Photos/id1/front.mp4".to_string() };
    let err = moment_from_parts(&video_front, &back, None, None, None, sample_time(), false)
        .unwrap_err();
    assert_eq!(err, "Invalid media type for front image!");
    let err = moment_from_parts(&front, &video_front, None, None, None, sample_time(), false)
        .unwrap_err();
    assert_eq!(err, "Invalid media type for back image!");
}

#[test]
fn moment_drops_an_unrecognised_bts_path() {
    let front = MediaEntry::Image { path: "Photos/id1/front.webp".to_string() };
    let back = MediaEntry::Image { path: "Photos/id1/back.webp".to_string() };
    let bts = MediaEntry::Video { path: "oddly/shaped.mp4".to_string() };
    let m = moment_from_parts(&front, &back, Some(&bts), None, None, sample_time(), false)
        .unwrap();
    assert!(m.behind_the_scenes.is_none());
}

#[test]
fn realmoji_needs_an_emoji_and_keeps_its_first_character() {
    let r = realmoji_from_parts("Photos/id1/mo.webp", "ab", true, sample_time()).unwrap();
    assert_eq!(r.emoji, "a");
    assert_eq!(r.image_path, "./Photos/mo.webp");
    assert!(r.is_instant);
    assert_eq!(
        realmoji_from_parts("Photos/id1/mo.webp", "", true, sample_time()).unwrap_err(),
        "Realmoji has no emoji association"
    );
}

#[test]
fn parser_paths_are_relative_to_the_export_root() {
    let p = ParserV0::new("export".to_string());
    assert_eq!(p.relative_path("memories.json"), "export/memories.json");
    let q = ParserV0::new(String::new());
    assert_eq!(q.relative_path("user.json"), "user.json");
    assert_eq!(PARSER_COUNT, 1);
    check_vesion_panic(0);
}
