use bereal_export::args::ImageFormat;
use bereal_export::codec::{
    attach_metadata, convert_image_bytes, export_image_bytes, format_exif_datetime,
};
use bereal_export::export::{
    copy_target_path, image_target_extension, target_file_path, ExportJobGenerator,
    ExportJobSpec, ExportParameters, ImageMetadata,
};
use bereal_export::group::OutputMomentSpec;
use bereal_export::parser::BerealMomentRecord;
use bereal_export::time::DateTime;

fn sample_time() -> DateTime {
    DateTime::new(2024, 2, 10, 13, 51, 0, 0).unwrap()
}

fn jpeg_fixture() -> Vec<u8> {
    let img = image::DynamicImage::new_rgb8(2, 2);
    let mut buf = std::io::Cursor::new(Vec::new());
    img.write_to(&mut buf, image::ImageFormat::Jpeg).unwrap();
    buf.into_inner()
}

fn params(format: ImageFormat, prefix: &str, suffix: &str, disable: bool) -> ExportParameters {
    ExportParameters {
        input_path: "export".to_string(),
        image_format: format,
        desc_prefix: prefix.to_string(),
        desc_suffix: suffix.to_string(),
        disable_metadata: disable,
    }
}

fn moment(caption: Option<&str>) -> BerealMomentRecord {
    BerealMomentRecord {
        front_camera_path: "./Photos/front.webp".to_string(),
        back_camera_path: "./Photos/back.webp".to_string(),
        caption: caption.map(|c| c.to_string()),
        naive_time_taken: sample_time(),
        late: false,
        song: None,
        behind_the_scenes: None,
    }
}

#[test]
fn unchanged_format_is_a_byte_identical_copy() {
    // target_format "keep" must yield a byte-identical file under the
    // source's own extension
    let bytes = jpeg_fixture();
    let out = convert_image_bytes(bytes.clone(), &ImageFormat::Unchanged).unwrap();
    assert_eq!(out, bytes);
    assert_eq!(
        image_target_extension(&ImageFormat::Unchanged, "export/Photos/pic.webp"),
        "webp"
    );
    assert_eq!(image_target_extension(&ImageFormat::Unchanged, "export/Photos/pic"), "unknown");
    assert_eq!(image_target_extension(&ImageFormat::Jpeg, "export/pic.webp"), "jpeg");
    assert_eq!(image_target_extension(&ImageFormat::Jpg, "export/pic.webp"), "jpg");
    assert_eq!(image_target_extension(&ImageFormat::Png, "export/pic.webp"), "png");
}

#[test]
fn unchanged_format_with_metadata_keeps_container() {
    let bytes = jpeg_fixture();
    let meta = ImageMetadata { caption: Some("note".to_string()), time_taken: sample_time() };
    let out =
        export_image_bytes(bytes.clone(), &ImageFormat::Unchanged, Some(&meta), "o.jpeg").unwrap();
    assert_eq!(image::guess_format(&out).unwrap(), image::ImageFormat::Jpeg);
    assert_ne!(out, bytes); // the metadata rewrite really happened
}

#[test]
fn copy_without_extension_fails() {
    // a copy source with no extension cannot name its target: the job fails
    assert_eq!(copy_target_path("export/Photos/clip", "out/folder", "x_BTS"), None);
    assert_eq!(
        copy_target_path("export/Photos/clip.mp4", "out/folder", "x_BTS"),
        Some("out/folder/x_BTS.mp4".to_string())
    );
}

#[test]
fn target_paths_join_folder_name_and_extension() {
    assert_eq!(target_file_path("out/2024", "pic_camera_front", "png"), "out/2024/pic_camera_front.png");
    assert_eq!(target_file_path("", "pic", "jpg"), "pic.jpg");
}

#[test]
fn exif_datetime_is_zero_padded() {
    let t = DateTime::new(2021, 3, 4, 5, 6, 7, 0).unwrap();
    assert_eq!(format_exif_datetime(&t), "2021-03-04 05:06:07");
}

#[test]
fn png_conversion_carries_the_caption() {
    // one ImageConvert job targeting PNG, metadata enabled, non-empty
    // caption: the output decodes as PNG and its description tag holds the
    // configured caption exactly
    let p = params(ImageFormat::Png, "", "", false);
    let spec = OutputMomentSpec {
        folder: String::new(),
        file_name_prefix: "m0".to_string(),
        moment: moment(Some("hello world")),
    };
    let jobs = spec.get_export_jobs(&p);
    assert_eq!(jobs.len(), 2);
    let (format, metadata) = match &jobs[0] {
        ExportJobSpec::ImageConvert { output_format, metadata, .. } => (output_format, metadata),
        _ => panic!("expected an image conversion"),
    };
    let out =
        export_image_bytes(jpeg_fixture(), format, metadata.as_ref(), "m0_camera_front.png")
            .unwrap();
    assert_eq!(image::guess_format(&out).unwrap(), image::ImageFormat::Png);
    let decoded = image::load_from_memory(&out).unwrap();
    assert_eq!(decoded.width(), 2);
    let md = little_exif::metadata::Metadata::new_from_vec(
        &out,
        little_exif::filetype::FileExtension::PNG { as_zTXt_chunk: false },
    )
    .unwrap();
    let probe = little_exif::exif_tag::ExifTag::ImageDescription(String::new());
    let tag = md.get_tag(&probe).next().expect("description tag present");
    match tag {
        little_exif::exif_tag::ExifTag::ImageDescription(s) => assert_eq!(s, "hello world"),
        _ => panic!("wrong tag kind"),
    }
}

#[test]
fn empty_caption_attaches_no_description_tag() {
    // caption metadata is omitted when the concatenated
    // prefix+caption+suffix is empty, even though metadata is supplied
    let p = params(ImageFormat::Png, "pre ", " suf", false);
    let spec = OutputMomentSpec {
        folder: String::new(),
        file_name_prefix: "m0".to_string(),
        moment: moment(Some("")),
    };
    let jobs = spec.get_export_jobs(&p);
    let metadata = match &jobs[0] {
        ExportJobSpec::ImageConvert { metadata, .. } => metadata.clone(),
        _ => panic!("expected an image conversion"),
    };
    // the empty caption is kept empty: prefix and suffix are not applied
    assert_eq!(metadata.as_ref().unwrap().caption.as_deref(), Some(""));
    let out = attach_metadata(
        convert_image_bytes(jpeg_fixture(), &ImageFormat::Png).unwrap(),
        metadata.as_ref(),
        "m0.png",
    )
    .unwrap();
    let md = little_exif::metadata::Metadata::new_from_vec(
        &out,
        little_exif::filetype::FileExtension::PNG { as_zTXt_chunk: false },
    )
    .unwrap();
    let probe = little_exif::exif_tag::ExifTag::ImageDescription(String::new());
    assert!(md.get_tag(&probe).next().is_none());
    let dt_probe = little_exif::exif_tag::ExifTag::DateTimeOriginal(String::new());
    match md.get_tag(&dt_probe).next().expect("timestamp tag present") {
        little_exif::exif_tag::ExifTag::DateTimeOriginal(s) => {
            assert_eq!(s, "2024-02-10 13:51:00")
        },
        _ => panic!("wrong tag kind"),
    }
}

#[test]
fn caption_is_wrapped_in_prefix_and_suffix() {
    let p = params(ImageFormat::Unchanged, "[", "]", false);
    let spec = OutputMomentSpec {
        folder: String::new(),
        file_name_prefix: "m0".to_string(),
        moment: moment(Some("trip")),
    };
    let jobs = spec.get_export_jobs(&p);
    match &jobs[0] {
        ExportJobSpec::ImageConvert { metadata, .. } => {
            assert_eq!(metadata.as_ref().unwrap().caption.as_deref(), Some("[trip]"));
        },
        _ => panic!("expected an image conversion"),
    }
}

#[test]
fn disabling_metadata_drops_it_from_every_job() {
    let p = params(ImageFormat::Unchanged, "", "", true);
    let spec = OutputMomentSpec {
        folder: String::new(),
        file_name_prefix: "m0".to_string(),
        moment: moment(Some("trip")),
    };
    let jobs = spec.get_export_jobs(&p);
    for job in &jobs {
        match job {
            ExportJobSpec::ImageConvert { metadata, .. } => assert!(metadata.is_none()),
            ExportJobSpec::Copy { .. } => {},
        }
    }
}

#[test]
fn degenerate_containers_fail_the_metadata_step() {
    let meta = ImageMetadata { caption: Some("note".to_string()), time_taken: sample_time() };
    // a JPEG of only start and end markers parses to no segments and cannot
    // hold an EXIF segment: the job fails instead of aborting the batch
    let tiny_jpeg = vec![0xFFu8, 0xD8, 0xFF, 0xD9, 0x00];
    assert_eq!(
        attach_metadata(tiny_jpeg, Some(&meta), "t.jpg").unwrap_err(),
        "metadata not written to t.jpg"
    );
    // a PNG of only its signature parses to no chunks
    let tiny_png = vec![0x89u8, b'P', b'N', b'G', 0x0D, 0x0A, 0x1A, 0x0A];
    assert_eq!(
        attach_metadata(tiny_png, Some(&meta), "t.png").unwrap_err(),
        "metadata not written to t.png"
    );
    // a WebP with no bitstream chunk has no image size to build its extended
    // header from
    let tiny_webp = b"RIFF\x0C\x00\x00\x00WEBPXMP \x00\x00\x00\x00".to_vec();
    assert_eq!(
        attach_metadata(tiny_webp, Some(&meta), "t.webp").unwrap_err(),
        "metadata not written to t.webp"
    );
    // bytes of no known container are reported as carrying no image
    let no_container = vec![0xFFu8, 0xD8, 0xFF, 0xD9];
    assert_eq!(
        attach_metadata(no_container, Some(&meta), "t.bin").unwrap_err(),
        "No image at t.bin"
    );
}

#[test]
fn zero_sized_vp8_dimensions_fail_the_metadata_step() {
    let meta = ImageMetadata { caption: Some("note".to_string()), time_taken: sample_time() };
    // a WebP whose VP8 key-frame header declares a zero width has no usable
    // image size for the extended header: the job fails, the batch survives
    let vp8 = |w: u8| -> Vec<u8> {
        let mut f = b"RIFF\x16\x00\x00\x00WEBPVP8 \x0A\x00\x00\x00".to_vec();
        f.extend_from_slice(&[0x00, 0x00, 0x00, 0x9D, 0x01, 0x2A, w, 0x00, 0x01, 0x00]);
        f
    };
    assert_eq!(
        attach_metadata(vp8(0x00), Some(&meta), "t.webp").unwrap_err(),
        "metadata not written to t.webp"
    );
    // the same file with a one-pixel width passes the guard and is rewritten
    let out = attach_metadata(vp8(0x01), Some(&meta), "t.webp").unwrap();
    assert!(!out.is_empty());
}

#[test]
fn oversized_caption_fails_the_metadata_step() {
    // an EXIF block beyond what a JPEG segment's 16-bit length can carry
    // fails the job instead of aborting the batch
    let caption: String = std::iter::repeat('x').take(70000).collect();
    let meta = ImageMetadata { caption: Some(caption), time_taken: sample_time() };
    assert_eq!(
        attach_metadata(jpeg_fixture(), Some(&meta), "t.jpeg").unwrap_err(),
        "metadata not written to t.jpeg"
    );
}

#[test]
fn undecodable_bytes_fail_the_conversion() {
    let garbage = vec![1u8, 2, 3, 4];
    assert!(convert_image_bytes(garbage.clone(), &ImageFormat::Png).is_err());
    // but a plain keep-format job passes them through
    assert_eq!(convert_image_bytes(garbage.clone(), &ImageFormat::Unchanged).unwrap(), garbage);
    // attaching metadata to a non-container fails the job
    let meta = ImageMetadata { caption: None, time_taken: sample_time() };
    assert!(attach_metadata(garbage, Some(&meta), "t.png").is_err());
}
