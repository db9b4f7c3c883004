//! The byte-level work of one image job: re-encoding the image into the
//! target format and injecting caption/timestamp metadata. The image and
//! EXIF codecs of the outside crates do the byte work behind trusted
//! wrappers; everything around them — format resolution, the empty-caption
//! rule, failure propagation — is verified.

use vstd::prelude::*;
use crate::args::ImageFormat;
use crate::export::{ImageMetadata, MetadataModel};
use crate::text::{spec_padded_decimal, padded_decimal_string};
use crate::time::DateTime;

verus! {

/// What re-encoding `bytes` into PNG (`png == true`) or JPEG yields, or
/// nothing when the bytes do not decode as an image or the encoder fails.
pub uninterp spec fn transcoded_image(bytes: Seq<u8>, png: bool) -> Option<Seq<u8>>;

/// Relies on image::load_from_memory and DynamicImage::write_to: the format
/// is guessed from the bytes alone and written to an in-memory buffer, so the
/// outcome is a function of the bytes and the target format.
#[verifier::external_body]
fn transcode_image(bytes: &Vec<u8>, png: bool) -> (r: Result<Vec<u8>, String>)
    ensures
        r is Ok <==> transcoded_image(bytes@, png) is Some,
        r is Ok ==> r->Ok_0@ == transcoded_image(bytes@, png)->Some_0,
{
    let format = if png {
        image::ImageFormat::Png
    } else {
        image::ImageFormat::Jpeg
    };
    let img = image::load_from_memory(bytes).map_err(|e| e.to_string())?;
    let mut out = std::io::Cursor::new(Vec::new());
    img.write_to(&mut out, format).map_err(|e| e.to_string())?;
    Ok(out.into_inner())
}

/// What little_exif encodes for an ImageDescription tag (when a caption is
/// given) and a DateTimeOriginal tag, or nothing when encoding fails.
pub uninterp spec fn exif_block(caption: Option<Seq<char>>, datetime: Seq<char>) -> Option<Seq<u8>>;

/// Relies on little_exif's Metadata::new, Metadata::set_tag and
/// Metadata::encode: a fresh tag set holding the given ImageDescription (if
/// any) and DateTimeOriginal encodes to a block that is a function of those
/// texts alone.
#[verifier::external_body]
fn encode_exif_block(caption: Option<&String>, datetime: &String) -> (r: Result<Vec<u8>, String>)
    ensures
        r is Ok <==> exif_block(
            match caption {
                Some(c) => Some(c@),
                None => None,
            },
            datetime@,
        ) is Some,
        r is Ok ==> r->Ok_0@ == exif_block(
            match caption {
                Some(c) => Some(c@),
                None => None,
            },
            datetime@,
        )->Some_0,
{
    let mut metadata = little_exif::metadata::Metadata::new();
    if let Some(c) = caption {
        metadata.set_tag(little_exif::exif_tag::ExifTag::ImageDescription(c.clone()));
    }
    metadata.set_tag(little_exif::exif_tag::ExifTag::DateTimeOriginal(datetime.clone()));
    metadata.encode().map_err(|e| e.to_string())
}

/// The largest EXIF block a rewritten container can carry: a JPEG stores the
/// block in one segment whose length field is 16 bits and also covers the
/// two length bytes and the six-byte block prefix.
pub const MAX_EXIF_BLOCK_LEN: usize = 65527;

/// The largest container the rewrite accepts: a RIFF (WebP) container states
/// its total size in a 32-bit field, so the input must leave room for that
/// field to take the added block and header.
pub const MAX_CONTAINER_LEN: usize = 0xFFFE0000;

/// The shape of a parsed image container, as far as attaching an EXIF block
/// is concerned: the kind the codec recognised, and the pieces of it that
/// decide whether the codec can rewrite it.
#[derive(Clone, Copy, Debug, PartialEq, Eq, Structural)]
pub enum ContainerShape {
    /// bytes that do not parse as a known container
    Unparsed,
    /// a JPEG, with its segment count once existing EXIF segments are removed
    Jpeg { segments: usize },
    /// a PNG, with its chunk count once existing EXIF chunks are removed
    Png { chunks: usize },
    /// a WebP: whether it already has an extended (VP8X) header chunk, and
    /// whether it carries a colour-profile (ICCP) chunk
    WebP { has_vp8x: bool, has_iccp: bool },
}

/// The shape of the container parsed from the bytes, as img-parts reads it.
pub uninterp spec fn container_shape(bytes: Seq<u8>) -> ContainerShape;

/// The bitstream chunk of a WebP container: the VP8 chunk's data (`false`),
/// or — only when there is no VP8 chunk — the VP8L chunk's data (`true`);
/// nothing for other containers or a WebP with neither chunk.
pub uninterp spec fn webp_bitstream_of(bytes: Seq<u8>) -> Option<(bool, Seq<u8>)>;

/// Relies on img-parts' DynImage::from_bytes, the removal half of set_exif,
/// Jpeg::segments, Png::chunks and WebP::has_chunk: the parsed shape is a
/// function of the bytes alone.
#[verifier::external_body]
fn probe_container(bytes: &Vec<u8>) -> (r: ContainerShape)
    ensures
        r == container_shape(bytes@),
{
    match img_parts::DynImage::from_bytes(img_parts::Bytes::from(bytes.clone())) {
        Ok(Some(img_parts::DynImage::Jpeg(mut j))) => {
            img_parts::ImageEXIF::set_exif(&mut j, None);
            ContainerShape::Jpeg { segments: j.segments().len() }
        },
        Ok(Some(img_parts::DynImage::Png(mut p))) => {
            img_parts::ImageEXIF::set_exif(&mut p, None);
            ContainerShape::Png { chunks: p.chunks().len() }
        },
        Ok(Some(img_parts::DynImage::WebP(w))) => ContainerShape::WebP {
            has_vp8x: w.has_chunk(img_parts::webp::CHUNK_VP8X), has_iccp: w.has_chunk(img_parts::webp::CHUNK_ICCP) },
        _ => ContainerShape::Unparsed,
    }
}

/// Relies on img-parts' WebP::chunk_by_id and RiffContent::data: the
/// bitstream chunk of a WebP is a function of the bytes alone.
#[verifier::external_body]
fn webp_bitstream(bytes: &Vec<u8>) -> (r: Option<(bool, Vec<u8>)>)
    ensures
        r is Some <==> webp_bitstream_of(bytes@) is Some,
        r matches Some(p) ==> webp_bitstream_of(bytes@) matches Some(q) && q.0 == p.0 && q.1
            == p.1@,
{
    let w = match img_parts::DynImage::from_bytes(img_parts::Bytes::from(bytes.clone())) {
        Ok(Some(img_parts::DynImage::WebP(w))) => w,
        _ => return None,
    };
    match w.chunk_by_id(img_parts::webp::CHUNK_VP8) {
        Some(c) => c.content().data().map(|d| (false, d.to_vec())),
        None => match w.chunk_by_id(img_parts::webp::CHUNK_VP8L) {
            Some(c) => c.content().data().map(|d| (true, d.to_vec())),
            None => None,
        },
    }
}

/// Whether a VP8 bitstream chunk starts with a usable key-frame header: at
/// least ten bytes, the key-frame bit clear, the frame magic in place — the
/// checks the codec's own size reader makes before indexing — and nonzero
/// 14-bit width and height fields, since the extended header the codec then
/// builds subtracts one from each dimension.
pub open spec fn spec_vp8_key_header(d: Seq<u8>) -> bool {
    &&& d.len() >= 10
    &&& d[0] % 2 == 0
    &&& d[3] == 0x9d && d[4] == 0x01 && d[5] == 0x2a
    &&& (d[6] as int + 256 * (d[7] as int)) % 0x4000 != 0
    &&& (d[8] as int + 256 * (d[9] as int)) % 0x4000 != 0
}

/// Whether a WebP's bitstream lets the codec derive the extended header it
/// must build: a readable VP8 key-frame header, or a VP8L chunk of at least
/// five bytes (its size prefix).
pub open spec fn spec_bitstream_ok(bits: Option<(bool, Seq<u8>)>) -> bool {
    match bits {
        Some((lossless, d)) => if lossless {
            d.len() >= 5
        } else {
            spec_vp8_key_header(d)
        },
        None => false,
    }
}

/// Whether the codec can rewrite a container's EXIF block without refusing:
/// a JPEG needs three segments to hold the block behind (the codec files it
/// as the fourth), a PNG needs its closing chunk to insert before, and a
/// WebP changing to an extended header needs a readable bitstream to take
/// the image size from. Removing a block (`adding` false) is harmless except
/// for a WebP whose colour profile forces the same header change. Bytes that
/// parse as no container are never rewritten, so they are trivially safe.
pub open spec fn spec_container_safe(
    shape: ContainerShape,
    bits: Option<(bool, Seq<u8>)>,
    adding: bool,
) -> bool {
    match shape {
        ContainerShape::Unparsed => true,
        ContainerShape::Jpeg { segments } => !adding || segments >= 3,
        ContainerShape::Png { chunks } => !adding || chunks >= 1,
        ContainerShape::WebP { has_vp8x, has_iccp } => has_vp8x || spec_bitstream_ok(bits) || (
        !adding && !has_iccp),
    }
}

/// Decide `spec_container_safe` from the probed shape and bitstream.
fn container_safe(shape: &ContainerShape, bits: &Option<(bool, Vec<u8>)>, adding: bool) -> (r:
    bool)
    ensures
        r == spec_container_safe(
            *shape,
            match bits {
                Some(p) => Some((p.0, p.1@)),
                None => None,
            },
            adding,
        ),
{
    match shape {
        ContainerShape::Unparsed => true,
        ContainerShape::Jpeg { segments } => !adding || *segments >= 3,
        ContainerShape::Png { chunks } => !adding || *chunks >= 1,
        ContainerShape::WebP { has_vp8x, has_iccp } => {
            let bits_ok = match bits {
                Some((lossless, d)) => {
                    if *lossless {
                        d.len() >= 5
                    } else {
                        d.len() >= 10 && d[0] % 2 == 0 && d[3] == 0x9d && d[4] == 0x01 && d[5]
                            == 0x2a && (d[6] as u32 + 256 * (d[7] as u32)) % 0x4000 != 0 && (
                        d[8] as u32 + 256 * (d[9] as u32)) % 0x4000 != 0
                    }
                },
                None => false,
            };
            *has_vp8x || bits_ok || (!adding && !*has_iccp)
        },
    }
}

/// What img-parts produces for image bytes with their EXIF block replaced:
/// `None` when the bytes are a corrupt container, `Some(None)` when the
/// container format is not recognised, and otherwise the rewritten bytes.
pub uninterp spec fn container_with_exif(bytes: Seq<u8>, exif: Option<Seq<u8>>) -> Option<
    Option<Seq<u8>>,
>;

/// Relies on img-parts' DynImage::from_bytes, set_exif and
/// ImageEncoder::bytes: parsing recognises the container from the bytes
/// alone, set_exif replaces the EXIF block, and encoding writes the container
/// back out, all functions of the bytes and the block. The codec refuses some
/// rewrites instead of reporting them — a JPEG too short of segments, a WebP
/// whose extended header it cannot derive, a block over a JPEG segment's
/// 16-bit length, a container at the RIFF size field's limit — so those
/// inputs are excluded here and callers must test `spec_container_safe` and
/// the two size bounds first.
#[verifier::external_body]
fn rewrite_container_exif(bytes: Vec<u8>, exif: Option<Vec<u8>>) -> (r: Result<
    Option<Vec<u8>>,
    String,
>)
    requires
        bytes@.len() <= MAX_CONTAINER_LEN,
        spec_container_safe(container_shape(bytes@), webp_bitstream_of(bytes@), exif is Some),
        exif matches Some(e) ==> e@.len() <= MAX_EXIF_BLOCK_LEN,
    ensures
        r is Err <==> container_with_exif(
            bytes@,
            match exif {
                Some(e) => Some(e@),
                None => None,
            },
        ) is None,
        r matches Ok(inner) ==> ({
            let c = container_with_exif(
                bytes@,
                match exif {
                    Some(e) => Some(e@),
                    None => None,
                },
            );
            &&& c is Some
            &&& (inner is Some <==> c->Some_0 is Some)
            &&& (inner is Some ==> inner->Some_0@ == c->Some_0->Some_0)
        }),
{
    let img = img_parts::DynImage::from_bytes(img_parts::Bytes::from(bytes));
    let mut img = match img {
        Ok(Some(i)) => i,
        Ok(None) => {
            return Ok(None);
        },
        Err(e) => {
            return Err(e.to_string());
        },
    };
    img_parts::ImageEXIF::set_exif(&mut img, exif.map(img_parts::Bytes::from));
    Ok(Some(img.encoder().bytes().to_vec()))
}

/// The EXIF DateTimeOriginal text for a capture time:
/// `YYYY-MM-DD HH:MM:SS`.
pub open spec fn spec_exif_datetime(t: DateTime) -> Seq<char> {
    spec_padded_decimal(t.year as int, 4) + "-"@ + spec_padded_decimal(t.month as int, 2) + "-"@
        + spec_padded_decimal(t.day as int, 2) + " "@ + spec_padded_decimal(t.hour as int, 2)
        + ":"@ + spec_padded_decimal(t.minute as int, 2) + ":"@ + spec_padded_decimal(
        t.second as int,
        2,
    )
}

/// Format a capture time as the EXIF DateTimeOriginal text.
pub fn format_exif_datetime(t: &DateTime) -> (r: String)
    ensures
        r@ == spec_exif_datetime(*t),
{
    let mut out = padded_decimal_string(t.year as u64, 4);
    out.append("-");
    let part = padded_decimal_string(t.month as u64, 2);
    out.append(part.as_str());
    out.append("-");
    let part = padded_decimal_string(t.day as u64, 2);
    out.append(part.as_str());
    out.append(" ");
    let part = padded_decimal_string(t.hour as u64, 2);
    out.append(part.as_str());
    out.append(":");
    let part = padded_decimal_string(t.minute as u64, 2);
    out.append(part.as_str());
    out.append(":");
    let part = padded_decimal_string(t.second as u64, 2);
    out.append(part.as_str());
    out
}

/// The caption tag actually attached for a metadata record: nothing when
/// there is no caption or the caption text is empty.
pub open spec fn spec_caption_tag(m: MetadataModel) -> Option<Seq<char>> {
    match m.caption {
        Some(c) => if c.len() > 0 {
            Some(c)
        } else {
            None
        },
        None => None,
    }
}

/// A caption that is empty after prefix/suffix wrapping attaches no caption
/// tag, even when metadata is supplied and enabled.
pub proof fn lemma_empty_caption_omitted(
    caption: Seq<char>,
    prefix: Seq<char>,
    suffix: Seq<char>,
    t: DateTime,
)
    requires
        crate::export::spec_effective_caption(caption, prefix, suffix).len() == 0,
    ensures
        spec_caption_tag(
            MetadataModel {
                caption: Some(crate::export::spec_effective_caption(caption, prefix, suffix)),
                time_taken: t,
            },
        ) is None,
{
}

/// The EXIF block a metadata record encodes to: the caption tag (omitted
/// when the caption is empty) and the capture time; nothing when the encoder
/// fails.
pub open spec fn spec_meta_block(m: MetadataModel) -> Option<Seq<u8>> {
    exif_block(spec_caption_tag(m), spec_exif_datetime(m.time_taken))
}

/// Whether the metadata rewrite must be refused up front: the container is
/// over the RIFF size limit, the codec cannot rewrite its shape, or the
/// encoded block is over the JPEG segment limit.
pub open spec fn spec_meta_guard_failed(bytes: Seq<u8>, m: MetadataModel) -> bool {
    let block = spec_meta_block(m);
    ||| bytes.len() > MAX_CONTAINER_LEN
    ||| !spec_container_safe(container_shape(bytes), webp_bitstream_of(bytes), block is Some)
    ||| (block matches Some(b) && b.len() > MAX_EXIF_BLOCK_LEN)
}

/// What attaching metadata to written image bytes yields.
///
/// With no metadata the bytes stay untouched. Otherwise the EXIF block for
/// the caption (omitted when empty) and the capture time is encoded — an
/// encoder failure degrades to attaching no block, as the metadata rewrite
/// itself must still happen — and the container is rewritten with it. A
/// container the codec would refuse (`spec_meta_guard_failed`), a corrupt or
/// unrecognised container, or an empty rewrite, is a failure.
pub open spec fn spec_attach_metadata(bytes: Seq<u8>, meta: Option<MetadataModel>) -> Option<
    Seq<u8>,
> {
    match meta {
        None => Some(bytes),
        Some(m) => {
            if spec_meta_guard_failed(bytes, m) {
                None
            } else {
                match container_with_exif(bytes, spec_meta_block(m)) {
                    Some(Some(out)) => if out.len() > 0 {
                        Some(out)
                    } else {
                        None
                    },
                    _ => None,
                }
            }
        },
    }
}

/// Attach caption and capture-time metadata to written image bytes; `path`
/// only names the target in error reports. A refused rewrite or an empty
/// rewrite reports "metadata not written to" the target, an unrecognised
/// container "No image at" it; a corrupt container carries the codec's own
/// words.
pub fn attach_metadata(bytes: Vec<u8>, meta: Option<&ImageMetadata>, path: &str) -> (r: Result<
    Vec<u8>,
    String,
>)
    ensures
        r is Ok <==> spec_attach_metadata(
            bytes@,
            match meta {
                Some(m) => Some(m@),
                None => None,
            },
        ) is Some,
        r is Ok ==> r->Ok_0@ == spec_attach_metadata(
            bytes@,
            match meta {
                Some(m) => Some(m@),
                None => None,
            },
        )->Some_0,
        meta is None ==> r == Ok::<Vec<u8>, String>(bytes),
        (match meta {
            Some(m) => spec_meta_guard_failed(bytes@, m@),
            None => false,
        }) ==> ({
            &&& r matches Err(e)
            &&& e@ == "metadata not written to "@ + path@
        }),
        (match meta {
            Some(m) => !spec_meta_guard_failed(bytes@, m@) && container_with_exif(
                bytes@,
                spec_meta_block(m@),
            ) == Some(Option::<Seq<u8>>::None),
            None => false,
        }) ==> ({
            &&& r matches Err(e)
            &&& e@ == "No image at "@ + path@
        }),
        (match meta {
            Some(m) => !spec_meta_guard_failed(bytes@, m@) && (match container_with_exif(
                bytes@,
                spec_meta_block(m@),
            ) {
                Some(Some(out)) => out.len() == 0,
                _ => false,
            }),
            None => false,
        }) ==> ({
            &&& r matches Err(e)
            &&& e@ == "metadata not written to "@ + path@
        }),
{
    let m = match meta {
        Some(m) => m,
        None => {
            return Ok(bytes);
        },
    };
    let caption: Option<&String> = match &m.caption {
        Some(c) => if c.as_str().unicode_len() > 0 {
            Some(c)
        } else {
            None
        },
        None => None,
    };
    let datetime = format_exif_datetime(&m.time_taken);
    let block = match encode_exif_block(caption, &datetime) {
        Ok(b) => Some(b),
        Err(_) => None,
    };
    proof {
        assert((match block {
            Some(b) => Some(b@),
            None => None,
        }) == spec_meta_block(m@));
    }
    let adding = match &block {
        Some(_) => true,
        None => false,
    };
    let shape = probe_container(&bytes);
    let bits = webp_bitstream(&bytes);
    let block_too_big = match &block {
        Some(b) => b.len() > MAX_EXIF_BLOCK_LEN,
        None => false,
    };
    if bytes.len() > MAX_CONTAINER_LEN || !container_safe(&shape, &bits, adding) || block_too_big {
        let mut e = "metadata not written to ".to_owned();
        e.append(path);
        return Err(e);
    }
    let rewritten = match rewrite_container_exif(bytes, block) {
        Ok(Some(out)) => out,
        Ok(None) => {
            let mut e = "No image at ".to_owned();
            e.append(path);
            return Err(e);
        },
        Err(e) => {
            return Err(e);
        },
    };
    if rewritten.len() == 0 {
        let mut e = "metadata not written to ".to_owned();
        e.append(path);
        Err(e)
    } else {
        Ok(rewritten)
    }
}

/// What converting source bytes into the requested image format yields: the
/// bytes unchanged when no conversion is requested, otherwise the
/// re-encoding.
pub open spec fn spec_convert_image(bytes: Seq<u8>, format: ImageFormat) -> Option<Seq<u8>> {
    match format {
        ImageFormat::Unchanged => Some(bytes),
        ImageFormat::Png => transcoded_image(bytes, true),
        _ => transcoded_image(bytes, false),
    }
}

/// Convert source bytes into the requested image format. Requesting no
/// conversion returns the source bytes byte-for-byte.
pub fn convert_image_bytes(bytes: Vec<u8>, format: &ImageFormat) -> (r: Result<Vec<u8>, String>)
    ensures
        r is Ok <==> spec_convert_image(bytes@, *format) is Some,
        r is Ok ==> r->Ok_0@ == spec_convert_image(bytes@, *format)->Some_0,
        *format is Unchanged ==> r == Ok::<Vec<u8>, String>(bytes),
{
    match format {
        ImageFormat::Unchanged => Ok(bytes),
        ImageFormat::Png => transcode_image(&bytes, true),
        ImageFormat::Jpeg => transcode_image(&bytes, false),
        ImageFormat::Jpg => transcode_image(&bytes, false),
    }
}

/// What one image job does to the source bytes: convert to the target
/// format, then attach metadata.
pub open spec fn spec_export_image_bytes(
    bytes: Seq<u8>,
    format: ImageFormat,
    meta: Option<MetadataModel>,
) -> Option<Seq<u8>> {
    match spec_convert_image(bytes, format) {
        Some(converted) => spec_attach_metadata(converted, meta),
        None => None,
    }
}

/// Run the byte-level work of one image job: re-encode the source bytes into
/// the target format (or keep them as they are), then attach metadata. The
/// surrounding application reads the source file and writes the result to
/// `target_path`, which here only names the target in error reports.
pub fn export_image_bytes(
    bytes: Vec<u8>,
    format: &ImageFormat,
    meta: Option<&ImageMetadata>,
    target_path: &str,
) -> (r: Result<Vec<u8>, String>)
    ensures
        r is Ok <==> spec_export_image_bytes(
            bytes@,
            *format,
            match meta {
                Some(m) => Some(m@),
                None => None,
            },
        ) is Some,
        r is Ok ==> r->Ok_0@ == spec_export_image_bytes(
            bytes@,
            *format,
            match meta {
                Some(m) => Some(m@),
                None => None,
            },
        )->Some_0,
        *format is Unchanged && meta is None ==> r == Ok::<Vec<u8>, String>(bytes),
{
    let converted = match convert_image_bytes(bytes, format) {
        Ok(c) => c,
        Err(e) => {
            return Err(e);
        },
    };
    attach_metadata(converted, meta, target_path)
}

} // verus!
