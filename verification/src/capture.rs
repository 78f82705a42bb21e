//! The capture pipeline: one clipboard snapshot in, at most one normalized
//! entry out.  Formats are probed in a fixed priority order — plain text,
//! raster image, file list, markup — and only the first offered format is
//! captured.  Raster re-encoding and thumbnailing rely on the image crate;
//! everything around those two calls is verified.

use vstd::prelude::*;
use crate::model::ClipboardItem;
use crate::model::ClipboardContent;
use crate::model::ContentModel;
use crate::model::ImageData;
use crate::model::ImageFormat;
use crate::model::FileItem;
use crate::model::FileModel;
use crate::model::assemble_item;
use crate::model::valid_item;
use crate::settings::AppSettings;

verus! {

#[derive(Clone, Copy, Debug, PartialEq, Eq, Structural)]
pub enum CaptureError {
    NoSupportedFormat,
    ImageDecode,
}

/// A raw raster payload as the platform hands it over: RGBA, 8 bits per
/// channel, row-major.
#[derive(Debug)]
pub struct RawImage {
    pub pixels: Vec<u8>,
    pub width: u32,
    pub height: u32,
}

pub ghost struct RawImageModel {
    pub pixels: Seq<u8>,
    pub width: u32,
    pub height: u32,
}

impl View for RawImage {
    type V = RawImageModel;

    open spec fn view(&self) -> RawImageModel {
        RawImageModel { pixels: self.pixels@, width: self.width, height: self.height }
    }
}

/// One snapshot of what the clipboard offers, one slot per supported
/// format.
#[derive(Debug)]
pub struct RawSnapshot {
    pub text: Option<String>,
    pub image: Option<RawImage>,
    pub files: Option<Vec<FileItem>>,
    pub html: Option<String>,
}

pub ghost struct SnapshotModel {
    pub text: Option<Seq<char>>,
    pub image: Option<RawImageModel>,
    pub files: Option<Seq<FileModel>>,
    pub html: Option<Seq<char>>,
}

impl View for RawSnapshot {
    type V = SnapshotModel;

    open spec fn view(&self) -> SnapshotModel {
        SnapshotModel {
            text: match self.text {
                Some(t) => Some(t@),
                None => None,
            },
            image: match self.image {
                Some(i) => Some(i@),
                None => None,
            },
            files: match self.files {
                Some(f) => Some(f.deep_view()),
                None => None,
            },
            html: match self.html {
                Some(h) => Some(h@),
                None => None,
            },
        }
    }
}

/// What the PNG encoder returns on this pixel buffer — the bytes on
/// success, nothing on an encoder error — a function of the pixels and
/// dimensions alone.
pub uninterp spec fn png_result(pixels: Seq<u8>, width: u32, height: u32) -> Option<Seq<u8>>;

/// What thumbnailing into a `box_w` by `box_h` box and PNG-encoding
/// returns: a function of the pixels, the dimensions and the box alone.
pub uninterp spec fn thumb_result(
    pixels: Seq<u8>,
    width: u32,
    height: u32,
    box_w: u32,
    box_h: u32,
) -> Option<Seq<u8>>;

/// Relies on `image::ImageBuffer::from_raw` and `ImageBuffer::write_to`:
/// re-encodes an RGBA pixel buffer of the stated dimensions as PNG.
#[verifier::external_body]
fn encode_rgba_png(pixels: &Vec<u8>, width: u32, height: u32) -> (r: Option<Vec<u8>>)
    requires
        pixels@.len() == width * height * 4,
    ensures
        r is Some <==> png_result(pixels@, width, height) is Some,
        r is Some ==> Some(r->0@) == png_result(pixels@, width, height),
{
    let buf: image::ImageBuffer<image::Rgba<u8>, Vec<u8>> = image::ImageBuffer::from_raw(
        width,
        height,
        pixels.clone(),
    )?;
    let mut out: Vec<u8> = Vec::new();
    match buf.write_to(&mut std::io::Cursor::new(&mut out), image::ImageFormat::Png) {
        Ok(()) => Some(out),
        Err(_) => None,
    }
}

/// Relies on `image::ImageBuffer::from_raw`, `image::imageops::thumbnail`
/// and `ImageBuffer::write_to`: renders a thumbnail of the buffer into the
/// given box and encodes it as PNG.
#[verifier::external_body]
fn thumbnail_rgba_png(pixels: &Vec<u8>, width: u32, height: u32, box_w: u32, box_h: u32) -> (r:
    Option<Vec<u8>>)
    requires
        pixels@.len() == width * height * 4,
    ensures
        r is Some <==> thumb_result(pixels@, width, height, box_w, box_h) is Some,
        r is Some ==> Some(r->0@) == thumb_result(pixels@, width, height, box_w, box_h),
{
    let buf: image::ImageBuffer<image::Rgba<u8>, Vec<u8>> = image::ImageBuffer::from_raw(
        width,
        height,
        pixels.clone(),
    )?;
    let th = image::imageops::thumbnail(&buf, box_w, box_h);
    let mut out: Vec<u8> = Vec::new();
    match th.write_to(&mut std::io::Cursor::new(&mut out), image::ImageFormat::Png) {
        Ok(()) => Some(out),
        Err(_) => None,
    }
}

/// The content and preview image a successful capture of this snapshot
/// must carry, given the image-compression setting.
pub open spec fn capture_ok(
    s: SnapshotModel,
    compress: bool,
    content: ContentModel,
    preview_image: Option<Seq<u8>>,
) -> bool {
    if s.text is Some {
        content == ContentModel::Text(s.text->0) && preview_image is None
    } else if s.image is Some {
        let img = s.image->0;
        match content {
            ContentModel::Image(d) => {
                &&& Some(d.data) == png_result(img.pixels, img.width, img.height)
                &&& d.width == img.width
                &&& d.height == img.height
                &&& d.format == ImageFormat::Png
                &&& (compress ==> Some(d.thumbnail) == thumb_result(
                    img.pixels,
                    img.width,
                    img.height,
                    128,
                    128,
                ) && preview_image == Some(d.thumbnail))
                &&& (!compress ==> d.thumbnail.len() == 0 && preview_image is None)
            },
            _ => false,
        }
    } else if s.files is Some {
        content == ContentModel::FileList(s.files->0) && preview_image is None
    } else if s.html is Some {
        content == ContentModel::Html(s.html->0) && preview_image is None
    } else {
        false
    }
}

pub open spec fn snapshot_empty(s: SnapshotModel) -> bool {
    s.text is None && s.image is None && s.files is None && s.html is None
}

/// When the image branch can produce an entry: the buffer is consistent
/// with its dimensions, the encoder accepts it, and — when compression is
/// on — the thumbnailer does too.
pub open spec fn image_capture_ok(img: RawImageModel, compress: bool) -> bool {
    &&& img.pixels.len() == img.width * img.height * 4
    &&& png_result(img.pixels, img.width, img.height) is Some
    &&& (compress ==> thumb_result(img.pixels, img.width, img.height, 128, 128) is Some)
}

/// Turns one clipboard snapshot into exactly one normalized entry, or
/// declines.  Only the first offered format in the priority order is
/// considered; a decode failure of that format fails the capture without
/// trying another format.  Captures of text, file lists and markup always
/// succeed; an image capture succeeds exactly when the pixel buffer is
/// consistent with its dimensions and the encoder accepts it.
pub fn capture_snapshot(
    snap: RawSnapshot,
    settings: &AppSettings,
    id: u128,
    now: i64,
    source_app: Option<String>,
    source_window: Option<String>,
) -> (r: Result<ClipboardItem, CaptureError>)
    ensures
        match r {
            Ok(item) => {
                &&& valid_item(item@)
                &&& item@.id == id
                &&& item@.timestamp == now
                &&& item@.tags.len() == 0
                &&& !item@.favorite
                &&& !item@.pinned
                &&& item@.metadata.len() == 0
                &&& capture_ok(
                    snap@,
                    settings@.compress_images,
                    item@.content,
                    item@.preview_image,
                )
            },
            Err(_) => true,
        },
        r == Err::<ClipboardItem, CaptureError>(CaptureError::NoSupportedFormat) <==> snapshot_empty(
            snap@,
        ),
        r == Err::<ClipboardItem, CaptureError>(CaptureError::ImageDecode) <==> snap@.text is None
            && snap@.image is Some && !image_capture_ok(
            snap@.image->0,
            settings@.compress_images,
        ),
        snap@.text is None && snap@.image is Some && image_capture_ok(
            snap@.image->0,
            settings@.compress_images,
        ) ==> r is Ok,
        snap@.text is Some || (snap@.text is None && snap@.image is None && (snap@.files is Some
            || snap@.html is Some)) ==> r is Ok,
{
    let RawSnapshot { text, image, files, html } = snap;
    if let Some(t) = text {
        let item = assemble_item(id, ClipboardContent::Text(t), now, source_app, source_window, None);
        Ok(item)
    } else if let Some(img) = image {
        proof {
            let w = img.width as int;
            let h = img.height as int;
            assert(w * h * 4 <= 0xFFFF_FFFF * 0xFFFF_FFFF * 4) by (nonlinear_arith)
                requires
                    0 <= w <= 0xFFFF_FFFF,
                    0 <= h <= 0xFFFF_FFFF,
            ;
        }
        let expected: u128 = (img.width as u128) * (img.height as u128) * 4;
        if (img.pixels.len() as u128) != expected {
            return Err(CaptureError::ImageDecode);
        }
        let data = match encode_rgba_png(&img.pixels, img.width, img.height) {
            Some(d) => d,
            None => {
                return Err(CaptureError::ImageDecode);
            },
        };
        let (thumbnail, preview_image): (Vec<u8>, Option<Vec<u8>>) = if settings.compress_images {
            let th = match thumbnail_rgba_png(&img.pixels, img.width, img.height, 128, 128) {
                Some(t) => t,
                None => {
                    return Err(CaptureError::ImageDecode);
                },
            };
            let copy = crate::model::clone_bytes(&th);
            (th, Some(copy))
        } else {
            (Vec::new(), None)
        };
        let content = ClipboardContent::Image(
            ImageData {
                data,
                width: img.width,
                height: img.height,
                format: ImageFormat::Png,
                thumbnail,
            },
        );
        proof {
            match &preview_image {
                Some(p) => {
                    assert(preview_image.deep_view() == Some(p@));
                },
                None => {},
            }
        }
        let item = assemble_item(id, content, now, source_app, source_window, preview_image);
        Ok(item)
    } else if let Some(fs) = files {
        let item = assemble_item(
            id,
            ClipboardContent::FileList(fs),
            now,
            source_app,
            source_window,
            None,
        );
        Ok(item)
    } else if let Some(h) = html {
        let item = assemble_item(id, ClipboardContent::Html(h), now, source_app, source_window, None);
        Ok(item)
    } else {
        Err(CaptureError::NoSupportedFormat)
    }
}

} // verus!
