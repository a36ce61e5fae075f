//! Thumbnails: the decision of how a source image is scaled, and the cache
//! path that a thumbnail is written to.
use vstd::prelude::*;
use crate::config::{Config, ThumbnailConfig};
use crate::models::PhotoThumbnail;
use crate::paths::{join_path, thumbnail_path};
use crate::text::push_char;
use vstd::string::*;

verus! {

#[verifier::external_type_specification]
#[verifier::external_body]
pub struct ExDynamicImage(image::DynamicImage);

/// Relies on `DynamicImage::width`: the width of the image in pixels.
#[verifier::external_body]
fn image_width(image: &image::DynamicImage) -> (r: u32) {
    image.width()
}

/// Relies on `DynamicImage::height`: the height of the image in pixels.
#[verifier::external_body]
fn image_height(image: &image::DynamicImage) -> (r: u32) {
    image.height()
}

/// A decoded image together with its width and height in pixels.
pub struct Picture {
    image: image::DynamicImage,
    width: u32,
    height: u32,
}

impl Picture {
    pub closed spec fn w(&self) -> u32 {
        self.width
    }

    pub closed spec fn h(&self) -> u32 {
        self.height
    }

    /// The decoded `image` with its dimensions.
    pub fn from_image(image: image::DynamicImage) -> (r: Picture) {
        let width = image_width(&image);
        let height = image_height(&image);
        Picture { image, width, height }
    }

    pub fn width(&self) -> (r: u32)
        ensures
            r == self.w(),
    {
        self.width
    }

    pub fn height(&self) -> (r: u32)
        ensures
            r == self.h(),
    {
        self.height
    }

    pub fn into_image(self) -> image::DynamicImage {
        self.image
    }
}

/// Filling a `size`-pixel square from a `w` × `h` image stays within the
/// pixel counts the image crate can represent.
pub open spec fn fill_in_range(w: u32, h: u32, size: u32) -> bool {
    &&& w >= 1
    &&& h >= 1
    &&& size >= 1
    &&& size * (if w >= h { w } else { h }) <= u32::MAX * (if w >= h { h } else { w })
}

/// Relies on `DynamicImage::resize_to_fill` with a Gaussian filter: the
/// image is scaled, keeping its aspect ratio, to the smallest size that
/// covers `size` × `size`, then cropped about its centre to exactly that.
#[verifier::external_body]
fn fill(p: &Picture, size: u32) -> (r: Picture)
    ensures
        fill_in_range(p.w(), p.h(), size) ==> r.w() == size && r.h() == size,
{
    let image = p.image.resize_to_fill(size, size, image::imageops::FilterType::Gaussian);
    Picture { width: image.width(), height: image.height(), image }
}

/// A `w` × `h` image fitted into `size` × `size` became `rw` × `rh`: the
/// longer side is `size`, and the shorter side is the scaled one, rounded,
/// and at least one pixel.
pub open spec fn fitted(w: u32, h: u32, size: u32, rw: u32, rh: u32) -> bool {
    &&& rw <= size
    &&& rh <= size
    &&& w >= h ==> {
        &&& rw == size
        &&& rh >= 1
        &&& rh * w <= h * size + w
        &&& h * size <= rh * w + w
    }
    &&& h >= w ==> {
        &&& rh == size
        &&& rw >= 1
        &&& rw * h <= w * size + h
        &&& w * size <= rw * h + h
    }
}

/// Relies on `DynamicImage::resize` with a Gaussian filter: the image is
/// scaled, keeping its aspect ratio, to the largest size that fits within
/// `size` × `size`: its longer side becomes `size`, and its shorter side
/// the scaled one, rounded to the nearest pixel and at least one.
#[verifier::external_body]
fn fit(p: &Picture, size: u32) -> (r: Picture)
    ensures
        size >= 1 && p.w() >= 1 && p.h() >= 1 ==> fitted(p.w(), p.h(), size, r.w(), r.h()),
{
    let image = p.image.resize(size, size, image::imageops::FilterType::Gaussian);
    Picture { width: image.width(), height: image.height(), image }
}

/// How a source of `width` × `height` pixels becomes a thumbnail.
#[derive(Debug, Clone, Copy, PartialEq, Eq, Structural)]
pub enum ThumbnailPlan {
    /// Both sides are below the target: the source is used as it is.
    Original,
    /// Scaled to cover the target square, then cropped to it.
    Fill,
    /// Scaled so that its longer side is the target size.
    Fit,
}

pub open spec fn plan_of(width: u32, height: u32, cfg: ThumbnailConfig) -> ThumbnailPlan {
    if width < cfg.size && height < cfg.size {
        ThumbnailPlan::Original
    } else if cfg.square {
        ThumbnailPlan::Fill
    } else {
        ThumbnailPlan::Fit
    }
}

/// The plan for a source of `width` × `height` pixels: never scale up.
pub fn plan_thumbnail(width: u32, height: u32, cfg: &ThumbnailConfig) -> (r: ThumbnailPlan)
    ensures
        r == plan_of(width, height, *cfg),
{
    if width < cfg.size && height < cfg.size {
        ThumbnailPlan::Original
    } else if cfg.square {
        ThumbnailPlan::Fill
    } else {
        ThumbnailPlan::Fit
    }
}

/// The thumbnail of `source` for the size `cfg`. A source smaller than the
/// target on both sides comes back as it is; otherwise a square size gives
/// exactly `size` × `size`, and another size a thumbnail whose longer side
/// is `size`.
pub fn make_thumbnail(source: Picture, cfg: &ThumbnailConfig) -> (r: Picture)
    ensures
        source.w() < cfg.size && source.h() < cfg.size ==> r.w() == source.w() && r.h() == source.h(),
        plan_of(source.w(), source.h(), *cfg) == ThumbnailPlan::Fill && fill_in_range(source.w(), source.h(), cfg.size)
            ==> r.w() == cfg.size && r.h() == cfg.size,
        plan_of(source.w(), source.h(), *cfg) == ThumbnailPlan::Fit && cfg.size >= 1 && source.w() >= 1 && source.h() >= 1
            ==> fitted(source.w(), source.h(), cfg.size, r.w(), r.h()),
{
    match plan_thumbnail(source.width(), source.height(), cfg) {
        ThumbnailPlan::Original => source,
        ThumbnailPlan::Fill => fill(&source, cfg.size),
        ThumbnailPlan::Fit => fit(&source, cfg.size),
    }
}

impl PhotoThumbnail {
    /// The cache path of the thumbnail of the photo with content hash
    /// `hash`, at the size `thumbnail_config`.
    pub fn get_image_path(hash: &String, thumbnail_config: &ThumbnailConfig, config: &Config) -> (r: String)
        ensures
            r@ == thumbnail_path(config.cache_path@, hash@, thumbnail_config.extension@),
    {
        let mut path = join_path(config.cache_path.as_str(), hash.as_str());
        push_char(&mut path, '.');
        path.append(thumbnail_config.extension.as_str());
        path
    }
}

} // verus!
