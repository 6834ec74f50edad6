use vstd::prelude::*;

verus! {

/// How the cursor appears in a screen-cast stream.
#[derive(Clone, Copy, Debug, PartialEq, Eq, Structural)]
pub enum CursorMode {
    Hidden,
    Embedded,
    Stream,
}

/// The video formats a stream consumer may ask for.
#[derive(Clone, Copy, Debug, PartialEq, Eq, Structural)]
pub enum VideoFormat {
    RGB,
    RGBx,
    BGRx,
    /// Any other format, by its raw SPA identifier.
    Other(u32),
}

/// The pixel formats the compositor allocates stream buffers in.
#[derive(Clone, Copy, Debug, PartialEq, Eq, Structural)]
pub enum BufferFormat {
    Rgb888,
    Rgba8888,
    Bgra8888,
}

/// How the buffers of a video stream are laid out.
#[derive(Clone, Copy, Debug, PartialEq, Eq, Structural)]
pub struct BufferLayout {
    pub bytes_per_pixel: u32,
    pub format: BufferFormat,
    pub stride: u32,
    pub size: u32,
}

/// The bytes per pixel and buffer format of a supported video format.
pub open spec fn format_info(format: VideoFormat) -> Option<(u32, BufferFormat)> {
    match format {
        VideoFormat::RGB => Some((3, BufferFormat::Rgb888)),
        VideoFormat::RGBx => Some((4, BufferFormat::Rgba8888)),
        VideoFormat::BGRx => Some((4, BufferFormat::Bgra8888)),
        VideoFormat::Other(_) => None,
    }
}

/// Whether the stride and size of a buffer of `width` x `height` pixels fit
/// in `u32`.
pub open spec fn layout_fits(format: VideoFormat, width: u32, height: u32) -> bool {
    match format_info(format) {
        Some((bpp, _)) => width * bpp <= u32::MAX && height * (width * bpp) <= u32::MAX,
        None => true,
    }
}

/// The layout of the buffers of a stream of `width` x `height` pixels in
/// `format`: the row stride is the width times the bytes per pixel, the size
/// the height times the stride. Unsupported formats give `None`.
pub fn buffer_layout(format: VideoFormat, width: u32, height: u32) -> (r: Option<BufferLayout>)
    requires
        layout_fits(format, width, height),
    ensures
        match format_info(format) {
            Some((bpp, f)) => r == Some(BufferLayout {
                bytes_per_pixel: bpp,
                format: f,
                stride: (width * bpp) as u32,
                size: (height * (width * bpp)) as u32,
            }),
            None => r is None,
        },
{
    let (bytes_per_pixel, buffer_format) = match format {
        VideoFormat::RGB => (3u32, BufferFormat::Rgb888),
        VideoFormat::RGBx => (4u32, BufferFormat::Rgba8888),
        VideoFormat::BGRx => (4u32, BufferFormat::Bgra8888),
        VideoFormat::Other(_) => {
            return None;
        },
    };
    let stride = width * bytes_per_pixel;
    let size = height * stride;
    Some(BufferLayout { bytes_per_pixel, format: buffer_format, stride, size })
}

/// Each supported video format is laid out in the buffer format of the
/// same channels (RGB in Rgb888, RGBx in Rgba8888, BGRx in Bgra8888), and
/// the bytes per pixel are those of the buffer format: three for Rgb888,
/// four for the 32-bit formats. Other formats are not supported. So a
/// buffer row of a stream `width` pixels wide holds `3 * width` or
/// `4 * width` bytes.
pub proof fn lemma_pixel_sizes_match_formats(format: VideoFormat, width: u32, height: u32)
    ensures
        format == VideoFormat::RGB ==> (format_info(format) matches Some((_, f)) && f == BufferFormat::Rgb888),
        format == VideoFormat::RGBx ==> (format_info(format) matches Some((_, f)) && f == BufferFormat::Rgba8888),
        format == VideoFormat::BGRx ==> (format_info(format) matches Some((_, f)) && f == BufferFormat::Bgra8888),
        format is Other ==> format_info(format) is None,
        format_info(format) matches Some((bpp, f)) ==> (f == BufferFormat::Rgb888 ==> bpp == 3) && (f
            == BufferFormat::Rgba8888 ==> bpp == 4) && (f == BufferFormat::Bgra8888 ==> bpp == 4),
        format_info(format) matches Some((bpp, f)) ==> width * bpp == if f == BufferFormat::Rgb888 {
            3 * width
        } else {
            4 * width
        },
{
}

} // verus!
