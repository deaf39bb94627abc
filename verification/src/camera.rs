//! Decoding of captured camera buffers into RGB frames or JPEG bytes.

use crate::pixel::{bt601_rgb, yuv_to_rgb_bt601};
use crate::raster::{lemma_next_row, lemma_raster_push, raster};
use crate::rgb_image::{rgb_frame_samples, rgb_frame_size, rgb_image_from_raw, RgbFrame};
use vstd::slice::slice_subrange;
use vstd::prelude::*;

verus! {

/// A camera that libcamera reports.
#[derive(Debug, Clone)]
pub struct CameraInfo {
    pub index: usize,
    pub id: String,
}

/// What a capture produced.
#[derive(Debug, Clone)]
pub struct FrameInfo {
    pub file_size: usize,
    pub width: u32,
    pub height: u32,
}

/// Number the cameras in the order they are reported.
pub fn camera_infos(ids: Vec<String>) -> (infos: Vec<CameraInfo>)
    ensures
        infos@.len() == ids@.len(),
        forall|i: int|
            0 <= i < ids@.len() ==> (#[trigger] infos@[i]).index == i && infos@[i].id@ == ids@[i]@,
{
    let mut infos: Vec<CameraInfo> = Vec::new();
    for i in 0..ids.len()
        invariant
            infos@.len() == i,
            forall|j: int|
                0 <= j < i ==> (#[trigger] infos@[j]).index == j && infos@[j].id@ == ids@[j]@,
    {
        infos.push(CameraInfo { index: i, id: ids[i].clone() });
    }
    infos
}

/// How many bytes of a mapped plane hold the frame: the bytes the metadata
/// reports as used, unless that is zero or more than the mapping holds.
pub fn used_plane_len(mapped_len: usize, bytes_used: usize) -> (len: usize)
    ensures
        len == if 0 < bytes_used <= mapped_len {
            bytes_used
        } else {
            mapped_len
        },
{
    if bytes_used > 0 && bytes_used <= mapped_len {
        bytes_used
    } else {
        mapped_len
    }
}

/// The total number of bytes in a list of planes.
pub open spec fn total_plane_bytes(planes: Seq<Seq<u8>>) -> int
    decreases planes.len(),
{
    if planes.len() == 0 {
        0
    } else {
        total_plane_bytes(planes.drop_last()) + planes.last().len()
    }
}

/// How many bytes a captured frame occupies across its planes (saturating
/// at `usize::MAX`).
pub fn frame_byte_count(planes: &[&[u8]]) -> (n: usize)
    ensures
        n == if total_plane_bytes(plane_views(planes@)) <= usize::MAX {
            total_plane_bytes(plane_views(planes@))
        } else {
            usize::MAX as int
        },
{
    let ghost views = plane_views(planes@);
    let mut n: usize = 0;
    for i in 0..planes.len()
        invariant
            views == plane_views(planes@),
            n == if total_plane_bytes(views.take(i as int)) <= usize::MAX {
                total_plane_bytes(views.take(i as int))
            } else {
                usize::MAX as int
            },
    {
        let ghost before = views.take(i as int);
        assert(views.take(i + 1).drop_last() =~= before);
        assert(views.take(i + 1).last() == planes@[i as int]@);
        assert(total_plane_bytes(views.take(i + 1)) >= total_plane_bytes(before));
        n = n.saturating_add(planes[i].len());
    }
    assert(views.take(planes@.len() as int) =~= views);
    n
}

// ---------------------------------------------------------------------------
// NV12 / NV21: a Y plane, then one plane of interleaved chroma pairs at half
// resolution in both directions.
// ---------------------------------------------------------------------------

/// Bytes per row of the interleaved chroma plane: the plane's length spread
/// over `height / 2` rows, or `width` when there is no chroma row.
pub open spec fn nv12_uv_stride(width: u32, height: u32, uv_len: int) -> int {
    if height / 2 > 0 {
        uv_len / ((height / 2) as int)
    } else {
        width as int
    }
}

/// The geometry checks made before any sample is read.
pub open spec fn nv12_layout_ok(width: u32, height: u32, y_stride: u32, uv_len: int) -> bool {
    &&& width > 0
    &&& height > 0
    &&& y_stride >= width
    &&& nv12_uv_stride(width, height, uv_len) >= width
}

/// Offset of the chroma pair that covers pixel `(x, y)`.
pub open spec fn nv12_uv_offset(uv_stride: int, x: int, y: int) -> int {
    (y / 2) * uv_stride + (x / 2) * 2
}

/// Every byte that pixel `(x, y)` reads lies inside its plane.
pub open spec fn nv12_pixel_present(
    y_plane: Seq<u8>,
    uv_plane: Seq<u8>,
    y_stride: u32,
    uv_stride: int,
    x: int,
    y: int,
) -> bool {
    &&& y * y_stride + x < y_plane.len()
    &&& nv12_uv_offset(uv_stride, x, y) + 1 < uv_plane.len()
}

/// The RGB value of pixel `(x, y)`. NV12 stores each chroma pair as U, V;
/// NV21 (`swap_uv`) stores it as V, U.
pub open spec fn nv12_pixel(
    y_plane: Seq<u8>,
    uv_plane: Seq<u8>,
    y_stride: u32,
    uv_stride: int,
    swap_uv: bool,
    x: int,
    y: int,
) -> Seq<u8> {
    let luma = y_plane[y * y_stride + x];
    let c = nv12_uv_offset(uv_stride, x, y);
    if swap_uv {
        bt601_rgb(luma, uv_plane[c + 1], uv_plane[c])
    } else {
        bt601_rgb(luma, uv_plane[c], uv_plane[c + 1])
    }
}

/// The whole frame can be decoded: the geometry is sound and every pixel's
/// samples are present.
pub open spec fn nv12_decodes(
    width: u32,
    height: u32,
    y_stride: u32,
    y_plane: Seq<u8>,
    uv_plane: Seq<u8>,
) -> bool {
    let uvs = nv12_uv_stride(width, height, uv_plane.len() as int);
    &&& nv12_layout_ok(width, height, y_stride, uv_plane.len() as int)
    &&& forall|x: int, y: int|
        0 <= x < width && 0 <= y < height ==> #[trigger] nv12_pixel_present(
            y_plane,
            uv_plane,
            y_stride,
            uvs,
            x,
            y,
        )
}

/// A pixel whose samples are missing makes the frame undecodable.
proof fn lemma_nv12_gap(
    width: u32,
    height: u32,
    y_stride: u32,
    y_plane: Seq<u8>,
    uv_plane: Seq<u8>,
    x: int,
    y: int,
)
    requires
        0 <= x < width,
        0 <= y < height,
        !nv12_pixel_present(
            y_plane,
            uv_plane,
            y_stride,
            nv12_uv_stride(width, height, uv_plane.len() as int),
            x,
            y,
        ),
    ensures
        !nv12_decodes(width, height, y_stride, y_plane, uv_plane),
{
}

/// The decoded NV12/NV21 frame, as interleaved RGB samples.
pub open spec fn nv12_samples(
    width: u32,
    height: u32,
    y_stride: u32,
    y_plane: Seq<u8>,
    uv_plane: Seq<u8>,
    swap_uv: bool,
) -> Seq<u8> {
    let uvs = nv12_uv_stride(width, height, uv_plane.len() as int);
    raster(
        width as int,
        width * height,
        |x: int, y: int| nv12_pixel(y_plane, uv_plane, y_stride, uvs, swap_uv, x, y),
    )
}

/// Decode a two-plane NV12 (or, with `swap_uv`, NV21) frame.
pub fn nv12_to_rgb(
    width: u32,
    height: u32,
    y_stride: u32,
    y_plane: &[u8],
    uv_plane: &[u8],
    swap_uv: bool,
) -> (out: Option<RgbFrame>)
    requires
        nv12_layout_ok(width, height, y_stride, uv_plane@.len() as int) ==> 3 * width * height
            <= usize::MAX,
    ensures
        out.is_some() <==> nv12_decodes(width, height, y_stride, y_plane@, uv_plane@),
        out.is_some() ==> rgb_frame_samples(out.unwrap()) == nv12_samples(
            width,
            height,
            y_stride,
            y_plane@,
            uv_plane@,
            swap_uv,
        ),
        out.is_some() ==> rgb_frame_size(out.unwrap()) == seq![width, height],
{
    let w = width as usize;
    let h = height as usize;
    let ys = y_stride as usize;
    if w == 0 || h == 0 || ys < w {
        return None;
    }
    let uv_rows = h / 2;
    let uv_stride = if uv_rows > 0 {
        uv_plane.len() / uv_rows
    } else {
        w
    };
    if uv_stride < w {
        return None;
    }
    let ghost uvs = nv12_uv_stride(width, height, uv_plane@.len() as int);
    let ghost pix = |x: int, y: int| nv12_pixel(y_plane@, uv_plane@, y_stride, uvs, swap_uv, x, y);
    assert(uv_stride == uvs);
    assert(w * h * 3 <= usize::MAX) by (nonlinear_arith)
        requires
            3 * width * height <= usize::MAX,
            w == width,
            h == height,
    ;
    let mut buf: Vec<u8> = Vec::with_capacity(w * h * 3);
    let mut y: usize = 0;
    assert(y_plane@.len() == y_plane.len() && uv_plane@.len() == uv_plane.len());
    while y < h
        invariant
            0 < w,
            y_plane@.len() <= usize::MAX,
            uv_plane@.len() <= usize::MAX,
            w == width,
            h == height,
            ys == y_stride,
            uv_stride == uvs,
            uvs == nv12_uv_stride(width, height, uv_plane@.len() as int),
            pix == (|x: int, y: int| nv12_pixel(y_plane@, uv_plane@, y_stride, uvs, swap_uv, x, y)),
            y <= h,
            buf@ == raster(w as int, y * w, pix),
            forall|xx: int, yy: int|
                0 <= xx < w && 0 <= yy < y ==> #[trigger] nv12_pixel_present(
                    y_plane@,
                    uv_plane@,
                    y_stride,
                    uvs,
                    xx,
                    yy,
                ),
        decreases h - y,
    {
        let row_off = match y.checked_mul(ys) {
            Some(r) => r,
            None => {
                proof {
                    assert(y_plane@.len() == y_plane.len() && uv_plane@.len() == uv_plane.len());
                    lemma_nv12_gap(width, height, y_stride, y_plane@, uv_plane@, 0, y as int);
                }
                return None;
            },
        };
        let cy = y / 2;
        let uv_row_off = match cy.checked_mul(uv_stride) {
            Some(r) => r,
            None => {
                proof {
                    assert(y_plane@.len() == y_plane.len() && uv_plane@.len() == uv_plane.len());
                    lemma_nv12_gap(width, height, y_stride, y_plane@, uv_plane@, 0, y as int);
                }
                return None;
            },
        };
        let mut x: usize = 0;
        while x < w
            invariant
                0 < w,
                y_plane@.len() <= usize::MAX,
                uv_plane@.len() <= usize::MAX,
                w == width,
                h == height,
                ys == y_stride,
                uv_stride == uvs,
                uvs == nv12_uv_stride(width, height, uv_plane@.len() as int),
                pix == (|x: int, y: int|
                    nv12_pixel(y_plane@, uv_plane@, y_stride, uvs, swap_uv, x, y)),
                y < h,
                x <= w,
                row_off == y * ys,
                uv_row_off == (y / 2) * uv_stride,
                buf@ == raster(w as int, y * w + x, pix),
                forall|xx: int, yy: int|
                    0 <= xx < w && 0 <= yy < y ==> #[trigger] nv12_pixel_present(
                        y_plane@,
                        uv_plane@,
                        y_stride,
                        uvs,
                        xx,
                        yy,
                    ),
                forall|xx: int|
                    0 <= xx < x ==> #[trigger] nv12_pixel_present(
                        y_plane@,
                        uv_plane@,
                        y_stride,
                        uvs,
                        xx,
                        y as int,
                    ),
            decreases w - x,
        {
            let ghost present = nv12_pixel_present(y_plane@, uv_plane@, y_stride, uvs, x as int, y as int);
            let yi = match row_off.checked_add(x) {
                Some(i) => match y_plane.get(i) {
                    Some(b) => *b,
                    None => {
                        proof {
                            lemma_nv12_gap(width, height, y_stride, y_plane@, uv_plane@, x as int, y as int);
                        }
                        return None;
                    },
                },
                None => {
                    proof {
                        lemma_nv12_gap(width, height, y_stride, y_plane@, uv_plane@, x as int, y as int);
                    }
                    return None;
                },
            };
            let cx = (x / 2) * 2;
            assert(nv12_uv_offset(uvs, x as int, y as int) == uv_row_off + cx);
            let c0 = match uv_row_off.checked_add(cx) {
                Some(i) => i,
                None => {
                    proof {
                        lemma_nv12_gap(width, height, y_stride, y_plane@, uv_plane@, x as int, y as int);
                    }
                    return None;
                },
            };
            let c1 = match c0.checked_add(1) {
                Some(i) => i,
                None => {
                    proof {
                        lemma_nv12_gap(width, height, y_stride, y_plane@, uv_plane@, x as int, y as int);
                    }
                    return None;
                },
            };
            let (u, v) = if swap_uv {
                let v0 = match uv_plane.get(c0) {
                    Some(b) => *b,
                    None => {
                        proof {
                            lemma_nv12_gap(width, height, y_stride, y_plane@, uv_plane@, x as int, y as int);
                        }
                        return None;
                    },
                };
                let u0 = match uv_plane.get(c1) {
                    Some(b) => *b,
                    None => {
                        proof {
                            lemma_nv12_gap(width, height, y_stride, y_plane@, uv_plane@, x as int, y as int);
                        }
                        return None;
                    },
                };
                (u0, v0)
            } else {
                let u0 = match uv_plane.get(c0) {
                    Some(b) => *b,
                    None => {
                        proof {
                            lemma_nv12_gap(width, height, y_stride, y_plane@, uv_plane@, x as int, y as int);
                        }
                        return None;
                    },
                };
                let v0 = match uv_plane.get(c1) {
                    Some(b) => *b,
                    None => {
                        proof {
                            lemma_nv12_gap(width, height, y_stride, y_plane@, uv_plane@, x as int, y as int);
                        }
                        return None;
                    },
                };
                (u0, v0)
            };
            assert(present);
            let rgb = yuv_to_rgb_bt601(yi, u, v);
            assert(rgb@ == pix(x as int, y as int));
            proof {
                lemma_raster_push(w as int, y * w + x, pix, x as int, y as int);
            }
            buf.push(rgb[0]);
            buf.push(rgb[1]);
            buf.push(rgb[2]);
            assert(buf@ =~= raster(w as int, y * w + x, pix) + rgb@);
            x += 1;
        }
        proof {
            lemma_next_row(w as int, y as int);
        }
        y += 1;
    }
    assert(nv12_decodes(width, height, y_stride, y_plane@, uv_plane@));
    assert(buf@.len() == 3 * width * height) by (nonlinear_arith)
        requires
            buf@.len() == 3 * (h * w),
            w == width,
            h == height,
    ;
    assert(h * w == width * height) by (nonlinear_arith)
        requires
            w == width,
            h == height,
    ;
    proof {
        lemma_one_row_fits(width, height);
    }
    rgb_image_from_raw(width, height, buf)
}

/// A frame of at least one row whose samples fit in a `usize` has a row of
/// samples that fits too.
proof fn lemma_one_row_fits(width: u32, height: u32)
    requires
        height > 0,
        3 * width * height <= usize::MAX,
    ensures
        3 * width <= usize::MAX,
{
    assert(3 * width <= 3 * width * height) by (nonlinear_arith)
        requires
            height > 0,
    ;
}

/// Size of the Y plane of a single-buffer NV12 frame: `stride * height`.
pub open spec fn nv12_single_y_size(stride: u32, height: u32) -> int {
    stride * height
}

/// Size of the chroma plane of a single-buffer NV12 frame: `stride * (height / 2)`.
pub open spec fn nv12_single_uv_size(stride: u32, height: u32) -> int {
    stride * (height / 2)
}

/// A single buffer holds a Y plane of `stride` × `height` bytes followed by
/// an interleaved chroma plane of `stride` × `height / 2` bytes.
pub open spec fn nv12_single_fits(stride: u32, height: u32, data: Seq<u8>) -> bool {
    data.len() >= nv12_single_y_size(stride, height) + nv12_single_uv_size(stride, height)
}

/// The Y plane cut out of a single NV12 buffer.
pub open spec fn nv12_single_y_plane(stride: u32, height: u32, data: Seq<u8>) -> Seq<u8> {
    data.subrange(0, nv12_single_y_size(stride, height))
}

/// The chroma plane cut out of a single NV12 buffer.
pub open spec fn nv12_single_uv_plane(stride: u32, height: u32, data: Seq<u8>) -> Seq<u8> {
    let y_size = nv12_single_y_size(stride, height);
    data.subrange(y_size, y_size + nv12_single_uv_size(stride, height))
}

/// Decode NV12 (or NV21 with `swap_uv`) held in one contiguous buffer: the Y
/// plane with `stride` × `height` bytes, then the chroma plane with
/// `stride` × `height / 2` bytes.
pub fn nv12_single_plane(width: u32, height: u32, stride: u32, data: &[u8], swap_uv: bool) -> (out:
    Option<RgbFrame>)
    requires
        nv12_single_fits(stride, height, data@) && nv12_layout_ok(
            width,
            height,
            stride,
            nv12_single_uv_size(stride, height),
        ) ==> 3 * width * height <= usize::MAX,
    ensures
        out.is_some() <==> nv12_single_fits(stride, height, data@) && nv12_decodes(
            width,
            height,
            stride,
            nv12_single_y_plane(stride, height, data@),
            nv12_single_uv_plane(stride, height, data@),
        ),
        out.is_some() ==> rgb_frame_samples(out.unwrap()) == nv12_samples(
            width,
            height,
            stride,
            nv12_single_y_plane(stride, height, data@),
            nv12_single_uv_plane(stride, height, data@),
            swap_uv,
        ),
        out.is_some() ==> rgb_frame_size(out.unwrap()) == seq![width, height],
{
    let h = height as usize;
    let ys = stride as usize;
    assert(data@.len() == data.len());
    let y_size = match ys.checked_mul(h) {
        Some(n) => n,
        None => return None,
    };
    let uv_size = match ys.checked_mul(h / 2) {
        Some(n) => n,
        None => {
            assert(nv12_single_uv_size(stride, height) <= nv12_single_y_size(stride, height)) by (
            nonlinear_arith)
                requires
                    ys == stride,
                    h == height,
            ;
            return None;
        },
    };
    let total = match y_size.checked_add(uv_size) {
        Some(n) => n,
        None => return None,
    };
    if data.len() < total {
        return None;
    }
    let y_plane = slice_subrange(data, 0, y_size);
    let uv_plane = slice_subrange(data, y_size, y_size + uv_size);
    nv12_to_rgb(width, height, stride, y_plane, uv_plane, swap_uv)
}

// ---------------------------------------------------------------------------
// YUYV: packed 4:2:2, two pixels per four bytes Y0 U Y1 V.
// ---------------------------------------------------------------------------

/// The geometry checks made before any sample is read.
pub open spec fn yuyv_layout_ok(width: u32, height: u32, stride: u32) -> bool {
    stride >= 2 * width && height > 0
}

/// Offset of the four-byte group that covers pixel `(x, y)`.
pub open spec fn yuyv_group_offset(stride: u32, x: int, y: int) -> int {
    y * stride + (x / 2) * 4
}

/// The whole four-byte group of pixel `(x, y)` lies inside the buffer.
pub open spec fn yuyv_pixel_present(data: Seq<u8>, stride: u32, x: int, y: int) -> bool {
    yuyv_group_offset(stride, x, y) + 3 < data.len()
}

/// The RGB value of pixel `(x, y)`: its own luma byte with the group's U and V.
pub open spec fn yuyv_pixel(data: Seq<u8>, stride: u32, x: int, y: int) -> Seq<u8> {
    let b = yuyv_group_offset(stride, x, y);
    bt601_rgb(data[b + 2 * (x % 2)], data[b + 1], data[b + 3])
}

/// The whole frame can be decoded.
pub open spec fn yuyv_decodes(width: u32, height: u32, stride: u32, data: Seq<u8>) -> bool {
    &&& yuyv_layout_ok(width, height, stride)
    &&& forall|x: int, y: int|
        0 <= x < width && 0 <= y < height ==> #[trigger] yuyv_pixel_present(data, stride, x, y)
}

/// The decoded YUYV frame, as interleaved RGB samples.
pub open spec fn yuyv_samples(width: u32, height: u32, stride: u32, data: Seq<u8>) -> Seq<u8> {
    raster(width as int, width * height, |x: int, y: int| yuyv_pixel(data, stride, x, y))
}

proof fn lemma_yuyv_gap(width: u32, height: u32, stride: u32, data: Seq<u8>, x: int, y: int)
    requires
        0 <= x < width,
        0 <= y < height,
        !yuyv_pixel_present(data, stride, x, y),
    ensures
        !yuyv_decodes(width, height, stride, data),
{
}

/// Decode packed YUYV (4:2:2) rows of `stride` bytes.
#[verifier::rlimit(100)]
#[verifier::spinoff_prover]
pub fn yuyv_to_rgb(width: u32, height: u32, stride: u32, data: &[u8]) -> (out: Option<RgbFrame>)
    requires
        yuyv_layout_ok(width, height, stride) ==> 3 * width * height <= usize::MAX,
    ensures
        out.is_some() <==> yuyv_decodes(width, height, stride, data@),
        out.is_some() ==> rgb_frame_samples(out.unwrap()) == yuyv_samples(
            width,
            height,
            stride,
            data@,
        ),
        out.is_some() ==> rgb_frame_size(out.unwrap()) == seq![width, height],
{
    let w = width as usize;
    let h = height as usize;
    let row_bytes = stride as usize;
    if (row_bytes as u64) < (w as u64) * 2 || h == 0 {
        return None;
    }
    let ghost pix = |x: int, y: int| yuyv_pixel(data@, stride, x, y);
    assert(w * h * 3 <= usize::MAX) by (nonlinear_arith)
        requires
            3 * width * height <= usize::MAX,
            w == width,
            h == height,
    ;
    assert(data@.len() == data.len());
    let mut buf: Vec<u8> = Vec::with_capacity(w * h * 3);
    let mut y: usize = 0;
    while y < h
        invariant
            data@.len() <= usize::MAX,
            w == width,
            h == height,
            row_bytes == stride,
            yuyv_layout_ok(width, height, stride),
            pix == (|x: int, y: int| yuyv_pixel(data@, stride, x, y)),
            y <= h,
            buf@ == raster(w as int, y * w, pix),
            forall|xx: int, yy: int|
                0 <= xx < w && 0 <= yy < y ==> #[trigger] yuyv_pixel_present(data@, stride, xx, yy),
        decreases h - y,
    {
        let row = match y.checked_mul(row_bytes) {
            Some(r) => r,
            None => {
                if w == 0 {
                    // An empty row reads nothing, so its offset is never used.
                    0
                } else {
                    proof {
                        lemma_yuyv_gap(width, height, stride, data@, 0, y as int);
                    }
                    return None;
                }
            },
        };
        let mut x: usize = 0;
        while x < w
            invariant
                data@.len() <= usize::MAX,
                w == width,
                h == height,
                row_bytes == stride,
                yuyv_layout_ok(width, height, stride),
                pix == (|x: int, y: int| yuyv_pixel(data@, stride, x, y)),
                y < h,
                x % 2 == 0,
                x <= w + 1,
                w > 0 ==> row == y * row_bytes,
                buf@ == raster(w as int, y * w + (if x <= w { x as int } else { w as int }), pix),
                forall|xx: int, yy: int|
                    0 <= xx < w && 0 <= yy < y ==> #[trigger] yuyv_pixel_present(
                        data@,
                        stride,
                        xx,
                        yy,
                    ),
                forall|xx: int|
                    0 <= xx < x && xx < w ==> #[trigger] yuyv_pixel_present(
                        data@,
                        stride,
                        xx,
                        y as int,
                    ),
            decreases w + 1 - x,
        {
            assert(yuyv_group_offset(stride, x as int, y as int) == row + x * 2);
            let base = match x.checked_mul(2) {
                Some(x2) => match row.checked_add(x2) {
                    Some(b) => b,
                    None => {
                        proof {
                            lemma_yuyv_gap(width, height, stride, data@, x as int, y as int);
                        }
                        return None;
                    },
                },
                None => {
                    proof {
                        lemma_yuyv_gap(width, height, stride, data@, x as int, y as int);
                    }
                    return None;
                },
            };
            if base >= data.len() || data.len() - base < 4 {
                proof {
                    lemma_yuyv_gap(width, height, stride, data@, x as int, y as int);
                }
                return None;
            }
            let y0 = data[base];
            let u = data[base + 1];
            let y1 = data[base + 2];
            let v = data[base + 3];
            assert(yuyv_pixel_present(data@, stride, x as int, y as int));
            let p0 = yuv_to_rgb_bt601(y0, u, v);
            assert(p0@ == pix(x as int, y as int));
            proof {
                lemma_raster_push(w as int, y * w + x, pix, x as int, y as int);
            }
            buf.push(p0[0]);
            buf.push(p0[1]);
            buf.push(p0[2]);
            assert(buf@ =~= raster(w as int, y * w + x, pix) + p0@);
            if x + 1 < w {
                assert(yuyv_group_offset(stride, x + 1, y as int) == row + x * 2);
                assert(yuyv_pixel_present(data@, stride, x + 1, y as int));
                let p1 = yuv_to_rgb_bt601(y1, u, v);
                assert(p1@ == pix(x + 1, y as int));
                proof {
                    lemma_raster_push(w as int, y * w + x + 1, pix, x + 1, y as int);
                }
                buf.push(p1[0]);
                buf.push(p1[1]);
                buf.push(p1[2]);
                assert(buf@ =~= raster(w as int, y * w + x + 1, pix) + p1@);
            }
            x += 2;
        }
        proof {
            lemma_next_row(w as int, y as int);
        }
        y += 1;
    }
    assert(yuyv_decodes(width, height, stride, data@));
    assert(3 * (h * w) == 3 * width * height) by (nonlinear_arith)
        requires
            w == width,
            h == height,
    ;
    proof {
        lemma_one_row_fits(width, height);
    }
    rgb_image_from_raw(width, height, buf)
}

// ---------------------------------------------------------------------------
// RG24: packed 8-bit R, G, B rows of `stride` bytes.
// ---------------------------------------------------------------------------

/// The geometry checks made before any sample is read.
pub open spec fn rgb888_layout_ok(width: u32, height: u32, stride: u32) -> bool {
    stride >= 3 * width && height > 0
}

/// Offset of pixel `(x, y)` in a packed RGB buffer.
pub open spec fn rgb888_offset(stride: u32, x: int, y: int) -> int {
    y * stride + 3 * x
}

/// The three bytes of pixel `(x, y)` lie inside the buffer.
pub open spec fn rgb888_pixel_present(data: Seq<u8>, stride: u32, x: int, y: int) -> bool {
    rgb888_offset(stride, x, y) + 2 < data.len()
}

/// The RGB value of pixel `(x, y)`, copied as it is.
pub open spec fn rgb888_pixel(data: Seq<u8>, stride: u32, x: int, y: int) -> Seq<u8> {
    data.subrange(rgb888_offset(stride, x, y), rgb888_offset(stride, x, y) + 3)
}

/// The whole frame can be copied.
pub open spec fn rgb888_decodes(width: u32, height: u32, stride: u32, data: Seq<u8>) -> bool {
    &&& rgb888_layout_ok(width, height, stride)
    &&& forall|x: int, y: int|
        0 <= x < width && 0 <= y < height ==> #[trigger] rgb888_pixel_present(data, stride, x, y)
}

/// The frame with row padding removed.
pub open spec fn rgb888_samples(width: u32, height: u32, stride: u32, data: Seq<u8>) -> Seq<u8> {
    raster(width as int, width * height, |x: int, y: int| rgb888_pixel(data, stride, x, y))
}

proof fn lemma_rgb888_gap(width: u32, height: u32, stride: u32, data: Seq<u8>, x: int, y: int)
    requires
        0 <= x < width,
        0 <= y < height,
        !rgb888_pixel_present(data, stride, x, y),
    ensures
        !rgb888_decodes(width, height, stride, data),
{
}

/// Copy packed RGB888 rows of `stride` bytes into a tightly packed frame.
pub fn rgb888_packed(width: u32, height: u32, stride: u32, data: &[u8]) -> (out: Option<RgbFrame>)
    requires
        rgb888_layout_ok(width, height, stride) ==> 3 * width * height <= usize::MAX,
    ensures
        out.is_some() <==> rgb888_decodes(width, height, stride, data@),
        out.is_some() ==> rgb_frame_samples(out.unwrap()) == rgb888_samples(
            width,
            height,
            stride,
            data@,
        ),
        out.is_some() ==> rgb_frame_size(out.unwrap()) == seq![width, height],
{
    let w = width as usize;
    let h = height as usize;
    let row_bytes = stride as usize;
    if (row_bytes as u64) < (w as u64) * 3 || h == 0 {
        return None;
    }
    let ghost pix = |x: int, y: int| rgb888_pixel(data@, stride, x, y);
    assert(w * h * 3 <= usize::MAX) by (nonlinear_arith)
        requires
            3 * width * height <= usize::MAX,
            w == width,
            h == height,
    ;
    assert(data@.len() == data.len());
    let mut buf: Vec<u8> = Vec::with_capacity(w * h * 3);
    let mut y: usize = 0;
    while y < h
        invariant
            data@.len() <= usize::MAX,
            w == width,
            h == height,
            row_bytes == stride,
            pix == (|x: int, y: int| rgb888_pixel(data@, stride, x, y)),
            y <= h,
            buf@ == raster(w as int, y * w, pix),
            forall|xx: int, yy: int|
                0 <= xx < w && 0 <= yy < y ==> #[trigger] rgb888_pixel_present(
                    data@,
                    stride,
                    xx,
                    yy,
                ),
        decreases h - y,
    {
        let src_row = match y.checked_mul(row_bytes) {
            Some(r) => r,
            None => {
                if w == 0 {
                    // An empty row reads nothing, so its offset is never used.
                    0
                } else {
                    proof {
                        lemma_rgb888_gap(width, height, stride, data@, 0, y as int);
                    }
                    return None;
                }
            },
        };
        let mut x: usize = 0;
        while x < w
            invariant
                data@.len() <= usize::MAX,
                w == width,
                h == height,
                row_bytes == stride,
                pix == (|x: int, y: int| rgb888_pixel(data@, stride, x, y)),
                y < h,
                x <= w,
                w > 0 ==> src_row == y * row_bytes,
                buf@ == raster(w as int, y * w + x, pix),
                forall|xx: int, yy: int|
                    0 <= xx < w && 0 <= yy < y ==> #[trigger] rgb888_pixel_present(
                        data@,
                        stride,
                        xx,
                        yy,
                    ),
                forall|xx: int|
                    0 <= xx < x ==> #[trigger] rgb888_pixel_present(data@, stride, xx, y as int),
            decreases w - x,
        {
            assert(rgb888_offset(stride, x as int, y as int) == src_row + 3 * x);
            let s = match x.checked_mul(3) {
                Some(x3) => match src_row.checked_add(x3) {
                    Some(s) => s,
                    None => {
                        proof {
                            lemma_rgb888_gap(width, height, stride, data@, x as int, y as int);
                        }
                        return None;
                    },
                },
                None => {
                    proof {
                        lemma_rgb888_gap(width, height, stride, data@, x as int, y as int);
                    }
                    return None;
                },
            };
            if s >= data.len() || data.len() - s < 3 {
                proof {
                    lemma_rgb888_gap(width, height, stride, data@, x as int, y as int);
                }
                return None;
            }
            let r = data[s];
            let g = data[s + 1];
            let b = data[s + 2];
            assert(rgb888_pixel_present(data@, stride, x as int, y as int));
            assert(seq![r, g, b] =~= pix(x as int, y as int));
            proof {
                lemma_raster_push(w as int, y * w + x, pix, x as int, y as int);
            }
            buf.push(r);
            buf.push(g);
            buf.push(b);
            assert(buf@ =~= raster(w as int, y * w + x, pix) + seq![r, g, b]);
            x += 1;
        }
        proof {
            lemma_next_row(w as int, y as int);
        }
        y += 1;
    }
    assert(rgb888_decodes(width, height, stride, data@));
    assert(3 * (h * w) == 3 * width * height) by (nonlinear_arith)
        requires
            w == width,
            h == height,
    ;
    proof {
        lemma_one_row_fits(width, height);
    }
    rgb_image_from_raw(width, height, buf)
}

// ---------------------------------------------------------------------------
// I420 / YU12 / YV12: three planes, Y at full resolution, U and V at half
// resolution in both directions.
// ---------------------------------------------------------------------------

/// Bytes per row of the chroma planes: the U plane's length spread over
/// `height / 2` rows when it holds at least that many bytes, otherwise half
/// the width rounded up.
pub open spec fn i420_uv_stride(width: u32, height: u32, u_len: int) -> int {
    if height / 2 > 0 && u_len >= (height / 2) as int {
        u_len / ((height / 2) as int)
    } else {
        (width + 1) / 2
    }
}

/// The geometry checks made before any sample is read.
pub open spec fn i420_layout_ok(width: u32, height: u32, y_stride: u32) -> bool {
    width > 0 && height > 0 && y_stride >= width
}

/// Offset of the chroma sample that covers pixel `(x, y)`.
pub open spec fn i420_uv_offset(uv_stride: int, x: int, y: int) -> int {
    (y / 2) * uv_stride + x / 2
}

/// Every byte that pixel `(x, y)` reads lies inside its plane.
pub open spec fn i420_pixel_present(
    y_plane: Seq<u8>,
    u_plane: Seq<u8>,
    v_plane: Seq<u8>,
    y_stride: u32,
    uv_stride: int,
    x: int,
    y: int,
) -> bool {
    &&& y * y_stride + x < y_plane.len()
    &&& i420_uv_offset(uv_stride, x, y) < u_plane.len()
    &&& i420_uv_offset(uv_stride, x, y) < v_plane.len()
}

/// The RGB value of pixel `(x, y)`.
pub open spec fn i420_pixel(
    y_plane: Seq<u8>,
    u_plane: Seq<u8>,
    v_plane: Seq<u8>,
    y_stride: u32,
    uv_stride: int,
    x: int,
    y: int,
) -> Seq<u8> {
    let c = i420_uv_offset(uv_stride, x, y);
    bt601_rgb(y_plane[y * y_stride + x], u_plane[c], v_plane[c])
}

/// The whole frame can be decoded.
pub open spec fn i420_decodes(
    width: u32,
    height: u32,
    y_stride: u32,
    y_plane: Seq<u8>,
    u_plane: Seq<u8>,
    v_plane: Seq<u8>,
) -> bool {
    &&& i420_layout_ok(width, height, y_stride)
    &&& forall|x: int, y: int|
        0 <= x < width && 0 <= y < height ==> #[trigger] i420_pixel_present(
            y_plane,
            u_plane,
            v_plane,
            y_stride,
            i420_uv_stride(width, height, u_plane.len() as int),
            x,
            y,
        )
}

/// The decoded planar frame, as interleaved RGB samples.
pub open spec fn i420_samples(
    width: u32,
    height: u32,
    y_stride: u32,
    y_plane: Seq<u8>,
    u_plane: Seq<u8>,
    v_plane: Seq<u8>,
) -> Seq<u8> {
    let uvs = i420_uv_stride(width, height, u_plane.len() as int);
    raster(
        width as int,
        width * height,
        |x: int, y: int| i420_pixel(y_plane, u_plane, v_plane, y_stride, uvs, x, y),
    )
}

proof fn lemma_i420_gap(
    width: u32,
    height: u32,
    y_stride: u32,
    y_plane: Seq<u8>,
    u_plane: Seq<u8>,
    v_plane: Seq<u8>,
    x: int,
    y: int,
)
    requires
        0 <= x < width,
        0 <= y < height,
        !i420_pixel_present(
            y_plane,
            u_plane,
            v_plane,
            y_stride,
            i420_uv_stride(width, height, u_plane.len() as int),
            x,
            y,
        ),
    ensures
        !i420_decodes(width, height, y_stride, y_plane, u_plane, v_plane),
{
}

/// Decode a three-plane I420 / YU12 frame (pass the planes as V, U for YV12).
pub fn i420_to_rgb(
    width: u32,
    height: u32,
    y_stride: u32,
    y_plane: &[u8],
    u_plane: &[u8],
    v_plane: &[u8],
) -> (out: Option<RgbFrame>)
    requires
        i420_layout_ok(width, height, y_stride) ==> 3 * width * height <= usize::MAX,
    ensures
        out.is_some() <==> i420_decodes(width, height, y_stride, y_plane@, u_plane@, v_plane@),
        out.is_some() ==> rgb_frame_samples(out.unwrap()) == i420_samples(
            width,
            height,
            y_stride,
            y_plane@,
            u_plane@,
            v_plane@,
        ),
        out.is_some() ==> rgb_frame_size(out.unwrap()) == seq![width, height],
{
    let w = width as usize;
    let h = height as usize;
    let ys = y_stride as usize;
    if w == 0 || h == 0 || ys < w {
        return None;
    }
    let uv_h = h / 2;
    let uv_stride = if uv_h > 0 && u_plane.len() >= uv_h {
        u_plane.len() / uv_h
    } else {
        w / 2 + w % 2
    };
    let ghost uvs = i420_uv_stride(width, height, u_plane@.len() as int);
    let ghost pix = |x: int, y: int| i420_pixel(y_plane@, u_plane@, v_plane@, y_stride, uvs, x, y);
    assert(uv_stride == uvs);
    assert(w * h * 3 <= usize::MAX) by (nonlinear_arith)
        requires
            3 * width * height <= usize::MAX,
            w == width,
            h == height,
    ;
    assert(y_plane@.len() == y_plane.len() && u_plane@.len() == u_plane.len());
    assert(v_plane@.len() == v_plane.len());
    let mut buf: Vec<u8> = Vec::with_capacity(w * h * 3);
    let mut row: usize = 0;
    while row < h
        invariant
            0 < w,
            y_plane@.len() <= usize::MAX,
            u_plane@.len() <= usize::MAX,
            v_plane@.len() <= usize::MAX,
            w == width,
            h == height,
            ys == y_stride,
            uv_stride == uvs,
            uvs == i420_uv_stride(width, height, u_plane@.len() as int),
            pix == (|x: int, y: int| i420_pixel(y_plane@, u_plane@, v_plane@, y_stride, uvs, x, y)),
            row <= h,
            buf@ == raster(w as int, row * w, pix),
            forall|xx: int, yy: int|
                0 <= xx < w && 0 <= yy < row ==> #[trigger] i420_pixel_present(
                    y_plane@,
                    u_plane@,
                    v_plane@,
                    y_stride,
                    uvs,
                    xx,
                    yy,
                ),
        decreases h - row,
    {
        let y_row = match row.checked_mul(ys) {
            Some(r) => r,
            None => {
                proof {
                    lemma_i420_gap(width, height, y_stride, y_plane@, u_plane@, v_plane@, 0, row as int);
                }
                return None;
            },
        };
        let uv_row = match (row / 2).checked_mul(uv_stride) {
            Some(r) => r,
            None => {
                proof {
                    lemma_i420_gap(width, height, y_stride, y_plane@, u_plane@, v_plane@, 0, row as int);
                }
                return None;
            },
        };
        let mut col: usize = 0;
        while col < w
            invariant
                0 < w,
                y_plane@.len() <= usize::MAX,
                u_plane@.len() <= usize::MAX,
                v_plane@.len() <= usize::MAX,
                w == width,
                h == height,
                ys == y_stride,
                uv_stride == uvs,
                uvs == i420_uv_stride(width, height, u_plane@.len() as int),
                pix == (|x: int, y: int|
                    i420_pixel(y_plane@, u_plane@, v_plane@, y_stride, uvs, x, y)),
                row < h,
                col <= w,
                y_row == row * ys,
                uv_row == (row / 2) * uv_stride,
                buf@ == raster(w as int, row * w + col, pix),
                forall|xx: int, yy: int|
                    0 <= xx < w && 0 <= yy < row ==> #[trigger] i420_pixel_present(
                        y_plane@,
                        u_plane@,
                        v_plane@,
                        y_stride,
                        uvs,
                        xx,
                        yy,
                    ),
                forall|xx: int|
                    0 <= xx < col ==> #[trigger] i420_pixel_present(
                        y_plane@,
                        u_plane@,
                        v_plane@,
                        y_stride,
                        uvs,
                        xx,
                        row as int,
                    ),
            decreases w - col,
        {
            let yi = match y_row.checked_add(col) {
                Some(i) => match y_plane.get(i) {
                    Some(b) => *b,
                    None => {
                        proof {
                            lemma_i420_gap(width, height, y_stride, y_plane@, u_plane@, v_plane@, col as int, row as int);
                        }
                        return None;
                    },
                },
                None => {
                    proof {
                        lemma_i420_gap(width, height, y_stride, y_plane@, u_plane@, v_plane@, col as int, row as int);
                    }
                    return None;
                },
            };
            let uv_col = col / 2;
            assert(i420_uv_offset(uvs, col as int, row as int) == uv_row + uv_col);
            let c = match uv_row.checked_add(uv_col) {
                Some(i) => i,
                None => {
                    proof {
                        lemma_i420_gap(width, height, y_stride, y_plane@, u_plane@, v_plane@, col as int, row as int);
                    }
                    return None;
                },
            };
            let u = match u_plane.get(c) {
                Some(b) => *b,
                None => {
                    proof {
                        lemma_i420_gap(width, height, y_stride, y_plane@, u_plane@, v_plane@, col as int, row as int);
                    }
                    return None;
                },
            };
            let v = match v_plane.get(c) {
                Some(b) => *b,
                None => {
                    proof {
                        lemma_i420_gap(width, height, y_stride, y_plane@, u_plane@, v_plane@, col as int, row as int);
                    }
                    return None;
                },
            };
            assert(i420_pixel_present(y_plane@, u_plane@, v_plane@, y_stride, uvs, col as int, row as int));
            let rgb = yuv_to_rgb_bt601(yi, u, v);
            assert(rgb@ == pix(col as int, row as int));
            proof {
                lemma_raster_push(w as int, row * w + col, pix, col as int, row as int);
            }
            buf.push(rgb[0]);
            buf.push(rgb[1]);
            buf.push(rgb[2]);
            assert(buf@ =~= raster(w as int, row * w + col, pix) + rgb@);
            col += 1;
        }
        proof {
            lemma_next_row(w as int, row as int);
        }
        row += 1;
    }
    assert(i420_decodes(width, height, y_stride, y_plane@, u_plane@, v_plane@));
    assert(3 * (h * w) == 3 * width * height) by (nonlinear_arith)
        requires
            w == width,
            h == height,
    ;
    proof {
        lemma_one_row_fits(width, height);
    }
    rgb_image_from_raw(width, height, buf)
}

/// Bytes per row of the chroma planes in a single I420 buffer: `(stride + 1) / 2`.
pub open spec fn i420_single_uv_stride(stride: u32) -> int {
    (stride + 1) / 2
}

/// Size of the Y plane of a single I420 buffer: `stride * height`.
pub open spec fn i420_single_y_size(stride: u32, height: u32) -> int {
    stride * height
}

/// Size of each chroma plane of a single I420 buffer.
pub open spec fn i420_single_uv_size(stride: u32, height: u32) -> int {
    i420_single_uv_stride(stride) * (height / 2)
}

/// A single buffer holds the Y plane and both chroma planes.
pub open spec fn i420_single_fits(stride: u32, height: u32, data: Seq<u8>) -> bool {
    data.len() >= i420_single_y_size(stride, height) + 2 * i420_single_uv_size(stride, height)
}

/// The `index`-th plane (0 = Y, 1 = first chroma, 2 = second chroma) of a
/// single I420 buffer.
pub open spec fn i420_single_plane_at(stride: u32, height: u32, data: Seq<u8>, index: int) -> Seq<
    u8,
> {
    let y_size = i420_single_y_size(stride, height);
    let uv_size = i420_single_uv_size(stride, height);
    if index == 0 {
        data.subrange(0, y_size)
    } else if index == 1 {
        data.subrange(y_size, y_size + uv_size)
    } else {
        data.subrange(y_size + uv_size, y_size + 2 * uv_size)
    }
}

/// Decode I420 held in one contiguous buffer: Y (`stride` × `height`), then U,
/// then V (each `(stride + 1) / 2` × `height / 2`). With `swap_uv` the chroma
/// planes are taken in the order V, U (YV12).
pub fn i420_single_plane(width: u32, height: u32, stride: u32, data: &[u8], swap_uv: bool) -> (out:
    Option<RgbFrame>)
    requires
        i420_single_fits(stride, height, data@) && i420_layout_ok(width, height, stride) ==> 3
            * width * height <= usize::MAX,
    ensures
        ({
            let yp = i420_single_plane_at(stride, height, data@, 0);
            let up = i420_single_plane_at(stride, height, data@, if swap_uv { 2 } else { 1 });
            let vp = i420_single_plane_at(stride, height, data@, if swap_uv { 1 } else { 2 });
            &&& out.is_some() <==> i420_single_fits(stride, height, data@) && i420_decodes(
                width,
                height,
                stride,
                yp,
                up,
                vp,
            )
            &&& out.is_some() ==> rgb_frame_samples(out.unwrap()) == i420_samples(
                width,
                height,
                stride,
                yp,
                up,
                vp,
            )
            &&& out.is_some() ==> rgb_frame_size(out.unwrap()) == seq![width, height]
        }),
{
    let h = height as usize;
    let ys = stride as usize;
    let uv_stride = ys / 2 + ys % 2;
    assert(data@.len() == data.len());
    let y_size = match ys.checked_mul(h) {
        Some(n) => n,
        None => return None,
    };
    let uv_size = match uv_stride.checked_mul(h / 2) {
        Some(n) => n,
        None => {
            assert(i420_single_uv_size(stride, height) <= i420_single_y_size(stride, height)) by (
            nonlinear_arith)
                requires
                    uv_stride == (stride + 1) / 2,
                    ys == stride,
                    h == height,
            ;
            return None;
        },
    };
    let needed = match uv_size.checked_mul(2) {
        Some(n) => match y_size.checked_add(n) {
            Some(t) => t,
            None => return None,
        },
        None => return None,
    };
    if data.len() < needed {
        return None;
    }
    let y_plane = slice_subrange(data, 0, y_size);
    let u_start = y_size;
    let v_start = y_size + uv_size;
    let (u_plane, v_plane) = if swap_uv {
        (slice_subrange(data, v_start, v_start + uv_size), slice_subrange(data, u_start, u_start + uv_size))
    } else {
        (slice_subrange(data, u_start, u_start + uv_size), slice_subrange(data, v_start, v_start + uv_size))
    };
    i420_to_rgb(width, height, stride, y_plane, u_plane, v_plane)
}

/// The buffer begins with the JPEG start-of-image marker `FF D8`.
pub open spec fn starts_with_jpeg_soi(data: Seq<u8>) -> bool {
    data.len() >= 2 && data[0] == 0xff && data[1] == 0xd8
}

/// Whether `data` begins with the JPEG start-of-image marker.
pub fn is_jpeg_magic(data: &[u8]) -> (r: bool)
    ensures
        r == starts_with_jpeg_soi(data@),
{
    data.len() >= 2 && data[0] == 0xff && data[1] == 0xd8
}

// ---------------------------------------------------------------------------
// Choosing the decoder by pixel format.
// ---------------------------------------------------------------------------

/// DRM/V4L2 fourcc `NV12` (little-endian).
pub const FOURCC_NV12: u32 = 0x3231_564e;

/// DRM/V4L2 fourcc `NV21` (little-endian).
pub const FOURCC_NV21: u32 = 0x3132_564e;

/// DRM/V4L2 fourcc `MJPG` (little-endian).
pub const FOURCC_MJPG: u32 = 0x4750_4a4d;

/// DRM/V4L2 fourcc `YUYV` (little-endian).
pub const FOURCC_YUYV: u32 = 0x5659_5559;

/// DRM fourcc `RG24` (packed RGB888, little-endian).
pub const FOURCC_RG24: u32 = 0x3432_4752;

/// DRM/V4L2 fourcc `YU12` (planar Y, U, V; little-endian).
pub const FOURCC_YU12: u32 = 0x3231_5559;

/// Fourcc `I420`, the same layout as `YU12` (little-endian).
pub const FOURCC_I420: u32 = 0x3032_3449;

/// DRM/V4L2 fourcc `YV12` (planar Y, V, U; little-endian).
pub const FOURCC_YV12: u32 = 0x3231_5659;

/// A captured frame made ready to be written out as a JPEG file.
pub enum EncodedFrame {
    /// The bytes are already JPEG and are written as they are.
    Jpeg(Vec<u8>),
    /// Decoded pixels, to be encoded as JPEG.
    Rgb(RgbFrame),
}

/// Why a captured buffer could not be turned into an image.
#[derive(Debug, Clone, PartialEq, Eq)]
pub enum FrameError {
    /// The pixel format is MJPEG (or the first plane looks like JPEG) but the
    /// joined planes do not start with the JPEG start-of-image marker.
    NotJpeg,
    /// No decoder exists for this fourcc.
    UnsupportedFormat(u32),
    /// The buffer is too small or malformed for its declared geometry.
    ConversionFailed { fourcc: u32, planes: usize, width: u32, height: u32, stride: u32 },
}

/// The bytes of each plane.
pub open spec fn plane_views(planes: Seq<&[u8]>) -> Seq<Seq<u8>> {
    planes.map_values(|p: &[u8]| p@)
}

/// The first plane, or nothing when there is none.
pub open spec fn first_plane(planes: Seq<Seq<u8>>) -> Seq<u8> {
    if planes.len() > 0 {
        planes[0]
    } else {
        Seq::empty()
    }
}

/// The buffer is taken as JPEG: the format says MJPEG or the first plane
/// starts with the JPEG marker.
pub open spec fn is_jpeg_input(fourcc: u32, planes: Seq<Seq<u8>>) -> bool {
    fourcc == FOURCC_MJPG || starts_with_jpeg_soi(first_plane(planes))
}

/// The raw pixel formats that have a decoder.
pub open spec fn is_raw_format(fourcc: u32) -> bool {
    ||| fourcc == FOURCC_NV12
    ||| fourcc == FOURCC_NV21
    ||| fourcc == FOURCC_YU12
    ||| fourcc == FOURCC_I420
    ||| fourcc == FOURCC_YV12
    ||| fourcc == FOURCC_YUYV
    ||| fourcc == FOURCC_RG24
}

/// The row stride used for decoding: the reported one, or the width when the
/// camera reports none.
pub open spec fn effective_stride(width: u32, stride: u32) -> u32 {
    if stride > 0 {
        stride
    } else {
        width
    }
}

/// The RGB samples that a raw-format buffer decodes to, or `None` when it
/// cannot be decoded. Formats with separate planes use them when enough are
/// given; otherwise the first plane holds the whole frame.
pub open spec fn raw_decode(
    fourcc: u32,
    width: u32,
    height: u32,
    stride: u32,
    planes: Seq<Seq<u8>>,
) -> Option<Seq<u8>> {
    let p0 = planes[0];
    if fourcc == FOURCC_NV12 || fourcc == FOURCC_NV21 {
        let swap = fourcc == FOURCC_NV21;
        if planes.len() >= 2 {
            if nv12_decodes(width, height, stride, p0, planes[1]) {
                Some(nv12_samples(width, height, stride, p0, planes[1], swap))
            } else {
                None
            }
        } else {
            let yp = nv12_single_y_plane(stride, height, p0);
            let uvp = nv12_single_uv_plane(stride, height, p0);
            if nv12_single_fits(stride, height, p0) && nv12_decodes(width, height, stride, yp, uvp) {
                Some(nv12_samples(width, height, stride, yp, uvp, swap))
            } else {
                None
            }
        }
    } else if fourcc == FOURCC_YU12 || fourcc == FOURCC_I420 || fourcc == FOURCC_YV12 {
        let swap = fourcc == FOURCC_YV12;
        if planes.len() >= 3 {
            let up = if swap { planes[2] } else { planes[1] };
            let vp = if swap { planes[1] } else { planes[2] };
            if i420_decodes(width, height, stride, p0, up, vp) {
                Some(i420_samples(width, height, stride, p0, up, vp))
            } else {
                None
            }
        } else {
            let yp = i420_single_plane_at(stride, height, p0, 0);
            let up = i420_single_plane_at(stride, height, p0, if swap { 2 } else { 1 });
            let vp = i420_single_plane_at(stride, height, p0, if swap { 1 } else { 2 });
            if i420_single_fits(stride, height, p0) && i420_decodes(width, height, stride, yp, up, vp) {
                Some(i420_samples(width, height, stride, yp, up, vp))
            } else {
                None
            }
        }
    } else if fourcc == FOURCC_YUYV {
        if yuyv_decodes(width, height, stride, p0) {
            Some(yuyv_samples(width, height, stride, p0))
        } else {
            None
        }
    } else {
        if rgb888_decodes(width, height, stride, p0) {
            Some(rgb888_samples(width, height, stride, p0))
        } else {
            None
        }
    }
}

/// The geometry checks of the decoder that a raw format uses pass, so that
/// it goes on to fill a frame of `width` × `height` pixels.
pub open spec fn raw_layout_ok(
    fourcc: u32,
    width: u32,
    height: u32,
    stride: u32,
    planes: Seq<Seq<u8>>,
) -> bool {
    let p0 = planes[0];
    if fourcc == FOURCC_NV12 || fourcc == FOURCC_NV21 {
        if planes.len() >= 2 {
            nv12_layout_ok(width, height, stride, planes[1].len() as int)
        } else {
            nv12_single_fits(stride, height, p0) && nv12_layout_ok(
                width,
                height,
                stride,
                nv12_single_uv_size(stride, height),
            )
        }
    } else if fourcc == FOURCC_YU12 || fourcc == FOURCC_I420 || fourcc == FOURCC_YV12 {
        if planes.len() >= 3 {
            i420_layout_ok(width, height, stride)
        } else {
            i420_single_fits(stride, height, p0) && i420_layout_ok(width, height, stride)
        }
    } else if fourcc == FOURCC_YUYV {
        yuyv_layout_ok(width, height, stride)
    } else {
        rgb888_layout_ok(width, height, stride)
    }
}

/// What decoding a captured buffer yields: the joined planes when they are
/// JPEG, the decoded pixels for a raw format, or the reason neither works.
pub open spec fn decode_frame_ok(
    fourcc: u32,
    width: u32,
    height: u32,
    stride: u32,
    planes: Seq<Seq<u8>>,
    result: Result<EncodedFrame, FrameError>,
) -> bool {
    let se = effective_stride(width, stride);
    match result {
        Ok(EncodedFrame::Jpeg(bytes)) => {
            &&& is_jpeg_input(fourcc, planes)
            &&& starts_with_jpeg_soi(planes.flatten())
            &&& bytes@ == planes.flatten()
        },
        Ok(EncodedFrame::Rgb(frame)) => {
            &&& !is_jpeg_input(fourcc, planes)
            &&& is_raw_format(fourcc)
            &&& raw_decode(fourcc, width, height, se, planes) == Some(rgb_frame_samples(frame))
            &&& rgb_frame_size(frame) == seq![width, height]
        },
        Err(FrameError::NotJpeg) => {
            &&& is_jpeg_input(fourcc, planes)
            &&& !starts_with_jpeg_soi(planes.flatten())
        },
        Err(FrameError::UnsupportedFormat(f)) => {
            &&& f == fourcc
            &&& !is_jpeg_input(fourcc, planes)
            &&& !is_raw_format(fourcc)
        },
        Err(FrameError::ConversionFailed { fourcc: f, planes: n, width: w, height: h, stride: s }) => {
            &&& !is_jpeg_input(fourcc, planes)
            &&& is_raw_format(fourcc)
            &&& raw_decode(fourcc, width, height, se, planes) is None
            &&& f == fourcc && n == planes.len() && w == width && h == height && s == se
        },
    }
}

/// Turn the planes of a captured buffer into what is written as the JPEG
/// file: the bytes themselves when they already are JPEG (MJPEG), otherwise
/// the pixels decoded according to `fourcc` and the stream geometry.
pub fn decode_frame(fourcc: u32, width: u32, height: u32, stride: u32, plane_data: &[&[u8]]) -> (result:
    Result<EncodedFrame, FrameError>)
    requires
        !is_jpeg_input(fourcc, plane_views(plane_data@)) && is_raw_format(fourcc) ==> {
            &&& plane_data@.len() >= 1
            &&& raw_layout_ok(
                fourcc,
                width,
                height,
                effective_stride(width, stride),
                plane_views(plane_data@),
            ) ==> 3 * width * height <= usize::MAX
        },
    ensures
        decode_frame_ok(fourcc, width, height, stride, plane_views(plane_data@), result),
{
    let ghost planes = plane_views(plane_data@);
    let first: &[u8] = if plane_data.len() > 0 {
        plane_data[0]
    } else {
        &[]
    };
    assert(first@ =~= first_plane(planes));
    if fourcc == FOURCC_MJPG || is_jpeg_magic(first) {
        let mut raw: Vec<u8> = Vec::new();
        let mut i: usize = 0;
        while i < plane_data.len()
            invariant
                planes == plane_views(plane_data@),
                i <= plane_data@.len(),
                raw@ == planes.take(i as int).flatten(),
            decreases plane_data@.len() - i,
        {
            let plane: &[u8] = plane_data[i];
            let ghost before = raw@;
            raw.extend_from_slice(plane);
            proof {
                assert(raw@ =~= before + plane@);
                assert(planes.take(i + 1) =~= planes.take(i as int).push(plane@));
                planes.take(i as int).lemma_flatten_push(plane@);
            }
            i += 1;
        }
        assert(planes.take(plane_data@.len() as int) =~= planes);
        if is_jpeg_magic(raw.as_slice()) {
            return Ok(EncodedFrame::Jpeg(raw));
        } else {
            return Err(FrameError::NotJpeg);
        }
    }
    let stride_eff = if stride > 0 {
        stride
    } else {
        width
    };
    let img = if fourcc == FOURCC_NV12 || fourcc == FOURCC_NV21 {
        let swap = fourcc == FOURCC_NV21;
        if plane_data.len() >= 2 {
            nv12_to_rgb(width, height, stride_eff, plane_data[0], plane_data[1], swap)
        } else {
            nv12_single_plane(width, height, stride_eff, plane_data[0], swap)
        }
    } else if fourcc == FOURCC_YU12 || fourcc == FOURCC_I420 {
        if plane_data.len() >= 3 {
            i420_to_rgb(width, height, stride_eff, plane_data[0], plane_data[1], plane_data[2])
        } else {
            i420_single_plane(width, height, stride_eff, plane_data[0], false)
        }
    } else if fourcc == FOURCC_YV12 {
        if plane_data.len() >= 3 {
            i420_to_rgb(width, height, stride_eff, plane_data[0], plane_data[2], plane_data[1])
        } else {
            i420_single_plane(width, height, stride_eff, plane_data[0], true)
        }
    } else if fourcc == FOURCC_YUYV {
        yuyv_to_rgb(width, height, stride_eff, plane_data[0])
    } else if fourcc == FOURCC_RG24 {
        rgb888_packed(width, height, stride_eff, plane_data[0])
    } else {
        return Err(FrameError::UnsupportedFormat(fourcc));
    };
    match img {
        Some(frame) => Ok(EncodedFrame::Rgb(frame)),
        None => Err(
            FrameError::ConversionFailed {
                fourcc,
                planes: plane_data.len(),
                width,
                height,
                stride: stride_eff,
            },
        ),
    }
}

} // verus!
