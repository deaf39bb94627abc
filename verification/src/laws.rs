//! Laws that span the library's functions.

use vstd::prelude::*;

use crate::camera::{
    decode_frame_ok, i420_pixel, i420_single_fits, i420_single_plane_at, i420_uv_stride,
    nv12_pixel, nv12_single_fits, nv12_single_uv_plane, nv12_single_y_plane, nv12_uv_stride,
    raw_decode, yuyv_pixel, EncodedFrame, FrameError, FOURCC_I420, FOURCC_NV12, FOURCC_NV21,
    FOURCC_YU12, FOURCC_YUYV, FOURCC_YV12,
};
use crate::crypto::{
    hex_32_prefix, hex_bytes, is_hex_text, lemma_hex_lower_round_trip, schnorr_verify,
};
use crate::json::json_field_string_lists_of;
use crate::signer::{event_digest, verify_event_result, NostreyeSigner, SignedEvent, SignerError};
use crate::pixel::bt601_rgb;
use crate::raster::lemma_raster_pixel;
use crate::text::hex_lower;

verus! {

/// The lowercase hex of 32 bytes reads back as those bytes when taken as a
/// key or an id.
proof fn lemma_hex_32_round_trip(bytes: Seq<u8>)
    requires
        bytes.len() == 32,
    ensures
        hex_32_prefix(hex_lower(bytes)) == Some(bytes),
{
    lemma_hex_lower_round_trip(bytes);
    assert(hex_lower(bytes).take(64) =~= hex_lower(bytes));
}

/// An event that the device signed, its id committing to the tags that its
/// JSON lists, passes the check: its id is recomputed from its fields and
/// those tags, and its signature verifies under its key.
pub proof fn law_device_signed_event_verifies(
    signer: NostreyeSigner,
    event: SignedEvent,
    created_at: u64,
    kind: u64,
    tags: Seq<Seq<Seq<char>>>,
    content: Seq<char>,
)
    requires
        signer.signs(event, created_at, kind, tags, tags, content),
        json_field_string_lists_of(event.json@, "tags"@) == Some(Some(tags)),
    ensures
        verify_event_result(event) == Some(Ok::<bool, SignerError>(true)),
{
    let digest = event_digest(signer.pubkey(), created_at, kind, tags, content);
    let sig = signer.schnorr_signature(digest)->0;
    lemma_hex_32_round_trip(signer.key());
    lemma_hex_32_round_trip(digest);
    lemma_hex_lower_round_trip(sig);
}

/// Every decoded frame has three samples per pixel.
pub proof fn law_decoded_frame_size(
    fourcc: u32,
    width: u32,
    height: u32,
    stride: u32,
    planes: Seq<Seq<u8>>,
    samples: Seq<u8>,
)
    requires
        raw_decode(fourcc, width, height, stride, planes) == Some(samples),
    ensures
        samples.len() == 3 * (width * height),
{
}

/// YV12 is I420 with the two chroma planes in the other order, given as
/// separate planes or in one buffer.
pub proof fn law_yv12_is_i420_with_swapped_chroma(
    width: u32,
    height: u32,
    stride: u32,
    y: Seq<u8>,
    u: Seq<u8>,
    v: Seq<u8>,
    buffer: Seq<u8>,
)
    ensures
        raw_decode(FOURCC_YV12, width, height, stride, seq![y, v, u]) == raw_decode(
            FOURCC_I420,
            width,
            height,
            stride,
            seq![y, u, v],
        ),
        i420_single_fits(stride, height, buffer) ==> raw_decode(
            FOURCC_YV12,
            width,
            height,
            stride,
            seq![buffer],
        ) == raw_decode(
            FOURCC_I420,
            width,
            height,
            stride,
            seq![
                i420_single_plane_at(stride, height, buffer, 0),
                i420_single_plane_at(stride, height, buffer, 2),
                i420_single_plane_at(stride, height, buffer, 1),
            ],
        ),
{
}

/// An NV12 or NV21 frame held in one buffer decodes as the Y plane and the
/// chroma plane cut out of it, given as separate planes; a buffer too short
/// for both planes does not decode.
pub proof fn law_nv12_single_buffer_is_two_planes(
    fourcc: u32,
    width: u32,
    height: u32,
    stride: u32,
    buffer: Seq<u8>,
)
    requires
        fourcc == FOURCC_NV12 || fourcc == FOURCC_NV21,
    ensures
        nv12_single_fits(stride, height, buffer) ==> raw_decode(
            fourcc,
            width,
            height,
            stride,
            seq![buffer],
        ) == raw_decode(
            fourcc,
            width,
            height,
            stride,
            seq![
                nv12_single_y_plane(stride, height, buffer),
                nv12_single_uv_plane(stride, height, buffer),
            ],
        ),
        !nv12_single_fits(stride, height, buffer) ==> raw_decode(
            fourcc,
            width,
            height,
            stride,
            seq![buffer],
        ) is None,
{
}

/// An I420 frame held in one buffer decodes as the Y, U and V planes cut out
/// of it, given as separate planes; a buffer too short for the three planes
/// does not decode.
pub proof fn law_i420_single_buffer_is_three_planes(
    width: u32,
    height: u32,
    stride: u32,
    buffer: Seq<u8>,
)
    ensures
        i420_single_fits(stride, height, buffer) ==> raw_decode(
            FOURCC_I420,
            width,
            height,
            stride,
            seq![buffer],
        ) == raw_decode(
            FOURCC_I420,
            width,
            height,
            stride,
            seq![
                i420_single_plane_at(stride, height, buffer, 0),
                i420_single_plane_at(stride, height, buffer, 1),
                i420_single_plane_at(stride, height, buffer, 2),
            ],
        ),
        !i420_single_fits(stride, height, buffer) ==> raw_decode(
            FOURCC_I420,
            width,
            height,
            stride,
            seq![buffer],
        ) is None,
{
}

/// A stride of zero means a stride equal to the width: decoding a buffer
/// with either gives the same outcome.
pub proof fn law_zero_stride_is_width(
    fourcc: u32,
    width: u32,
    height: u32,
    planes: Seq<Seq<u8>>,
    result: Result<EncodedFrame, FrameError>,
)
    ensures
        decode_frame_ok(fourcc, width, height, 0, planes, result) == decode_frame_ok(
            fourcc,
            width,
            height,
            width,
            planes,
            result,
        ),
{
}

/// Pixel `(x, y)` of a frame `width` pixels wide has its samples at
/// `3 * (y * width + x)`, which lies inside a frame of `height` rows.
proof fn lemma_pixel_inside(width: u32, height: u32, x: int, y: int)
    requires
        0 <= x < width,
        0 <= y < height,
    ensures
        y * width + x < width * height,
        0 <= y * width + x,
{
    assert(y * width + x < width * height) by (nonlinear_arith)
        requires
            0 <= x < width,
            0 <= y < height,
    ;
    assert(0 <= y * width) by (nonlinear_arith)
        requires
            0 <= y,
    ;
}

/// YU12 is another name for I420: a buffer decodes the same under either,
/// the chroma planes taken in the order U, V (only YV12 swaps them).
pub proof fn law_yu12_is_i420(width: u32, height: u32, stride: u32, planes: Seq<Seq<u8>>)
    ensures
        raw_decode(FOURCC_YU12, width, height, stride, planes) == raw_decode(
            FOURCC_I420,
            width,
            height,
            stride,
            planes,
        ),
{
}

/// In a decoded I420 (or YU12) frame given as Y, U and V planes, pixel
/// `(x, y)` takes its luma from byte `y * stride + x` of the Y plane, and
/// its U and V from the same offset of the U and V planes: column
/// `floor(x / 2)` of chroma row `floor(y / 2)`.
pub proof fn law_i420_pixel_reads_its_planes(
    fourcc: u32,
    width: u32,
    height: u32,
    stride: u32,
    y_plane: Seq<u8>,
    u_plane: Seq<u8>,
    v_plane: Seq<u8>,
    samples: Seq<u8>,
    x: int,
    y: int,
)
    requires
        fourcc == FOURCC_I420 || fourcc == FOURCC_YU12,
        raw_decode(fourcc, width, height, stride, seq![y_plane, u_plane, v_plane]) == Some(
            samples,
        ),
        0 <= x < width,
        0 <= y < height,
    ensures
        ({
            let rows = (height / 2) as int;
            let uvs: int = if rows > 0 && u_plane.len() >= rows {
                u_plane.len() as int / rows
            } else {
                (width + 1) / 2
            };
            let c = (y / 2) * uvs + x / 2;
            samples.subrange(3 * (y * width + x), 3 * (y * width + x) + 3) == bt601_rgb(
                y_plane[y * stride + x],
                u_plane[c],
                v_plane[c],
            )
        }),
{
    let uvs = i420_uv_stride(width, height, u_plane.len() as int);
    let pix = |xx: int, yy: int| i420_pixel(y_plane, u_plane, v_plane, stride, uvs, xx, yy);
    lemma_pixel_inside(width, height, x, y);
    lemma_raster_pixel(width as int, width * height, pix, x, y);
}

/// In a decoded NV12 or NV21 frame, pixel `(x, y)` takes its luma from byte
/// `y * stride + x` of the Y plane and its chroma from the pair at byte
/// `2 * floor(x / 2)` of chroma row `floor(y / 2)`, so columns `2k` and
/// `2k + 1` share the `k`-th pair; NV12 stores the pair as U, V and NV21 as
/// V, U.
pub proof fn law_nv12_pixels_share_chroma_pairs(
    fourcc: u32,
    width: u32,
    height: u32,
    stride: u32,
    y_plane: Seq<u8>,
    uv_plane: Seq<u8>,
    samples: Seq<u8>,
    x: int,
    y: int,
)
    requires
        fourcc == FOURCC_NV12 || fourcc == FOURCC_NV21,
        raw_decode(fourcc, width, height, stride, seq![y_plane, uv_plane]) == Some(samples),
        0 <= x < width,
        0 <= y < height,
    ensures
        ({
            let rows = (height / 2) as int;
            let uvs: int = if rows > 0 {
                uv_plane.len() as int / rows
            } else {
                width as int
            };
            let c = (y / 2) * uvs + 2 * (x / 2);
            let first = uv_plane[c];
            let second = uv_plane[c + 1];
            samples.subrange(3 * (y * width + x), 3 * (y * width + x) + 3) == if fourcc
                == FOURCC_NV21 {
                bt601_rgb(y_plane[y * stride + x], second, first)
            } else {
                bt601_rgb(y_plane[y * stride + x], first, second)
            }
        }),
{
    let uvs = nv12_uv_stride(width, height, uv_plane.len() as int);
    let swap = fourcc == FOURCC_NV21;
    let pix = |xx: int, yy: int| nv12_pixel(y_plane, uv_plane, stride, uvs, swap, xx, yy);
    lemma_pixel_inside(width, height, x, y);
    lemma_raster_pixel(width as int, width * height, pix, x, y);
}

/// In a decoded YUYV frame, pixel `(x, y)` comes from the four-byte group
/// `Y0 U Y1 V` at `y * stride + 4 * floor(x / 2)` of the buffer, that is
/// from buffer row `y`: its luma is `Y0` for an even column and `Y1` for an
/// odd one, and it shares `U` and `V` with its neighbour in the group.
pub proof fn law_yuyv_pixel_reads_its_row(
    width: u32,
    height: u32,
    stride: u32,
    data: Seq<u8>,
    samples: Seq<u8>,
    x: int,
    y: int,
)
    requires
        raw_decode(FOURCC_YUYV, width, height, stride, seq![data]) == Some(samples),
        0 <= x < width,
        0 <= y < height,
    ensures
        ({
            let g = y * stride + 4 * (x / 2);
            samples.subrange(3 * (y * width + x), 3 * (y * width + x) + 3) == bt601_rgb(
                data[g + 2 * (x % 2)],
                data[g + 1],
                data[g + 3],
            )
        }),
{
    let pix = |xx: int, yy: int| yuyv_pixel(data, stride, xx, yy);
    lemma_pixel_inside(width, height, x, y);
    lemma_raster_pixel(width as int, width * height, pix, x, y);
}

/// An event passes the check only if its signature, read from hex, is a
/// valid BIP-340 signature of its id's 32 bytes under its key's 32 bytes,
/// whatever tags its JSON lists.
pub proof fn law_verified_event_has_valid_signature(event: SignedEvent)
    requires
        verify_event_result(event) == Some(Ok::<bool, SignerError>(true)),
    ensures
        hex_32_prefix(event.pubkey@) is Some,
        hex_32_prefix(event.id@) is Some,
        is_hex_text(event.sig@),
        hex_bytes(event.sig@).len() == 64,
        schnorr_verify(
            hex_bytes(event.sig@),
            hex_32_prefix(event.id@)->0,
            hex_32_prefix(event.pubkey@)->0,
        ),
{
}

} // verus!
