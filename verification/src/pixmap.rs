//! Icon pixels: tray-sized copies of an icon and the bitmaps of a window-system icon.

use vstd::arithmetic::div_mod::{
    lemma_div_by_multiple, lemma_div_pos_is_pos, lemma_fundamental_div_mod,
    lemma_fundamental_div_mod_converse, lemma_multiply_divide_lt,
};
use vstd::prelude::*;
use zbus::zvariant::Value;

use crate::error::TrayError;
use crate::variant::{pixmap_value, pixmap_variant, variant_of, VariantModel};

verus! {

/// A decoded icon: rows from the top, four bytes (blue, green, red, alpha) for each pixel.
pub struct DecodedIcon {
    pub width: u32,
    pub height: u32,
    pub bgra: Vec<u8>,
}

/// One size of an icon, as a status notifier host takes it.
#[derive(Debug)]
pub struct Pixmap {
    pub width: i32,
    pub height: i32,
    pub bytes: Vec<u8>,
}

/// A pixmap as a mathematical value.
pub struct PixmapModel {
    pub width: i32,
    pub height: i32,
    pub bytes: Seq<u8>,
}

impl PixmapModel {
    /// The pixmap as it travels.
    pub open spec fn variant(self) -> VariantModel {
        pixmap_variant(self.width, self.height, self.bytes)
    }
}

impl View for Pixmap {
    type V = PixmapModel;

    open spec fn view(&self) -> PixmapModel {
        PixmapModel { width: self.width, height: self.height, bytes: self.bytes@ }
    }
}

impl Pixmap {
    /// A pixmap of the given size and bytes.
    pub fn new(width: i32, height: i32, bytes: Vec<u8>) -> (pixmap: Self)
        ensures
            pixmap@ == (PixmapModel { width, height, bytes: bytes@ }),
    {
        Self { width, height, bytes }
    }

    /// The pixmap as it travels.
    pub fn to_value(&self) -> (v: Value<'static>)
        ensures
            variant_of(v) == self@.variant(),
    {
        let copy = self.clone();
        pixmap_value(copy.width, copy.height, copy.bytes)
    }
}

impl Clone for Pixmap {
    fn clone(&self) -> (res: Self)
        ensures
            res@ == self@,
    {
        let res = Pixmap { width: self.width, height: self.height, bytes: self.bytes.clone() };
        assert(res.bytes@ =~= self.bytes@);
        res
    }
}

/// The number of bytes of a picture.
pub open spec fn picture_len(w: int, h: int) -> int {
    w * h * 4
}

/// The byte at position `k` of the picture `src` (`sw` by `sh` pixels) scaled to `dw` by
/// `dh` pixels: that of the source pixel whose column and row stand at the same fraction of
/// the width and of the height, rounded down.
pub open spec fn nearest_byte(src: Seq<u8>, sw: int, sh: int, dw: int, dh: int, k: int) -> u8 {
    let pixel = k / 4;
    let row = (pixel / dw) * sh / dh;
    let column = (pixel % dw) * sw / dw;
    src[(row * sw + column) * 4 + k % 4]
}

/// The picture `src` scaled to `dw` by `dh` pixels.
pub open spec fn resized(src: Seq<u8>, sw: int, sh: int, dw: int, dh: int) -> Seq<u8> {
    Seq::new(picture_len(dw, dh) as nat, |k: int| nearest_byte(src, sw, sh, dw, dh, k))
}

/// The position that a row or column of the scaled picture is taken from.
proof fn lemma_source_position(at: int, src: int, dst: int)
    requires
        0 <= at < dst,
        0 < src,
    ensures
        0 <= at * src / dst < src,
{
    assert(0 <= at * src < dst * src) by (nonlinear_arith)
        requires
            0 <= at < dst,
            0 < src,
    ;
    lemma_multiply_divide_lt(at * src, dst, src);
    lemma_div_pos_is_pos(at * src, dst);
}

/// Where the bytes of the pixel in row `y` and column `x` stand in a picture.
proof fn lemma_pixel_position(x: int, y: int, w: int, h: int, c: int)
    requires
        0 <= x < w,
        0 <= y < h,
        0 <= c < 4,
    ensures
        ((y * w + x) * 4 + c) / 4 == y * w + x,
        ((y * w + x) * 4 + c) % 4 == c,
        (y * w + x) / w == y,
        (y * w + x) % w == x,
        0 <= (y * w + x) * 4,
        (y * w + x) * 4 + 4 <= picture_len(w, h),
{
    lemma_fundamental_div_mod_converse(y * w + x, w, y, x);
    assert(0 <= y * w + x && (y * w + x) * 4 + 4 <= w * h * 4) by (nonlinear_arith)
        requires
            0 <= x < w,
            0 <= y < h,
    ;
}

/// Whether a picture of `len` bytes can be scaled.
pub open spec fn can_resize(len: nat, src_w: int, src_h: int, dst_w: int, dst_h: int) -> bool {
    &&& src_w > 0 && src_h > 0 && dst_w > 0 && dst_h > 0
    &&& len == picture_len(src_w, src_h)
}

/// Scales a picture of four bytes for each pixel, taking the nearest source pixel.
pub fn resize_bgra32_nearest(src: &[u8], src_w: u32, src_h: u32, dst_w: u32, dst_h: u32) -> (res:
    Result<Vec<u8>, TrayError>)
    requires
        (src_w > 0 && src_h > 0 && src@.len() == picture_len(src_w as int, src_h as int))
            ==> picture_len(dst_w as int, dst_h as int) <= isize::MAX,
    ensures
        match res {
            Ok(dst) => {
                &&& src_w > 0 && src_h > 0 && dst_w > 0 && dst_h > 0
                &&& src@.len() == picture_len(src_w as int, src_h as int)
                &&& dst@ == resized(
                    src@,
                    src_w as int,
                    src_h as int,
                    dst_w as int,
                    dst_h as int,
                )
            },
            Err(e) => if src_w == 0 || src_h == 0 || dst_w == 0 || dst_h == 0 {
                e == TrayError::InvalidSize
            } else {
                &&& src@.len() != picture_len(src_w as int, src_h as int)
                &&& e matches TrayError::PixelBufferLength { expected }
                &&& expected == picture_len(src_w as int, src_h as int)
            },
        },
        res is Ok <==> can_resize(
            src@.len(),
            src_w as int,
            src_h as int,
            dst_w as int,
            dst_h as int,
        ),
{
    if src_w == 0 || src_h == 0 || dst_w == 0 || dst_h == 0 {
        return Err(TrayError::InvalidSize);
    }
    assert(0 <= src_w * src_h <= 0xffff_ffff * 0xffff_ffff) by (nonlinear_arith)
        requires
            0 <= src_w <= 0xffff_ffff,
            0 <= src_h <= 0xffff_ffff,
    ;
    let expected: u128 = (src_w as u128) * (src_h as u128) * 4;
    if src.len() as u128 != expected {
        return Err(TrayError::PixelBufferLength { expected });
    }
    let ghost sw = src_w as int;
    let ghost sh = src_h as int;
    let ghost dw = dst_w as int;
    let ghost dh = dst_h as int;
    let mut dst: Vec<u8> = Vec::new();
    assert(0 * dw == 0);
    for y in 0..dst_h
        invariant
            sw == src_w && sh == src_h && dw == dst_w && dh == dst_h,
            sw > 0 && sh > 0 && dw > 0 && dh > 0,
            src.len() == picture_len(sw, sh),
            picture_len(dw, dh) <= isize::MAX,
            dst@ == Seq::new(
                ((y * dw) * 4) as nat,
                |k: int| nearest_byte(src@, sw, sh, dw, dh, k),
            ),
    {
        proof {
            assert(y * sh <= 0xffff_ffff * 0xffff_ffff) by (nonlinear_arith)
                requires
                    0 <= y <= 0xffff_ffff,
                    0 <= sh <= 0xffff_ffff,
            ;
            assert(0 <= y * sh) by (nonlinear_arith)
                requires
                    0 <= y,
                    0 <= sh,
            ;
            lemma_source_position(y as int, sh, dh);
            assert(0 <= y * dw) by (nonlinear_arith)
                requires
                    0 <= y,
                    0 <= dw,
            ;
        }
        let sy: u64 = (y as u64) * (src_h as u64) / (dst_h as u64);
        for x in 0..dst_w
            invariant
                sw == src_w && sh == src_h && dw == dst_w && dh == dst_h,
                sw > 0 && sh > 0 && dw > 0 && dh > 0,
                src.len() == picture_len(sw, sh),
                picture_len(dw, dh) <= isize::MAX,
                0 <= y < dh,
                0 <= y * dw,
                sy == y * sh / dh,
                0 <= sy < sh,
                dst@ == Seq::new(
                    ((y * dw + x) * 4) as nat,
                    |k: int| nearest_byte(src@, sw, sh, dw, dh, k),
                ),
        {
            proof {
                assert(0 <= x * sw <= 0xffff_ffff * 0xffff_ffff) by (nonlinear_arith)
                    requires
                        0 <= x <= 0xffff_ffff,
                        0 <= sw <= 0xffff_ffff,
                ;
                lemma_source_position(x as int, sw, dw);
                lemma_pixel_position(x as int, y as int, dw, dh, 0);
                lemma_pixel_position(x as int, y as int, dw, dh, 1);
                lemma_pixel_position(x as int, y as int, dw, dh, 2);
                lemma_pixel_position(x as int, y as int, dw, dh, 3);
            }
            let sx: u64 = (x as u64) * (src_w as u64) / (dst_w as u64);
            proof {
                lemma_pixel_position(sx as int, sy as int, sw, sh, 0);
                assert(0 <= sy * sw) by (nonlinear_arith)
                    requires
                        0 <= sy,
                        0 <= sw,
                ;
            }
            let s: usize = (sy as usize * src_w as usize + sx as usize) * 4;
            let ghost before = dst@;
            dst.push(src[s]);
            dst.push(src[s + 1]);
            dst.push(src[s + 2]);
            dst.push(src[s + 3]);
            proof {
                let d = (y * dw + x) * 4;
                assert(d + 4 == (y * dw + (x + 1)) * 4);
                assert forall|k: int| 0 <= k < d + 4 implies dst@[k] == nearest_byte(
                    src@,
                    sw,
                    sh,
                    dw,
                    dh,
                    k,
                ) by {
                    if k < d {
                        assert(dst@[k] == before[k]);
                    } else {
                        let c = k - d;
                        assert(k == d + c);
                    }
                }
                assert(dst@ =~= Seq::new(
                    ((y * dw + (x + 1)) * 4) as nat,
                    |k: int| nearest_byte(src@, sw, sh, dw, dh, k),
                ));
            }
        }
        assert((y * dw + dst_w) * 4 == ((y + 1) * dw) * 4) by (nonlinear_arith)
            requires
                dw == dst_w,
        ;
    }
    assert(dh * dw * 4 == dw * dh * 4) by (nonlinear_arith);
    Ok(dst)
}

/// Scaling a picture to its own size gives the picture back.
pub proof fn law_resize_to_same_size(src: Seq<u8>, w: int, h: int)
    requires
        0 < w,
        0 < h,
        src.len() == picture_len(w, h),
    ensures
        resized(src, w, h, w, h) == src,
{
    assert forall|k: int| 0 <= k < src.len() implies nearest_byte(src, w, h, w, h, k)
        == src[k] by {
        let pixel = k / 4;
        lemma_fundamental_div_mod(pixel, w);
        lemma_div_by_multiple(pixel / w, h);
        lemma_div_by_multiple(pixel % w, w);
        assert((pixel / w) * w == w * (pixel / w)) by (nonlinear_arith);
    }
    assert(resized(src, w, h, w, h) =~= src);
}

/// Every pixel of a scaled picture is a pixel of the source, with its four bytes in order.
pub proof fn law_resize_takes_source_pixels(
    src: Seq<u8>,
    sw: int,
    sh: int,
    dw: int,
    dh: int,
    x: int,
    y: int,
)
    requires
        0 < sw,
        0 < sh,
        src.len() == picture_len(sw, sh),
        0 <= x < dw,
        0 <= y < dh,
    ensures
        ({
            let d = (y * dw + x) * 4;
            let s = ((y * sh / dh) * sw + x * sw / dw) * 4;
            &&& 0 <= y * sh / dh < sh
            &&& 0 <= x * sw / dw < sw
            &&& resized(src, sw, sh, dw, dh).len() == dw * dh * 4
            &&& 0 <= d && d + 4 <= resized(src, sw, sh, dw, dh).len()
            &&& 0 <= s && s + 4 <= src.len()
            &&& resized(src, sw, sh, dw, dh).subrange(d, d + 4) == src.subrange(s, s + 4)
        }),
{
    let d = (y * dw + x) * 4;
    let s = ((y * sh / dh) * sw + x * sw / dw) * 4;
    lemma_source_position(y, sh, dh);
    lemma_source_position(x, sw, dw);
    lemma_pixel_position(x * sw / dw, y * sh / dh, sw, sh, 0);
    lemma_pixel_position(x, y, dw, dh, 0);
    lemma_pixel_position(x, y, dw, dh, 1);
    lemma_pixel_position(x, y, dw, dh, 2);
    lemma_pixel_position(x, y, dw, dh, 3);
    let out = resized(src, sw, sh, dw, dh);
    assert forall|k: int| d <= k < d + 4 implies #[trigger] out[k] == src[s + (k - d)] by {
        assert(k == (y * dw + x) * 4 + (k - d));
    }
    assert(out.subrange(d, d + 4) =~= src.subrange(s, s + 4));
}

/// The sizes, in pixels, that an icon is offered in.
pub open spec fn tray_sizes() -> Seq<u32> {
    seq![16, 24, 32, 48]
}

/// Whether an icon has at least `size` rows and columns.
pub open spec fn holds_size(icon: DecodedIcon, size: u32) -> bool {
    size <= icon.width && size <= icon.height
}

/// The square pixmap of `size` rows and columns made from `icon`.
pub open spec fn scaled_pixmap(icon: DecodedIcon, size: u32) -> PixmapModel {
    PixmapModel {
        width: size as i32,
        height: size as i32,
        bytes: resized(
            icon.bgra@,
            icon.width as int,
            icon.height as int,
            size as int,
            size as int,
        ),
    }
}

/// The pixmaps of those of `sizes` that the icon is not smaller than.
pub open spec fn scaled_pixmaps(icon: DecodedIcon, sizes: Seq<u32>) -> Seq<PixmapModel> {
    sizes.filter(|size: u32| holds_size(icon, size)).map_values(
        |size: u32| scaled_pixmap(icon, size),
    )
}

/// The pixmaps that an icon is offered as: the tray sizes that it is not smaller than, or, of
/// a smaller icon, the icon itself.
pub open spec fn offered_pixmaps(icon: DecodedIcon) -> Seq<PixmapModel> {
    let scaled = scaled_pixmaps(icon, tray_sizes());
    if scaled.len() == 0 {
        seq![
            PixmapModel {
                width: icon.width as i32,
                height: icon.height as i32,
                bytes: icon.bgra@,
            },
        ]
    } else {
        scaled
    }
}

/// The models of the pixmaps, in order.
pub open spec fn pixmap_models(pixmaps: Seq<Pixmap>) -> Seq<PixmapModel> {
    pixmaps.map_values(|p: Pixmap| p@)
}

/// The pixmaps of one more size.
proof fn lemma_scaled_pixmaps_step(icon: DecodedIcon, sizes: Seq<u32>, size: u32)
    ensures
        scaled_pixmaps(icon, sizes.push(size)) == if holds_size(icon, size) {
            scaled_pixmaps(icon, sizes).push(scaled_pixmap(icon, size))
        } else {
            scaled_pixmaps(icon, sizes)
        },
{
    reveal(Seq::filter);
    let keep = |size: u32| holds_size(icon, size);
    assert(sizes.push(size).drop_last() =~= sizes);
    assert(scaled_pixmaps(icon, sizes.push(size)) =~= if keep(size) {
        scaled_pixmaps(icon, sizes).push(scaled_pixmap(icon, size))
    } else {
        scaled_pixmaps(icon, sizes)
    });
}

/// An icon gets scaled pixmaps exactly where it holds the smallest tray size.
proof fn lemma_scaled_pixmaps_empty(icon: DecodedIcon)
    ensures
        scaled_pixmaps(icon, tray_sizes()).len() == 0 <==> !holds_size(icon, 16),
{
    reveal(Seq::filter);
    let keep = |size: u32| holds_size(icon, size);
    let none = Seq::<u32>::empty();
    lemma_scaled_pixmaps_step(icon, none, 16);
    lemma_scaled_pixmaps_step(icon, none.push(16), 24);
    lemma_scaled_pixmaps_step(icon, none.push(16).push(24), 32);
    lemma_scaled_pixmaps_step(icon, none.push(16).push(24).push(32), 48);
    assert(tray_sizes() =~= none.push(16).push(24).push(32).push(48));
}

/// The pixmaps of a tray item: `None` without an icon, else those that the decoded icon is
/// offered as.
pub fn icon_pixmaps_from_item(decoded: Option<DecodedIcon>) -> (res: Result<
    Option<Vec<Pixmap>>,
    TrayError,
>)
    ensures
        match decoded {
            None => res matches Ok(pixmaps) && pixmaps is None,
            Some(icon) => if icon.width == 0 || icon.height == 0 {
                res matches Err(e) && e == TrayError::EmptyIcon
            } else if holds_size(icon, 16) && icon.bgra@.len() != picture_len(
                icon.width as int,
                icon.height as int,
            ) {
                &&& res matches Err(TrayError::PixelBufferLength { expected })
                &&& expected == picture_len(icon.width as int, icon.height as int)
            } else {
                &&& res matches Ok(Some(pixmaps))
                &&& pixmap_models(pixmaps@) == offered_pixmaps(icon)
            },
        },
{
    let icon = match decoded {
        Some(icon) => icon,
        None => {
            return Ok(None);
        },
    };
    if icon.width == 0 || icon.height == 0 {
        return Err(TrayError::EmptyIcon);
    }
    let sizes: Vec<u32> = vec![16, 24, 32, 48];
    let mut pixmaps: Vec<Pixmap> = Vec::new();
    proof {
        reveal(Seq::filter);
        assert(sizes@ =~= tray_sizes());
        assert(pixmap_models(pixmaps@) =~= scaled_pixmaps(icon, sizes@.take(0)));
    }
    for i in 0..sizes.len()
        invariant
            decoded == Some(icon),
            icon.width > 0,
            icon.height > 0,
            sizes@ == tray_sizes(),
            pixmap_models(pixmaps@) == scaled_pixmaps(icon, sizes@.take(i as int)),
            i > 0 && holds_size(icon, 16) ==> icon.bgra@.len() == picture_len(
                icon.width as int,
                icon.height as int,
            ),
    {
        let size = sizes[i];
        proof {
            lemma_scaled_pixmaps_step(icon, sizes@.take(i as int), size);
            assert(sizes@.take(i + 1) =~= sizes@.take(i as int).push(size));
            assert(size * size * 4 <= 48 * 48 * 4) by (nonlinear_arith)
                requires
                    0 <= size <= 48,
            ;
        }
        if size <= icon.width && size <= icon.height {
            let scaled = match resize_bgra32_nearest(
                icon.bgra.as_slice(),
                icon.width,
                icon.height,
                size,
                size,
            ) {
                Ok(scaled) => scaled,
                Err(e) => {
                    return Err(e);
                },
            };
            let ghost before = pixmaps@;
            pixmaps.push(Pixmap::new(size as i32, size as i32, scaled));
            assert(pixmap_models(pixmaps@) =~= pixmap_models(before).push(
                scaled_pixmap(icon, size),
            ));
        }
    }
    proof {
        assert(sizes@.take(sizes.len() as int) =~= sizes@);
        lemma_scaled_pixmaps_empty(icon);
    }
    if pixmaps.len() == 0 {
        let ghost small = icon;
        pixmaps.push(Pixmap::new(icon.width as i32, icon.height as i32, icon.bgra));
        assert(pixmap_models(pixmaps@) =~= offered_pixmaps(small));
    }
    Ok(Some(pixmaps))
}

/// Which sizes a large enough icon is offered in.
proof fn lemma_offered_sizes(icon: DecodedIcon)
    requires
        icon.width >= 16,
        icon.height >= 16,
    ensures
        ({
            let least = if icon.width < icon.height {
                icon.width
            } else {
                icon.height
            };
            let offered = offered_pixmaps(icon);
            &&& offered.len() == if least < 24 {
                1int
            } else if least < 32 {
                2
            } else if least < 48 {
                3
            } else {
                4
            }
            &&& offered[0] == scaled_pixmap(icon, 16)
            &&& least >= 24 ==> offered[1] == scaled_pixmap(icon, 24)
            &&& least >= 32 ==> offered[2] == scaled_pixmap(icon, 32)
            &&& least >= 48 ==> offered[3] == scaled_pixmap(icon, 48)
        }),
{
    reveal(Seq::filter);
    let none = Seq::<u32>::empty();
    assert(scaled_pixmaps(icon, none) =~= Seq::empty());
    lemma_scaled_pixmaps_step(icon, none, 16);
    lemma_scaled_pixmaps_step(icon, none.push(16), 24);
    lemma_scaled_pixmaps_step(icon, none.push(16).push(24), 32);
    lemma_scaled_pixmaps_step(icon, none.push(16).push(24).push(32), 48);
    assert(tray_sizes() =~= none.push(16).push(24).push(32).push(48));
}

/// An icon of at least 16 by 16 pixels is offered in squares of 16, 24, 32 and 48 pixels, from
/// the smallest on, in those of them that are neither wider nor higher than the icon, and in no
/// other size. A pixmap says the size of its square, has four bytes for each pixel of it, and
/// its pixel in column `x` and row `y` has the bytes of the icon's pixel at the same fractions of
/// the icon's width and height.
pub proof fn law_icons_are_offered_scaled(icon: DecodedIcon, i: int, x: int, y: int, c: int)
    requires
        icon.width >= 16,
        icon.height >= 16,
        icon.bgra@.len() == icon.width * icon.height * 4,
        0 <= i < offered_pixmaps(icon).len(),
        0 <= x < offered_pixmaps(icon)[i].width,
        0 <= y < offered_pixmaps(icon)[i].height,
        0 <= c < 4,
    ensures
        ({
            let w = icon.width as int;
            let h = icon.height as int;
            let pixmap = offered_pixmaps(icon)[i];
            let size = pixmap.width as int;
            &&& pixmap.width == (if i == 0 {
                16int
            } else if i == 1 {
                24
            } else if i == 2 {
                32
            } else {
                48
            })
            &&& pixmap.height == pixmap.width
            &&& size <= w && size <= h
            &&& pixmap.bytes.len() == size * size * 4
            &&& 0 <= (y * size + x) * 4 + c < pixmap.bytes.len()
            &&& 0 <= ((y * h / size) * w + x * w / size) * 4 + c < icon.bgra@.len()
            &&& pixmap.bytes[(y * size + x) * 4 + c] == icon.bgra@[((y * h / size) * w + x * w
                / size) * 4 + c]
        }),
{
    lemma_offered_sizes(icon);
    let w = icon.width as int;
    let h = icon.height as int;
    let size = offered_pixmaps(icon)[i].width as int;
    law_resize_takes_source_pixels(icon.bgra@, w, h, size, size, x, y);
    let d = (y * size + x) * 4;
    let s = ((y * h / size) * w + x * w / size) * 4;
    let out = resized(icon.bgra@, w, h, size, size);
    assert(out.subrange(d, d + 4)[c] == icon.bgra@.subrange(s, s + 4)[c]);
}

/// No size that an icon holds is left out.
pub proof fn law_every_held_size_is_offered(icon: DecodedIcon, size: u32)
    requires
        size == 16 || size == 24 || size == 32 || size == 48,
        size <= icon.width,
        size <= icon.height,
    ensures
        exists|i: int|
            0 <= i < offered_pixmaps(icon).len() && (#[trigger] offered_pixmaps(icon)[i]).width
                == size && offered_pixmaps(icon)[i].height == size,
{
    lemma_offered_sizes(icon);
    let i: int = if size == 16 {
        0
    } else if size == 24 {
        1
    } else if size == 32 {
        2
    } else {
        3
    };
    assert(offered_pixmaps(icon)[i].width == size);
}

/// An icon that is narrower or lower than 16 pixels is offered as it is, and in no other way.
pub proof fn law_small_icons_are_offered_unscaled(icon: DecodedIcon)
    requires
        icon.width < 16 || icon.height < 16,
    ensures
        offered_pixmaps(icon).len() == 1,
        offered_pixmaps(icon)[0].bytes == icon.bgra@,
        icon.width <= i32::MAX ==> offered_pixmaps(icon)[0].width == icon.width,
        icon.height <= i32::MAX ==> offered_pixmaps(icon)[0].height == icon.height,
{
    lemma_scaled_pixmaps_empty(icon);
}

/// The models of pixmaps are the pixmaps, in order.
pub proof fn law_pixmap_models_are_the_pixmaps(pixmaps: Seq<Pixmap>, i: int)
    requires
        0 <= i < pixmaps.len(),
    ensures
        pixmap_models(pixmaps).len() == pixmaps.len(),
        pixmap_models(pixmaps)[i].width == pixmaps[i].width,
        pixmap_models(pixmaps)[i].height == pixmaps[i].height,
        pixmap_models(pixmaps)[i].bytes == pixmaps[i].bytes@,
{
}

/// A pixmap travels as a structure of its width, its height and its bytes.
pub proof fn law_pixmaps_travel_whole(pixmap: PixmapModel)
    ensures
        pixmap.variant() matches VariantModel::Structure(fields) && {
            &&& fields.len() == 3
            &&& fields[0] == VariantModel::I32(pixmap.width)
            &&& fields[1] == VariantModel::I32(pixmap.height)
            &&& fields[2] matches VariantModel::Array(bytes)
            &&& bytes.len() == pixmap.bytes.len()
            &&& forall|i: int|
                0 <= i < bytes.len() ==> #[trigger] bytes[i] == VariantModel::U8(pixmap.bytes[i])
        },
{
}

/// Each row of a mask has a bit for every column and is padded to whole groups of four bytes,
/// with no group too many; all rows have the same length.
pub proof fn law_mask_rows_are_padded(w: int, h: int)
    requires
        0 <= w,
        0 <= h,
    ensures
        exists|row: int| #[trigger]
            (row * h) == mask_len(w, h) && row % 4 == 0 && w <= row * 8 < w + 32,
{
    let row = ((w + 31) / 32) * 4;
    assert(row * h == mask_len(w, h));
}

/// A picture can be scaled exactly where neither it nor the wanted size is empty and it has four
/// bytes for each pixel.
pub proof fn law_pictures_that_can_be_scaled(len: nat, sw: int, sh: int, dw: int, dh: int)
    requires
        0 <= sw,
        0 <= sh,
        0 <= dw,
        0 <= dh,
    ensures
        sw == 0 || sh == 0 || dw == 0 || dh == 0 ==> !can_resize(len, sw, sh, dw, dh),
        len != sw * sh * 4 ==> !can_resize(len, sw, sh, dw, dh),
        0 < sw && 0 < sh && 0 < dw && 0 < dh && len == sw * sh * 4 ==> can_resize(
            len,
            sw,
            sh,
            dw,
            dh,
        ),
{
}

/// The number of bytes of a one-bit mask whose rows are padded to four bytes.
pub open spec fn mask_len(w: int, h: int) -> int {
    ((w + 31) / 32) * 4 * h
}

/// The bitmaps that a window-system icon is made of.
pub struct IconBitmaps {
    /// Columns of both bitmaps.
    pub width: i32,
    /// Rows of both bitmaps.
    pub height: i32,
    /// The height field of the colour bitmap's header: negative, since the first row is the
    /// topmost.
    pub header_height: i32,
    /// Bytes of the mask bitmap.
    pub mask_len: usize,
}

/// The bitmaps of an icon, or why its bytes do not make one.
pub fn hicon_from_bgra32(width: u32, height: u32, bgra: &[u8]) -> (res: Result<
    IconBitmaps,
    TrayError,
>)
    requires
        height == 0x8000_0000 ==> bgra@.len() != picture_len(width as int, height as int),
    ensures
        match res {
            Ok(b) => {
                &&& bgra@.len() == picture_len(width as int, height as int)
                &&& b.width == width as i32
                &&& b.height == height as i32
                &&& b.header_height == -(height as i32)
                &&& b.mask_len == mask_len(width as int, height as int)
            },
            Err(e) => if picture_len(width as int, height as int) > usize::MAX {
                e == TrayError::IconDimensionsOverflow
            } else {
                &&& bgra@.len() != picture_len(width as int, height as int)
                &&& e == (TrayError::IconLengthMismatch {
                    got: bgra.len(),
                    expected: picture_len(width as int, height as int) as usize,
                    width,
                    height,
                })
            },
        },
{
    let w: usize = width as usize;
    let h: usize = height as usize;
    let pixels: usize = match w.checked_mul(h) {
        Some(pixels) => pixels,
        None => {
            assert(w * h * 4 >= w * h) by (nonlinear_arith)
                requires
                    0 <= w,
                    0 <= h,
            ;
            return Err(TrayError::IconDimensionsOverflow);
        },
    };
    let expected: usize = match pixels.checked_mul(4) {
        Some(expected) => expected,
        None => {
            return Err(TrayError::IconDimensionsOverflow);
        },
    };
    if bgra.len() != expected {
        return Err(TrayError::IconLengthMismatch { got: bgra.len(), expected, width, height });
    }
    assert(height as i32 != i32::MIN) by (bit_vector)
        requires
            height != 0x8000_0000u32,
    ;
    let words: usize = if w % 32 == 0 {
        w / 32
    } else {
        w / 32 + 1
    };
    proof {
        assert(words == (w + 31) / 32);
        assert(0 <= words <= w);
        assert(0 <= words * 4 * h <= w * h * 4) by (nonlinear_arith)
            requires
                0 <= words <= w,
                0 <= h,
        ;
        assert(h > 0 ==> words * 4 <= words * 4 * h) by (nonlinear_arith)
            requires
                0 <= words,
        ;
    }
    let mask_len: usize = words * 4 * h;
    Ok(
        IconBitmaps {
            width: width as i32,
            height: height as i32,
            header_height: -(height as i32),
            mask_len,
        },
    )
}

} // verus!
