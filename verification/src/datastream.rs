use vstd::prelude::*;

use crate::color::{spec_pixel_of, ByteColor};
use crate::error::UpdaterError;

verus! {

/// Marker bit that distinguishes a day-header offset row from a packed
/// palette-index tuple in the per-row metadata.
pub const FLAG_IS_DAY_HEADER: u32 = 1u32 << 17;

/// Per-scanline metadata: either an explicit 4-slot palette-index tuple,
/// or the row's offset from the first row of the day header it belongs to.
#[derive(Clone, Copy, Debug, Eq, PartialEq)]
pub enum RowColorInfo {
    Colors([u8; 4]),
    DayHeader { offset: u32 },
}

/// Information for a specific row in the scrollable section.
#[derive(Debug, Clone, PartialEq)]
pub struct VerticalData {
    /// Scanline index of the first row of the nearest preceding day header.
    pub prev_day_header: u32,
    pub col_info: RowColorInfo,
}

/// The metadata that will be encoded into the output image.
#[derive(Default, Debug, Clone)]
pub struct DatastreamElements {
    pub datastream_width: u32,
    pub datastream_height: u32,
    pub viewport_h: u32,
    pub viewport_w: u32,
    pub header_h: u32,
    pub footer_h: u32,
    pub border_l: u32,
    pub border_r: u32,
    pub day_header_height: u32,
    pub header_blend_start: u32,
    pub header_blend_end: u32,
    pub scroll_split_point: u32,
    pub col_divs: [u32; 3],
    pub palette: [ByteColor; 8],
    pub section_pad: u32,
    pub scroll_height: u32,
    pub scroll_tex_y: u32,
    pub bg_sample_y: u32,
    pub bg_sample_h: u32,
    pub header_tex_y: u32,
    pub footer_tex_y: u32,
    pub day_header_tex_x: u32,
    pub day_header_tex_alpha_x: u32,
    pub day_header_tex_y: u32,
    pub day_header_side_width: u32,
    pub day_header_true_width: u32,
    pub vdata: Vec<VerticalData>,
}

/// The scalar carried by one row-info pixel: either the four palette
/// indices packed MSB-first into 3-bit fields, or the day-header offset
/// with the marker bit set.
pub open spec fn spec_rowinfo_value(v: RowColorInfo) -> u32 {
    match v {
        RowColorInfo::Colors(c) => ((c@[0] as u32) << 9) | ((c@[1] as u32) << 6) | ((c@[2] as u32)
            << 3) | (c@[3] as u32),
        RowColorInfo::DayHeader { offset } => offset | FLAG_IS_DAY_HEADER,
    }
}

pub open spec fn spec_rowinfo_ok(v: RowColorInfo) -> bool {
    match v {
        RowColorInfo::Colors(c) => forall|j: int| 0 <= j < 4 ==> c@[j] < 8,
        RowColorInfo::DayHeader { offset } => (offset | FLAG_IS_DAY_HEADER) < 0x40000,
    }
}

impl DatastreamElements {
    /// The scalars serialized before the palette, in their fixed order.
    pub open spec fn spec_pre_palette_scalars(self) -> Seq<u32> {
        seq![
            self.datastream_width,
            self.datastream_height,
            self.viewport_w,
            self.viewport_h,
            self.header_h,
            self.footer_h,
            self.border_l,
            self.border_r,
            self.day_header_height,
            self.col_divs@[0],
            self.col_divs@[1],
            self.col_divs@[2],
        ]
    }

    /// The scalars serialized after the palette, in their fixed order,
    /// ending with the row-metadata table length.
    pub open spec fn spec_post_palette_scalars(self) -> Seq<u32> {
        seq![
            self.section_pad,
            self.scroll_height,
            self.scroll_tex_y,
            self.bg_sample_y,
            self.bg_sample_h,
            self.header_tex_y,
            self.footer_tex_y,
            self.day_header_tex_x,
            self.day_header_tex_alpha_x,
            self.day_header_tex_y,
            self.day_header_side_width,
            self.day_header_true_width,
            self.header_blend_start,
            self.header_blend_end,
            self.scroll_split_point,
            self.vdata@.len() as u32,
        ]
    }

    /// Every serialized scalar fits 18 bits and every palette index is in
    /// range; exactly then does `encode` succeed.
    pub open spec fn spec_encode_ok(self) -> bool {
        &&& forall|i: int|
            0 <= i < self.spec_pre_palette_scalars().len()
                ==> #[trigger] self.spec_pre_palette_scalars()[i] < 0x40000
        &&& self.vdata@.len() < 0x40000
        &&& forall|i: int|
            0 <= i < self.spec_post_palette_scalars().len()
                ==> #[trigger] self.spec_post_palette_scalars()[i] < 0x40000
        &&& forall|i: int|
            0 <= i < self.vdata@.len() ==> (#[trigger] self.vdata@[i]).prev_day_header < 0x40000
        &&& forall|i: int|
            0 <= i < self.vdata@.len() ==> spec_rowinfo_ok(#[trigger] self.vdata@[i].col_info)
    }

    /// The full encoded pixel sequence, in serialization order.
    pub open spec fn spec_encode(self) -> Seq<ByteColor> {
        self.spec_pre_palette_scalars().map_values(|v: u32| spec_pixel_of(v)) + self.palette@
            + self.spec_post_palette_scalars().map_values(|v: u32| spec_pixel_of(v))
            + self.vdata@.map_values(|vd: VerticalData| spec_pixel_of(vd.prev_day_header))
            + self.vdata@.map_values(
            |vd: VerticalData| spec_pixel_of(spec_rowinfo_value(vd.col_info)),
        )
    }

    /// Serializes the record into one pixel per scalar, then the palette,
    /// then the two per-row tables.  Fails, without a partial result, if
    /// any scalar needs more than 18 bits or any palette index is 8 or
    /// more.
    pub fn encode(&self) -> (res: Result<Vec<ByteColor>, UpdaterError>)
        ensures
            res.is_ok() <==> self.spec_encode_ok(),
            res.is_ok() ==> res.unwrap()@ == self.spec_encode(),
    {
        let ghost pre_spec = self.spec_pre_palette_scalars();
        let ghost post_spec = self.spec_post_palette_scalars();
        let mut ds: Vec<ByteColor> = Vec::new();

        let pre: Vec<u32> = vec![
            self.datastream_width,
            self.datastream_height,
            self.viewport_w,
            self.viewport_h,
            self.header_h,
            self.footer_h,
            self.border_l,
            self.border_r,
            self.day_header_height,
            self.col_divs[0],
            self.col_divs[1],
            self.col_divs[2],
        ];
        proof {
            assert(pre@ =~= pre_spec);
        }
        let mut i: usize = 0;
        while i < pre.len()
            invariant
                pre_spec == self.spec_pre_palette_scalars(),
                pre@ == pre_spec,
                0 <= i <= pre.len(),
                forall|k: int| 0 <= k < i ==> pre@[k] < 0x40000,
                ds@ =~= pre_spec.take(i as int).map_values(|v: u32| spec_pixel_of(v)),
            decreases pre.len() - i,
        {
            match ByteColor::from_value(pre[i]) {
                Ok(c) => ds.push(c),
                Err(e) => {
                    proof {
                        assert(self.spec_pre_palette_scalars() == pre@);
                        assert(self.spec_pre_palette_scalars()[i as int] >= 0x40000);
                    }
                    return Err(e);
                },
            }
            i = i + 1;
        }
        proof {
            assert(pre_spec.take(pre@.len() as int) =~= pre_spec);
        }

        let mut i: usize = 0;
        while i < 8
            invariant
                pre_spec == self.spec_pre_palette_scalars(),
                0 <= i <= 8,
                forall|k: int| 0 <= k < pre_spec.len() ==> #[trigger] pre_spec[k] < 0x40000,
                ds@ =~= pre_spec.map_values(|v: u32| spec_pixel_of(v)) + self.palette@.take(
                    i as int,
                ),
            decreases 8 - i,
        {
            ds.push(self.palette[i]);
            i = i + 1;
        }
        proof {
            assert(self.palette@.take(8) =~= self.palette@);
        }

        if self.vdata.len() >= 0x40000 {
            return Err(
                UpdaterError::ValueTooLarge {
                    field: "vdata length",
                    value: self.vdata.len() as u64,
                },
            );
        }
        let vdata_len: u32 = self.vdata.len() as u32;

        let post: Vec<u32> = vec![
            self.section_pad,
            self.scroll_height,
            self.scroll_tex_y,
            self.bg_sample_y,
            self.bg_sample_h,
            self.header_tex_y,
            self.footer_tex_y,
            self.day_header_tex_x,
            self.day_header_tex_alpha_x,
            self.day_header_tex_y,
            self.day_header_side_width,
            self.day_header_true_width,
            self.header_blend_start,
            self.header_blend_end,
            self.scroll_split_point,
            vdata_len,
        ];
        proof {
            assert(post@ =~= post_spec);
        }
        let ghost base = pre_spec.map_values(|v: u32| spec_pixel_of(v)) + self.palette@;
        let mut i: usize = 0;
        while i < post.len()
            invariant
                pre_spec == self.spec_pre_palette_scalars(),
                post_spec == self.spec_post_palette_scalars(),
                post@ == post_spec,
                base == pre_spec.map_values(|v: u32| spec_pixel_of(v)) + self.palette@,
                forall|k: int| 0 <= k < pre_spec.len() ==> #[trigger] pre_spec[k] < 0x40000,
                0 <= i <= post.len(),
                forall|k: int| 0 <= k < i ==> post@[k] < 0x40000,
                ds@ =~= base + post_spec.take(i as int).map_values(|v: u32| spec_pixel_of(v)),
            decreases post.len() - i,
        {
            match ByteColor::from_value(post[i]) {
                Ok(c) => ds.push(c),
                Err(e) => {
                    proof {
                        assert(self.spec_post_palette_scalars()[i as int] >= 0x40000);
                    }
                    return Err(e);
                },
            }
            i = i + 1;
        }
        proof {
            assert(post_spec.take(post@.len() as int) =~= post_spec);
        }

        let ghost base = base + post_spec.map_values(|v: u32| spec_pixel_of(v));
        let mut i: usize = 0;
        while i < self.vdata.len()
            invariant
                pre_spec == self.spec_pre_palette_scalars(),
                post_spec == self.spec_post_palette_scalars(),
                base == pre_spec.map_values(|v: u32| spec_pixel_of(v)) + self.palette@
                    + post_spec.map_values(|v: u32| spec_pixel_of(v)),
                forall|k: int| 0 <= k < pre_spec.len() ==> #[trigger] pre_spec[k] < 0x40000,
                forall|k: int| 0 <= k < post_spec.len() ==> #[trigger] post_spec[k] < 0x40000,
                self.vdata@.len() < 0x40000,
                0 <= i <= self.vdata@.len(),
                forall|k: int| 0 <= k < i ==> (#[trigger] self.vdata@[k]).prev_day_header < 0x40000,
                ds@ =~= base + self.vdata@.take(i as int).map_values(
                    |vd: VerticalData| spec_pixel_of(vd.prev_day_header),
                ),
            decreases self.vdata.len() - i,
        {
            match ByteColor::from_value(self.vdata[i].prev_day_header) {
                Ok(c) => ds.push(c),
                Err(e) => {
                    return Err(e);
                },
            }
            i = i + 1;
        }
        proof {
            assert(self.vdata@.take(self.vdata@.len() as int) =~= self.vdata@);
        }

        let ghost base = base + self.vdata@.map_values(
            |vd: VerticalData| spec_pixel_of(vd.prev_day_header),
        );
        let mut i: usize = 0;
        while i < self.vdata.len()
            invariant
                pre_spec == self.spec_pre_palette_scalars(),
                post_spec == self.spec_post_palette_scalars(),
                base == pre_spec.map_values(|v: u32| spec_pixel_of(v)) + self.palette@
                    + post_spec.map_values(|v: u32| spec_pixel_of(v)) + self.vdata@.map_values(
                    |vd: VerticalData| spec_pixel_of(vd.prev_day_header),
                ),
                forall|k: int| 0 <= k < pre_spec.len() ==> #[trigger] pre_spec[k] < 0x40000,
                forall|k: int| 0 <= k < post_spec.len() ==> #[trigger] post_spec[k] < 0x40000,
                self.vdata@.len() < 0x40000,
                forall|k: int|
                    0 <= k < self.vdata@.len() ==> (#[trigger] self.vdata@[k]).prev_day_header
                        < 0x40000,
                0 <= i <= self.vdata@.len(),
                forall|k: int| 0 <= k < i ==> spec_rowinfo_ok(#[trigger] self.vdata@[k].col_info),
                ds@ =~= base + self.vdata@.take(i as int).map_values(
                    |vd: VerticalData| spec_pixel_of(spec_rowinfo_value(vd.col_info)),
                ),
            decreases self.vdata.len() - i,
        {
            let value: u32 = match &self.vdata[i].col_info {
                RowColorInfo::Colors(colors) => {
                    let c0 = colors[0];
                    let c1 = colors[1];
                    let c2 = colors[2];
                    let c3 = colors[3];
                    if c0 >= 8 || c1 >= 8 || c2 >= 8 || c3 >= 8 {
                        let bad: u8 = if c0 >= 8 {
                            c0
                        } else if c1 >= 8 {
                            c1
                        } else if c2 >= 8 {
                            c2
                        } else {
                            c3
                        };
                        return Err(UpdaterError::ColorOutOfRange { value: bad });
                    }
                    let v = ((c0 as u32) << 9) | ((c1 as u32) << 6) | ((c2 as u32) << 3) | (
                    c3 as u32);
                    proof {
                        let c0 = c0;
                        let c1 = c1;
                        let c2 = c2;
                        let c3 = c3;
                        assert(c0 < 8 && c1 < 8 && c2 < 8 && c3 < 8 ==> (((c0 as u32) << 9) | ((
                        c1 as u32) << 6) | ((c2 as u32) << 3) | (c3 as u32)) < 0x1000)
                            by (bit_vector);
                    }
                    v
                },
                RowColorInfo::DayHeader { offset } => {
                    let v = *offset | FLAG_IS_DAY_HEADER;
                    if v >= 0x40000 {
                        return Err(
                            UpdaterError::ValueTooLarge { field: "day header offset", value: v as u64 },
                        );
                    }
                    v
                },
            };
            match ByteColor::from_value(value) {
                Ok(c) => ds.push(c),
                Err(e) => {
                    proof {
                        assert(false);
                    }
                    return Err(e);
                },
            }
            i = i + 1;
        }
        proof {
            assert(self.vdata@.take(self.vdata@.len() as int) =~= self.vdata@);
            assert(ds@ =~= self.spec_encode());
        }
        Ok(ds)
    }
}


/// One byte of a packed pixel, in raster memory order.
pub open spec fn spec_byte_of_pixel(c: ByteColor, b: int) -> u8 {
    if b == 0 {
        c.b
    } else if b == 1 {
        c.g
    } else if b == 2 {
        c.r
    } else {
        c.a
    }
}

/// The image bytes after the encoded sequence has been blitted right to
/// left into the reserved block: datastream row `y`, column `rx` lands on
/// image row `y`, image column `img_width - rx - 1`.
pub open spec fn spec_image_with_datastream(
    orig: Seq<u8>,
    enc: Seq<ByteColor>,
    stride: int,
    img_width: int,
    dsw: int,
) -> Seq<u8> {
    Seq::new(
        orig.len(),
        |j: int|
            {
                let y = j / stride;
                let r = j % stride;
                let x = r / 4;
                let b = r % 4;
                let rx = img_width - 1 - x;
                if r < 4 * img_width && 0 <= rx < dsw && y * dsw + rx < enc.len() {
                    spec_byte_of_pixel(enc[y * dsw + rx], b)
                } else {
                    orig[j]
                }
            },
    )
}

/// Decomposition of the byte address `y * stride + 4 * x + b` back into
/// row `y`, column `x` and channel `b`.
proof fn lemma_byte_address(y: int, x: int, b: int, stride: int, img_width: int)
    requires
        0 <= y,
        0 <= x < img_width,
        0 <= b < 4,
        4 * img_width <= stride,
    ensures
        (y * stride + 4 * x + b) / stride == y,
        (y * stride + 4 * x + b) % stride == 4 * x + b,
        (4 * x + b) / 4 == x,
        (4 * x + b) % 4 == b,
{
    vstd::arithmetic::div_mod::lemma_fundamental_div_mod_converse(
        y * stride + 4 * x + b,
        stride,
        y,
        4 * x + b,
    );
    vstd::arithmetic::div_mod::lemma_fundamental_div_mod_converse(4 * x + b, 4, x, b);
}

impl DatastreamElements {
    /// Writes the encoded datastream into the raster bytes of the final
    /// image, one pixel per element, right to left from the top of the
    /// reserved block.  Fails with a capacity error, touching nothing, if
    /// the sequence does not fit the reserved `datastream_width` by
    /// `datastream_height` block.
    pub fn write(&self, img_data: &mut Vec<u8>, stride: usize, img_width: usize) -> (res: Result<
        (),
        UpdaterError,
    >)
        requires
            self.datastream_width >= 1,
            4 * img_width <= stride,
            self.datastream_width <= img_width,
            old(img_data)@.len() >= stride * self.datastream_height,
        ensures
            res.is_ok() <==> (self.spec_encode_ok() && self.spec_encode().len()
                <= self.datastream_width * self.datastream_height),
            res.is_ok() ==> final(img_data)@ == spec_image_with_datastream(
                old(img_data)@,
                self.spec_encode(),
                stride as int,
                img_width as int,
                self.datastream_width as int,
            ),
            self.spec_encode_ok() && self.spec_encode().len() > self.datastream_width
                * self.datastream_height ==> res == Err::<(), UpdaterError>(
                UpdaterError::CapacityExceeded {
                    needed: self.spec_encode().len() as u64,
                    capacity: (self.datastream_width * self.datastream_height) as u64,
                },
            ),
            res.is_err() ==> final(img_data)@ == old(img_data)@,
    {
        let data = match self.encode() {
            Ok(d) => d,
            Err(e) => {
                return Err(e);
            },
        };
        proof {
            assert((self.datastream_width as int) * (self.datastream_height as int)
                < 0x10000000000000000) by (nonlinear_arith)
                requires
                    self.datastream_width < 0x100000000 && self.datastream_height < 0x100000000,
            ;
        }
        let capacity: u64 = (self.datastream_width as u64) * (self.datastream_height as u64);
        if (data.len() as u64) > capacity {
            return Err(UpdaterError::CapacityExceeded { needed: data.len() as u64, capacity });
        }
        let ghost enc = self.spec_encode();
        let ghost orig = img_data@;
        let dsw: usize = self.datastream_width as usize;

        let mut k: usize = 0;
        while k < data.len()
            invariant
                enc == self.spec_encode(),
                data@ == enc,
                dsw == self.datastream_width,
                1 <= dsw <= img_width,
                4 * img_width <= stride,
                enc.len() <= self.datastream_width * self.datastream_height,
                orig.len() >= stride * self.datastream_height,
                img_data@.len() == orig.len(),
                0 <= k <= enc.len(),
                img_data@ == spec_image_with_datastream(
                    orig,
                    enc.take(k as int),
                    stride as int,
                    img_width as int,
                    dsw as int,
                ),
            decreases data.len() - k,
        {
            let y = k / dsw;
            let rx = k % dsw;
            let x = img_width - 1 - rx;
            proof {
                vstd::arithmetic::div_mod::lemma_fundamental_div_mod(k as int, dsw as int);
                assert(y * dsw + rx == k);
                assert(y < self.datastream_height) by {
                    if y >= self.datastream_height {
                        vstd::arithmetic::mul::lemma_mul_inequality(
                            self.datastream_height as int,
                            y as int,
                            dsw as int,
                        );
                        vstd::arithmetic::mul::lemma_mul_is_commutative(
                            self.datastream_width as int,
                            self.datastream_height as int,
                        );
                        assert(false);
                    }
                };
                assert(y * stride + 4 * x + 3 < orig.len()) by {
                    vstd::arithmetic::mul::lemma_mul_inequality(
                        (y + 1) as int,
                        self.datastream_height as int,
                        stride as int,
                    );
                    vstd::arithmetic::mul::lemma_mul_is_distributive_add_other_way(
                        stride as int,
                        y as int,
                        1,
                    );
                    vstd::arithmetic::mul::lemma_mul_is_commutative(
                        self.datastream_height as int,
                        stride as int,
                    );
                };
            }
            let n = img_data.len();
            proof {
                assert(y * stride + 4 * x + 3 < n);
            }
            let base = y * stride + 4 * x;
            let c = data[k];
            let ghost before = img_data@;
            img_data.set(base, c.b);
            img_data.set(base + 1, c.g);
            img_data.set(base + 2, c.r);
            img_data.set(base + 3, c.a);
            proof {
                lemma_byte_address(y as int, x as int, 0, stride as int, img_width as int);
                lemma_byte_address(y as int, x as int, 1, stride as int, img_width as int);
                lemma_byte_address(y as int, x as int, 2, stride as int, img_width as int);
                lemma_byte_address(y as int, x as int, 3, stride as int, img_width as int);
                assert forall|j: int| 0 <= j < orig.len() implies img_data@[j]
                    == spec_image_with_datastream(
                    orig,
                    enc.take(k + 1),
                    stride as int,
                    img_width as int,
                    dsw as int,
                )[j] by {
                    let yj = j / (stride as int);
                    let rj = j % (stride as int);
                    let xj = rj / 4;
                    let bj = rj % 4;
                    vstd::arithmetic::div_mod::lemma_fundamental_div_mod(j, stride as int);
                    vstd::arithmetic::div_mod::lemma_fundamental_div_mod(rj, 4);
                    if base <= j < base + 4 {
                        lemma_byte_address(
                            y as int,
                            x as int,
                            j - base,
                            stride as int,
                            img_width as int,
                        );
                    } else {
                        if rj < 4 * img_width && 0 <= img_width - 1 - xj < dsw && yj * dsw + (
                        img_width - 1 - xj) == k {
                            vstd::arithmetic::div_mod::lemma_fundamental_div_mod_converse(
                                k as int,
                                dsw as int,
                                yj,
                                img_width - 1 - xj,
                            );
                            assert(yj == y && img_width - 1 - xj == rx);
                            vstd::arithmetic::mul::lemma_mul_is_commutative(yj, stride as int);
                            assert(j == yj * stride + 4 * xj + bj);
                            assert(false);
                        }
                    }
                };
                assert(img_data@ =~= spec_image_with_datastream(
                    orig,
                    enc.take(k + 1),
                    stride as int,
                    img_width as int,
                    dsw as int,
                ));
            }
            k = k + 1;
        }
        proof {
            assert(enc.take(enc.len() as int) =~= enc);
        }
        Ok(())
    }
}

} // verus!
