use vstd::prelude::*;

verus! {

/// Output pixel (x, y) carries the three thirds of the source in its
/// blue, green and red bytes, with opaque alpha.
pub open spec fn spec_squash_cell(
    r: Seq<u8>,
    in_data: Seq<u8>,
    input_stride: int,
    width: int,
    chunk: int,
    y: int,
    x: int,
) -> bool {
    &&& r[(y * width + x) * 4 + 0] == in_data[y * input_stride + x]
    &&& r[(y * width + x) * 4 + 1] == in_data[y * input_stride + x + chunk]
    &&& r[(y * width + x) * 4 + 2] == in_data[y * input_stride + x + 2 * chunk]
    &&& r[(y * width + x) * 4 + 3] == 0xFF
}

/// Splits a tall single-channel alpha render into three equal horizontal
/// thirds and repacks them into one raster a third of the height: output
/// pixel (x, y) takes its blue channel from third 0 row y, green from
/// third 1, red from third 2, and alpha is forced opaque.  The input is
/// one byte per pixel with the given row stride; the output is four
/// bytes per pixel with no row padding.
#[verifier::rlimit(60)]
pub fn squash_surface(
    in_data: &Vec<u8>,
    input_stride: usize,
    width: usize,
    tex_height_div: usize,
) -> (r: Vec<u8>)
    requires
        width <= input_stride,
        in_data@.len() >= input_stride * (3 * tex_height_div),
        4 * (width * tex_height_div) <= usize::MAX,
    ensures
        r@.len() == 4 * (width * tex_height_div),
        forall|y: int, x: int|
            0 <= y < tex_height_div && 0 <= x < width ==> #[trigger] spec_squash_cell(
                r@,
                in_data@,
                input_stride as int,
                width as int,
                (input_stride * tex_height_div) as int,
                y,
                x,
            ),
{
    let ghost chunk_g = (input_stride * tex_height_div) as int;
    let mut out: Vec<u8> = Vec::new();
    let n = in_data.len();
    proof {
        assert(in_data@.len() == n);
        assert(input_stride * tex_height_div <= input_stride * (3 * tex_height_div)) by (
        nonlinear_arith)
            requires
                tex_height_div >= 0 && input_stride >= 0,
        ;
    }
    let chunk = input_stride * tex_height_div;
    let mut y: usize = 0;
    while y < tex_height_div
        invariant
            width <= input_stride,
            n == in_data@.len(),
            in_data@.len() >= input_stride * (3 * tex_height_div),
            4 * (width * tex_height_div) <= usize::MAX,
            chunk == input_stride * tex_height_div,
            chunk_g == chunk,
            0 <= y <= tex_height_div,
            out@.len() == 4 * (width * y),
            forall|y2: int, x2: int|
                0 <= y2 < y && 0 <= x2 < width ==> #[trigger] spec_squash_cell(
                    out@,
                    in_data@,
                    input_stride as int,
                    width as int,
                    chunk_g,
                    y2,
                    x2,
                ),
        decreases tex_height_div - y,
    {
        proof {
            assert((y + 1) * width <= tex_height_div * width && y * input_stride <= (
            tex_height_div as int - 1) * input_stride && 4 * (width * (y + 1)) <= 4 * (width
                * tex_height_div) && width * tex_height_div == tex_height_div * width && 4 * (width
                * y) + 4 * width == 4 * (width * (y + 1))) by (nonlinear_arith)
                requires
                    0 <= y < tex_height_div,
                    0 <= width,
                    0 <= input_stride,
            ;
        }
        let mut x: usize = 0;
        while x < width
            invariant
                width <= input_stride,
                n == in_data@.len(),
                in_data@.len() >= input_stride * (3 * tex_height_div),
                4 * (width * tex_height_div) <= usize::MAX,
                chunk == input_stride * tex_height_div,
                chunk_g == chunk,
                0 <= y < tex_height_div,
                0 <= x <= width,
                4 * (width * (y + 1)) <= 4 * (width * tex_height_div),
                out@.len() == 4 * (width * y) + 4 * x,
                forall|y2: int, x2: int|
                    0 <= y2 < y && 0 <= x2 < width ==> #[trigger] spec_squash_cell(
                        out@,
                        in_data@,
                        input_stride as int,
                        width as int,
                        chunk_g,
                        y2,
                        x2,
                    ),
                forall|x2: int|
                    0 <= x2 < x ==> #[trigger] spec_squash_cell(
                        out@,
                        in_data@,
                        input_stride as int,
                        width as int,
                        chunk_g,
                        y as int,
                        x2,
                    ),
            decreases width - x,
        {
            proof {
                assert((y * width + x) * 4 == 4 * (width * y) + 4 * x && y * input_stride + x + 2
                    * (input_stride * tex_height_div) < input_stride * (3 * tex_height_div) && 4 * (
                width * y) + 4 * x + 4 <= 4 * (width * (y + 1))) by (nonlinear_arith)
                    requires
                        0 <= y < tex_height_div,
                        0 <= x < width,
                        width <= input_stride,
                ;
            }
            let base = y * input_stride + x;
            let ghost pre = out@;
            out.push(in_data[base]);
            out.push(in_data[base + chunk]);
            out.push(in_data[base + 2 * chunk]);
            out.push(0xFF);
            proof {
                let w = width as int;
                let st = input_stride as int;
                assert forall|y2: int, x2: int|
                    0 <= y2 < y && 0 <= x2 < w implies spec_squash_cell(
                    out@,
                    in_data@,
                    st,
                    w,
                    chunk_g,
                    y2,
                    x2,
                ) by {
                    assert((y2 * w + x2) * 4 + 3 < 4 * (w * y)) by (nonlinear_arith)
                        requires
                            0 <= y2 < y && 0 <= x2 < w,
                    ;
                    assert(spec_squash_cell(pre, in_data@, st, w, chunk_g, y2, x2));
                };
                assert forall|x2: int| 0 <= x2 < x + 1 implies spec_squash_cell(
                    out@,
                    in_data@,
                    st,
                    w,
                    chunk_g,
                    y as int,
                    x2,
                ) by {
                    if x2 < x {
                        assert((y * w + x2) * 4 + 3 < 4 * (w * y) + 4 * x) by (nonlinear_arith)
                            requires
                                0 <= x2 < x && 0 <= y && 0 <= w && x <= w,
                        ;
                        assert(spec_squash_cell(pre, in_data@, st, w, chunk_g, y as int, x2));
                    } else {
                        assert((y * w + x2) * 4 == 4 * (w * y) + 4 * x) by (nonlinear_arith)
                            requires
                                x2 == x && 0 <= y && 0 <= w,
                        ;
                    }
                };
            }
            x = x + 1;
        }
        y = y + 1;
        proof {
            assert(4 * (width * (y - 1)) + 4 * width == 4 * (width * y as int)) by (
            nonlinear_arith);
        }
    }
    proof {
        assert(4 * (width * tex_height_div) == 4 * (width * tex_height_div as int));
    }
    out
}

} // verus!
