//! The raster persistence codec.
//!
//! A painting exports as a raw RGB pixel grid matching the canvas one to
//! one: three bytes per cell in row-major order, each placed block at its
//! coordinate, unpainted cells black. The image layer outside this crate
//! wraps these bytes in an image file. Importing reads every pixel of the
//! grid back as a placed true color — the whole image is imported, so a
//! round trip through the raster cannot tell an unpainted cell from one
//! painted black; that loss is part of the format.

use vstd::prelude::*;
use crate::palette::{Color, spec_rgb_of_color, rgb_of_color};
use crate::store::PlacedStore;

verus! {

/// What a cell shows in the exported raster: its placed color, or black when
/// nothing was placed there.
pub open spec fn spec_cell_color(m: Map<(u32, u32), Color>, x: u32, y: u32) -> Color {
    if m.contains_key((x, y)) {
        m[(x, y)]
    } else {
        Color::Black
    }
}

/// The exported raster holds the right three bytes for the cell `(x, y)`.
pub open spec fn spec_pixel_bytes(
    r: Seq<u8>,
    m: Map<(u32, u32), Color>,
    x: int,
    y: int,
    width: int,
) -> bool {
    let idx = 3 * (y * width + x);
    let rgb = spec_rgb_of_color(spec_cell_color(m, x as u32, y as u32));
    &&& r[idx] == rgb.0
    &&& r[idx + 1] == rgb.1
    &&& r[idx + 2] == rgb.2
}

/// Export the painting as a raw RGB raster of the canvas grid: three bytes
/// per cell, row-major, placed blocks in their color, unpainted cells black.
pub fn raster_of(store: &PlacedStore, width: u16, height: u16) -> (r: Vec<u8>)
    requires
        store.wf(),
        3 * (width as int) * (height as int) <= usize::MAX,
    ensures
        r@.len() == 3 * (width as int) * (height as int),
        forall|x: int, y: int|
            0 <= x < width && 0 <= y < height ==> spec_pixel_bytes(r@, store@, x, y, width as int),
{
    let mut out: Vec<u8> = Vec::new();
    let mut yy: u16 = 0;
    while yy < height
        invariant
            store.wf(),
            yy <= height,
            out@.len() == 3 * (yy as int) * (width as int),
            forall|x: int, y: int|
                0 <= x < width && 0 <= y < yy ==> spec_pixel_bytes(out@, store@, x, y, width as int),
        decreases height - yy,
    {
        let mut xx: u16 = 0;
        proof {
            assert(3 * (yy as int) * (width as int) == 3 * ((yy as int) * (width as int)))
                by (nonlinear_arith);
        }
        while xx < width
            invariant
                store.wf(),
                xx <= width,
                yy < height,
                out@.len() == 3 * ((yy as int) * (width as int) + xx as int),
                forall|x: int, y: int|
                    0 <= x < width && 0 <= y < yy ==> spec_pixel_bytes(
                        out@,
                        store@,
                        x,
                        y,
                        width as int,
                    ),
                forall|x: int|
                    0 <= x < xx ==> spec_pixel_bytes(out@, store@, x, yy as int, width as int),
            decreases width - xx,
        {
            let ghost before = out@;
            let c = match store.get(xx as u32, yy as u32) {
                Some(c) => c,
                None => Color::Black,
            };
            let rgb = rgb_of_color(c);
            out.push(rgb.0);
            out.push(rgb.1);
            out.push(rgb.2);
            xx = xx + 1;
            proof {
                assert(forall|i: int| 0 <= i < before.len() ==> out@[i] == before[i]);
                assert(spec_pixel_bytes(out@, store@, xx as int - 1, yy as int, width as int));
                assert forall|x: int, y: int|
                    0 <= x < width && 0 <= y < yy implies spec_pixel_bytes(
                    out@,
                    store@,
                    x,
                    y,
                    width as int,
                ) by {
                    assert(spec_pixel_bytes(before, store@, x, y, width as int));
                    assert(3 * (y * (width as int) + x) + 2 < before.len()) by (nonlinear_arith)
                        requires
                            0 <= x && x < (width as int),
                            0 <= y && y < (yy as int),
                            1 <= xx as int,
                            before.len() == 3 * ((yy as int) * (width as int) + xx as int - 1),
                    ;
                }
                assert forall|x: int| 0 <= x < xx - 1 implies spec_pixel_bytes(
                    out@,
                    store@,
                    x,
                    yy as int,
                    width as int,
                ) by {
                    assert(spec_pixel_bytes(before, store@, x, yy as int, width as int));
                }
            }
        }
        yy = yy + 1;
        proof {
            assert(3 * ((yy as int - 1) * (width as int) + width as int) == 3 * (yy as int) * (
            width as int)) by (nonlinear_arith);
        }
    }
    proof {
        assert(3 * (yy as int) * (width as int) == 3 * (width as int) * (height as int))
            by (nonlinear_arith)
            requires
                yy as int == height as int,
        ;
    }
    out
}

/// The true color the raster holds for the cell `(x, y)`.
pub open spec fn spec_raster_color(d: Seq<u8>, x: int, y: int, width: int) -> Color {
    Color::Rgb {
        r: d[3 * (y * width + x)],
        g: d[3 * (y * width + x) + 1],
        b: d[3 * (y * width + x) + 2],
    }
}

/// The store after importing a raster over it: every grid cell takes the
/// raster's true color for it; entries outside the grid keep their color.
pub open spec fn overlay_raster(
    m: Map<(u32, u32), Color>,
    d: Seq<u8>,
    width: int,
    height: int,
) -> Map<(u32, u32), Color> {
    Map::new(
        |k: (u32, u32)| m.contains_key(k) || (k.0 < width && k.1 < height),
        |k: (u32, u32)|
            if k.0 < width && k.1 < height {
                spec_raster_color(d, k.0 as int, k.1 as int, width)
            } else {
                m[k]
            },
    )
}

/// The store part-way through an import: the cells before `(xx, yy)` in
/// row-major order are overlaid, the rest untouched.
spec fn overlay_upto(
    m: Map<(u32, u32), Color>,
    d: Seq<u8>,
    width: int,
    yy: int,
    xx: int,
) -> Map<(u32, u32), Color> {
    Map::new(
        |k: (u32, u32)| m.contains_key(k) || (k.0 < width && (k.1 < yy || (k.1 == yy && k.0 < xx))),
        |k: (u32, u32)|
            if k.0 < width && (k.1 < yy || (k.1 == yy && k.0 < xx)) {
                spec_raster_color(d, k.0 as int, k.1 as int, width)
            } else {
                m[k]
            },
    )
}

/// Import a raw RGB raster of the canvas grid: place every pixel's true
/// color at its coordinate — the entire image, not only non-background
/// pixels.
pub fn import_raster(store: &mut PlacedStore, data: &[u8], width: u16, height: u16)
    requires
        old(store).wf(),
        data@.len() == 3 * (width as int) * (height as int),
    ensures
        final(store).wf(),
        final(store)@ == overlay_raster(old(store)@, data@, width as int, height as int),
{
    let ghost m0 = store@;
    let mut pos: usize = 0;
    let mut yy: u16 = 0;
    proof {
        assert(store@ =~= overlay_upto(m0, data@, width as int, 0, 0));
    }
    while yy < height
        invariant
            store.wf(),
            yy <= height,
            data@.len() == 3 * (width as int) * (height as int),
            pos == 3 * ((yy as int) * (width as int)),
            store@ == overlay_upto(m0, data@, width as int, yy as int, 0),
        decreases height - yy,
    {
        let mut xx: u16 = 0;
        while xx < width
            invariant
                store.wf(),
                xx <= width,
                yy < height,
                data@.len() == 3 * (width as int) * (height as int),
                pos == 3 * ((yy as int) * (width as int) + xx as int),
                store@ == overlay_upto(m0, data@, width as int, yy as int, xx as int),
            decreases width - xx,
        {
            proof {
                assert((yy as int) * (width as int) + xx as int + 1 <= (height as int) * (
                width as int)) by (nonlinear_arith)
                    requires
                        0 <= xx as int && (xx as int) < (width as int),
                        0 <= yy as int && (yy as int) < (height as int),
                ;
                assert(3 * ((yy as int) * (width as int) + xx as int) + 3 <= 3 * (height as int) * (
                width as int)) by (nonlinear_arith)
                    requires
                        (yy as int) * (width as int) + xx as int + 1 <= (height as int) * (
                        width as int),
                ;
                assert(3 * (width as int) * (height as int) == 3 * (height as int) * (width as int))
                    by (nonlinear_arith);
            }
            let r = data[pos];
            let g = data[pos + 1];
            let b = data[pos + 2];
            store.insert(xx as u32, yy as u32, Color::Rgb { r, g, b });
            pos = pos + 3;
            xx = xx + 1;
            proof {
                assert(store@ =~= overlay_upto(
                    m0,
                    data@,
                    width as int,
                    yy as int,
                    xx as int,
                ));
            }
        }
        yy = yy + 1;
        proof {
            assert(3 * ((yy as int - 1) * (width as int) + width as int) == 3 * ((yy as int) * (
            width as int))) by (nonlinear_arith);
            assert(store@ =~= overlay_upto(m0, data@, width as int, yy as int, 0));
        }
    }
    proof {
        assert(store@ =~= overlay_raster(m0, data@, width as int, height as int));
    }
}

} // verus!
