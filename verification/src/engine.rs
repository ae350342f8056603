//! The run-sort engine: one pass over each row finds the runs of pixels that
//! meet the threshold and sorts each run's span by value.

use vstd::prelude::*;
use vstd::seq_lib::lemma_multiset_commutative;
use crate::buffer::{rotated270, rotated90, rotate270_then_90, PixelBuffer};
use crate::config::{Config, Mode};
use crate::pixel::{key_of, meets, meets_threshold, sort_key, Pixel};

verus! {

/// Whether the pixel in column `x` of a row may belong to a run: it meets the
/// threshold and does not stand in the last column.
pub open spec fn eligible(row: Seq<Pixel>, config: Config, x: int) -> bool {
    0 <= x < row.len() - 1 && meets(config, row[x])
}

/// Whether column `x` of a row lies in a sorted span: it and its right
/// neighbour may both belong to a run. The last pixel of a run is thus left
/// out of the run's span.
pub open spec fn in_span(row: Seq<Pixel>, config: Config, x: int) -> bool {
    eligible(row, config, x) && eligible(row, config, x + 1)
}

/// Whether columns `a` up to but without `b` are a sorted span of a row: all
/// of them lie in a span, and the columns on either side do not.
pub open spec fn is_span(row: Seq<Pixel>, config: Config, a: int, b: int) -> bool {
    &&& 0 <= a < b <= row.len()
    &&& forall|i: int| a <= i < b ==> in_span(row, config, i)
    &&& !in_span(row, config, a - 1)
    &&& !in_span(row, config, b)
}

/// The pixels of a sequence whose key is `k`, in their order.
pub open spec fn with_key(s: Seq<Pixel>, mode: Mode, reverse: bool, k: int) -> Seq<Pixel> {
    s.filter(|p: Pixel| key_of(mode, reverse, p) == k)
}

/// Whether `after` is `before` sorted by key, pixels of equal key keeping
/// their order: it holds the same pixels, its keys never fall, and for each
/// key the pixels with that key come in the order they came in.
pub open spec fn stably_sorted(
    before: Seq<Pixel>,
    after: Seq<Pixel>,
    mode: Mode,
    reverse: bool,
) -> bool {
    &&& after.len() == before.len()
    &&& after.to_multiset() == before.to_multiset()
    &&& forall|i: int, j: int|
        #![trigger after[i], after[j]]
        0 <= i <= j < after.len() ==> key_of(mode, reverse, after[i]) <= key_of(
            mode,
            reverse,
            after[j],
        )
    &&& forall|k: int| #[trigger]
        with_key(after, mode, reverse, k) == with_key(before, mode, reverse, k)
}

/// Whether `after` is the row `before` with each of its spans sorted: the
/// row holds the same pixels, every pixel outside the spans stands where it
/// stood, and each span holds its own pixels, sorted by key.
pub open spec fn row_sorted(before: Seq<Pixel>, after: Seq<Pixel>, config: Config) -> bool {
    &&& after.len() == before.len()
    &&& after.to_multiset() == before.to_multiset()
    &&& forall|x: int|
        0 <= x < before.len() && !in_span(before, config, x) ==> #[trigger] after[x] == before[x]
    &&& forall|a: int, b: int| #[trigger]
        is_span(before, config, a, b) ==> stably_sorted(
            before.subrange(a, b),
            after.subrange(a, b),
            config.mode,
            config.direction.is_reverse(),
        )
}

/// Row `y` of a grid that is `width` wide.
pub open spec fn row_of(px: Seq<Pixel>, width: int, y: int) -> Seq<Pixel> {
    px.subrange(y * width, y * width + width)
}

/// Whether `after` is the grid `before` with every row sorted by itself.
pub open spec fn rows_sorted(
    before: Seq<Pixel>,
    after: Seq<Pixel>,
    width: int,
    height: int,
    config: Config,
) -> bool {
    &&& after.len() == before.len()
    &&& forall|y: int|
        0 <= y < height ==> row_sorted(
            row_of(before, width, y),
            #[trigger] row_of(after, width, y),
            config,
        )
}

/// Whether `after` is the grid `before` sorted under a configuration: row by
/// row, or, where the direction is vertical, row by row in the grid turned a
/// quarter clockwise.
pub open spec fn image_sorted(
    before: Seq<Pixel>,
    after: Seq<Pixel>,
    width: int,
    height: int,
    config: Config,
) -> bool {
    if config.direction.is_vertical() {
        rows_sorted(
            rotated90(width, height, before),
            rotated90(width, height, after),
            height,
            width,
            config,
        )
    } else {
        rows_sorted(before, after, width, height, config)
    }
}

/// The column up to which a row is finished during a pass: the start of the
/// open run, or the current column where none is open.
spec fn frontier(start: Option<usize>, x: usize) -> int {
    match start {
        Some(s) => s as int,
        None => x as int,
    }
}

/// A sequence in which one stretch was replaced by a stretch of the same
/// pixels holds the same pixels as before.
pub proof fn same_pixels_after_reordering(before: Seq<Pixel>, after: Seq<Pixel>, lo: int, hi: int)
    requires
        0 <= lo <= hi <= before.len(),
        after.len() == before.len(),
        forall|i: int| 0 <= i < lo || hi <= i < before.len() ==> after[i] == before[i],
        after.subrange(lo, hi).to_multiset() == before.subrange(lo, hi).to_multiset(),
    ensures
        after.to_multiset() == before.to_multiset(),
{
    let n = before.len() as int;
    let head = before.subrange(0, lo);
    let tail = before.subrange(hi, n);
    assert(after.subrange(0, lo) =~= head);
    assert(after.subrange(hi, n) =~= tail);
    assert(before =~= (head + before.subrange(lo, hi)) + tail);
    assert(after =~= (head + after.subrange(lo, hi)) + tail);
    lemma_multiset_commutative(head, before.subrange(lo, hi));
    lemma_multiset_commutative(head, after.subrange(lo, hi));
    lemma_multiset_commutative(head + before.subrange(lo, hi), tail);
    lemma_multiset_commutative(head + after.subrange(lo, hi), tail);
}

/// Sorts `pixels[lo..hi]` by key with `sort_by_key` of std's slices.
/// Claimed of it, as std documents: the pixels outside the range stay, the
/// range holds the same pixels in the order of their keys, and pixels of
/// equal key keep their order.
#[verifier::external_body]
fn sort_span(pixels: &mut Vec<Pixel>, lo: usize, hi: usize, mode: Mode, reverse: bool)
    requires
        lo <= hi <= old(pixels)@.len(),
    ensures
        final(pixels)@.len() == old(pixels)@.len(),
        forall|i: int|
            0 <= i < lo || hi <= i < old(pixels)@.len() ==> #[trigger] final(pixels)@[i] == old(pixels)@[i],
        stably_sorted(
            old(pixels)@.subrange(lo as int, hi as int),
            final(pixels)@.subrange(lo as int, hi as int),
            mode,
            reverse,
        ),
{
    pixels[lo..hi].sort_by_key(|p| sort_key(mode, reverse, p));
}

/// Sorts the spans of one row, the `width` pixels from `base` on. The rest
/// of the pixels stay as they are.
pub fn sort_row(pixels: &mut Vec<Pixel>, base: usize, width: usize, config: &Config)
    requires
        base + width <= old(pixels)@.len(),
    ensures
        final(pixels)@.len() == old(pixels)@.len(),
        forall|i: int|
            0 <= i < base || base + width <= i < old(pixels)@.len() ==> #[trigger] final(pixels)@[i] == old(pixels)@[i],
        row_sorted(
            old(pixels)@.subrange(base as int, base + width),
            final(pixels)@.subrange(base as int, base + width),
            *config,
        ),
        final(pixels)@.to_multiset() == old(pixels)@.to_multiset(),
{
    let len: usize = pixels.len();
    let ghost row0 = pixels@.subrange(base as int, base + width);
    let ghost c = *config;
    let reverse: bool = config.direction.is_reverse();
    let mut start: Option<usize> = None;
    let mut end: Option<usize> = None;
    let mut x: usize = 0;
    while x < width
        invariant
            x <= width,
            c == *config,
            reverse == c.direction.is_reverse(),
            row0 == old(pixels)@.subrange(base as int, base + width),
            pixels@.len() == old(pixels)@.len(),
            base + width <= len,
            len == pixels@.len(),
            forall|i: int|
                0 <= i < base || base + width <= i < pixels@.len() ==> #[trigger] pixels@[i]
                    == old(pixels)@[i],
            pixels@.subrange(base as int, base + width).to_multiset() == row0.to_multiset(),
            x == width ==> start.is_none(),
            start matches Some(s) ==> {
                &&& s < x
                &&& forall|i: int| s <= i < x ==> eligible(row0, c, i)
                &&& !eligible(row0, c, s - 1)
                &&& s + 1 < x ==> end == Some((x - 1) as usize)
            },
            start.is_none() ==> !eligible(row0, c, x - 1),
            end matches Some(e) ==> e < x,
            forall|i: int|
                #![trigger pixels@[base + i]]
                frontier(start, x) <= i < width
                    ==> pixels@[base + i] == row0[i],
            forall|i: int|
                #![trigger pixels@[base + i]]
                0 <= i < frontier(start, x) && !in_span(
                    row0,
                    c,
                    i,
                ) ==> pixels@[base + i] == row0[i],
            forall|a: int, b: int| #[trigger]
                is_span(row0, c, a, b) && b <= frontier(start, x) ==> stably_sorted(
                    row0.subrange(a, b),
                    pixels@.subrange(base + a, base + b),
                    c.mode,
                    reverse,
                ),
        decreases width - x,
    {
        let ghost prev = pixels@;
        let ghost bnd: int = frontier(start, x);
        assert(pixels@[base + x] == row0[x as int]);
        let ok: bool = meets_threshold(config, &pixels[base + x]);
        if !ok || x == width - 1 {
            assert(!eligible(row0, c, x as int));
            assert(!in_span(row0, c, x as int));
            assert(!in_span(row0, c, x - 1));
            let ghost mut sorted: bool = false;
            if let Some(s) = start {
                if let Some(e) = end {
                    if e > s {
                        assert(e == x - 1);
                        proof {
                            let span = prev.subrange(base + s, base + e);
                            assert forall|k: int| 0 <= k < e - s implies span[k] == row0[s + k] by {
                                assert(prev[base + (s + k)] == row0[s + k]);
                            }
                            assert(span =~= row0.subrange(s as int, e as int));
                        }
                        sort_span(pixels, base + s, base + e, config.mode, reverse);
                        proof {
                            sorted = true;
                            let row1 = prev.subrange(base as int, base + width);
                            let row2 = pixels@.subrange(base as int, base + width);
                            assert(row1.subrange(s as int, e as int) =~= prev.subrange(
                                base + s,
                                base + e,
                            ));
                            assert(row2.subrange(s as int, e as int) =~= pixels@.subrange(
                                base + s,
                                base + e,
                            ));
                            assert forall|i: int| 0 <= i < s || e <= i < width implies row2[i]
                                == row1[i] by {
                                assert(pixels@[base + i] == prev[base + i]);
                            }
                            same_pixels_after_reordering(row1, row2, s as int, e as int);
                            assert(!in_span(row0, c, s - 1));
                            assert forall|a: int, b: int| #[trigger]
                                is_span(row0, c, a, b) && b <= x + 1 implies stably_sorted(
                                row0.subrange(a, b),
                                pixels@.subrange(base + a, base + b),
                                c.mode,
                                reverse,
                            ) by {
                                if b <= s {
                                    assert(pixels@.subrange(base + a, base + b) =~= prev.subrange(
                                        base + a,
                                        base + b,
                                    ));
                                } else {
                                    assert(in_span(row0, c, b - 1));
                                    assert(b <= x - 1);
                                    if b < x - 1 {
                                        assert(in_span(row0, c, b));
                                    }
                                    if a > s {
                                        assert(in_span(row0, c, a - 1));
                                    }
                                    if a < s {
                                        assert(in_span(row0, c, s - 1));
                                    }
                                    assert(a == s && b == e);
                                }
                            }
                        }
                    }
                }
            }
            proof {
                if !sorted {
                    assert forall|a: int, b: int| #[trigger]
                        is_span(row0, c, a, b) && b <= x + 1 implies b <= bnd by {
                        assert(in_span(row0, c, b - 1));
                    }
                }
            }
            start = None;
        } else if start.is_none() {
            start = Some(x);
        } else {
            end = Some(x);
        }
        x = x + 1;
    }
    proof {
        let after = pixels@.subrange(base as int, base + width);
        assert forall|a: int, b: int| #[trigger] is_span(row0, c, a, b) implies stably_sorted(
            row0.subrange(a, b),
            after.subrange(a, b),
            c.mode,
            c.direction.is_reverse(),
        ) by {
            assert(after.subrange(a, b) =~= pixels@.subrange(base + a, base + b));
        }
        assert forall|i: int| 0 <= i < row0.len() && !in_span(row0, c, i) implies #[trigger] after[i]
            == row0[i] by {
            assert(after[i] == pixels@[base + i]);
        }
        same_pixels_after_reordering(old(pixels)@, pixels@, base as int, base + width);
    }
}

/// Where the rows of a grid lie in it.
proof fn row_bounds(w: int, h: int, y: int)
    requires
        0 <= w,
        0 <= y < h,
    ensures
        0 <= y * w,
        y * w + w <= w * h,
        y * w + w <= h * w,
        (y + 1) * w == y * w + w,
{
    assert(0 <= y * w && y * w + w <= w * h && y * w + w <= h * w && (y + 1) * w == y * w + w)
        by (nonlinear_arith)
        requires
            0 <= w,
            0 <= y < h,
    ;
}

/// Sorts the spans of every row of a grid.
pub fn sort_rows(img: PixelBuffer, config: &Config) -> (out: PixelBuffer)
    requires
        img.wf(),
    ensures
        out.wf(),
        out.width == img.width,
        out.height == img.height,
        rows_sorted(img.pixels@, out.pixels@, img.width as int, img.height as int, *config),
        out.pixels@.to_multiset() == img.pixels@.to_multiset(),
{
    if img.width == 0 {
        proof {
            let px = img.pixels@;
            assert forall|y: int| 0 <= y < img.height implies row_sorted(
                row_of(px, 0, y),
                #[trigger] row_of(px, 0, y),
                *config,
            ) by {
                assert(y * 0 == 0) by (nonlinear_arith);
            }
        }
        return img;
    }
    let ghost before = img.pixels@;
    let ghost w = img.width as int;
    let ghost h = img.height as int;
    let width: usize = img.width as usize;
    let height: u32 = img.height;
    let mut pixels: Vec<Pixel> = img.pixels;
    let len: usize = pixels.len();
    let mut y: u32 = 0;
    let mut base: usize = 0;
    while y < height
        invariant
            y <= height,
            w == width,
            h == height,
            base == y * w,
            pixels@.len() == before.len(),
            before.len() == w * h,
            before.len() == len,
            pixels@.to_multiset() == before.to_multiset(),
            forall|i: int| base <= i < before.len() ==> #[trigger] pixels@[i] == before[i],
            forall|r: int|
                0 <= r < y ==> row_sorted(
                    row_of(before, w, r),
                    #[trigger] row_of(pixels@, w, r),
                    *config,
                ),
        decreases height - y,
    {
        let ghost prev = pixels@;
        proof {
            row_bounds(w, h, y as int);
            assert(prev.subrange(base as int, base + width) =~= row_of(before, w, y as int));
        }
        sort_row(&mut pixels, base, width, config);
        proof {
            assert(pixels@.subrange(base as int, base + width) =~= row_of(pixels@, w, y as int));
            assert forall|r: int| 0 <= r < y implies row_sorted(
                row_of(before, w, r),
                #[trigger] row_of(pixels@, w, r),
                *config,
            ) by {
                row_bounds(w, y as int, r);
                assert(row_of(pixels@, w, r) =~= row_of(prev, w, r));
            }
        }
        base = base + width;
        y = y + 1;
    }
    PixelBuffer { width: img.width, height: img.height, pixels }
}

/// Sorts an image: its rows, or its columns where the direction is vertical,
/// by turning it a quarter, sorting the rows and turning it back.
pub fn sort_image(img: PixelBuffer, config: Config) -> (out: PixelBuffer)
    requires
        img.wf(),
    ensures
        out.wf(),
        out.width == img.width,
        out.height == img.height,
        image_sorted(img.pixels@, out.pixels@, img.width as int, img.height as int, config),
{
    if config.direction.is_vertical() {
        let turned: PixelBuffer = img.rotate90();
        let sorted: PixelBuffer = sort_rows(turned, &config);
        let out: PixelBuffer = sorted.rotate270();
        proof {
            rotate270_then_90(img.height as int, img.width as int, sorted.pixels@);
        }
        out
    } else {
        sort_rows(img, &config)
    }
}

/// Run containment: in a grid sorted row by row, a pixel whose column does
/// not lie in a span of its row stands where it stood.
pub proof fn outside_spans_unchanged(
    before: Seq<Pixel>,
    after: Seq<Pixel>,
    width: int,
    height: int,
    config: Config,
    x: int,
    y: int,
)
    requires
        0 <= x < width,
        0 <= y < height,
        before.len() == width * height,
        rows_sorted(before, after, width, height, config),
        !in_span(row_of(before, width, y), config, x),
    ensures
        after[y * width + x] == before[y * width + x],
{
    row_bounds(width, height, y);
    let r0 = row_of(before, width, y);
    let r1 = row_of(after, width, y);
    assert(row_sorted(r0, r1, config));
    assert(r1[x] == r0[x]);
}

/// Boundary exclusion: a run is a stretch of eligible columns from `s` up to
/// but without `c`, with no eligible column on either side. Where it holds
/// two columns or more, its span is the run without its last column; where
/// it holds one, none of its columns lies in a span.
pub proof fn span_of_run(row: Seq<Pixel>, config: Config, s: int, c: int)
    requires
        0 <= s < c <= row.len(),
        forall|i: int| s <= i < c ==> eligible(row, config, i),
        !eligible(row, config, s - 1),
        !eligible(row, config, c),
    ensures
        c - s >= 2 ==> is_span(row, config, s, c - 1),
        !in_span(row, config, c - 1),
        forall|i: int| s <= i < c - 1 ==> in_span(row, config, i),
{
    assert forall|i: int| s <= i < c - 1 implies in_span(row, config, i) by {
        assert(eligible(row, config, i));
        assert(eligible(row, config, i + 1));
    }
}

/// A row in which every pixel meets the threshold has one run, closed in the
/// last column, and one span: all columns but the last two. Sorting the row
/// leaves the pixels of the last two columns where they stood.
pub proof fn full_row_span(row: Seq<Pixel>, after: Seq<Pixel>, config: Config)
    requires
        forall|x: int| 0 <= x < row.len() ==> meets(config, #[trigger] row[x]),
        row_sorted(row, after, config),
    ensures
        forall|x: int| in_span(row, config, x) <==> 0 <= x < row.len() - 2,
        row.len() >= 3 ==> is_span(row, config, 0, row.len() - 2),
        row.len() >= 3 ==> stably_sorted(
            row.subrange(0, row.len() - 2),
            after.subrange(0, row.len() - 2),
            config.mode,
            config.direction.is_reverse(),
        ),
        row.len() >= 1 ==> after[row.len() - 1] == row[row.len() - 1],
        row.len() >= 2 ==> after[row.len() - 2] == row[row.len() - 2],
{
    assert forall|x: int| in_span(row, config, x) <==> 0 <= x < row.len() - 2 by {
        if 0 <= x < row.len() - 2 {
            assert(meets(config, row[x]));
            assert(meets(config, row[x + 1]));
        }
    }
    if row.len() >= 3 {
        assert(is_span(row, config, 0, row.len() - 2));
    }
    if row.len() >= 1 {
        assert(!in_span(row, config, row.len() - 1));
    }
    if row.len() >= 2 {
        assert(!in_span(row, config, row.len() - 2));
    }
}

} // verus!
