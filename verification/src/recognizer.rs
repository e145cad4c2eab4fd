//! The state recognizer: template matching over grayscale frames.
//!
//! A closed set of known pages is described by page templates, each owning a
//! fixed set of button templates. The fast path, [`verify_page`], matches
//! one hypothesized page's buttons against a frame; the slow path,
//! [`detect_any`], runs the fast path for every known page and keeps the
//! highest-confidence success. Button positions are reported in
//! frame-normalized parts per million, so they are resolution-independent.
//! Recognition never mutates templates.

use vstd::prelude::*;

use crate::errors::ControllerError;
use crate::img::GrayImage;
use crate::score::{score_spec, score_ppm, SCALE_PPM, MAX_PIXELS};

verus! {

/// A button below this confidence is rejected.
pub const BUTTON_CONFIDENCE_THRESHOLD_PPM: u64 = 600_000;

/// A page whose aggregate confidence is below this is rejected.
pub const PAGE_CONFIDENCE_THRESHOLD_PPM: u64 = 600_000;

/// A named reference image for one interactive element.
pub struct ButtonTemplate {
    pub button: u32,
    pub image: GrayImage,
}

/// A named page: its identity and the buttons that define it.
pub struct PageTemplate {
    pub page: u32,
    pub buttons: Vec<ButtonTemplate>,
}

/// One recognized button: its identity, its template-center position in
/// frame-normalized parts per million, and its confidence.
pub struct ButtonMatch {
    pub button: u32,
    pub x_ppm: u64,
    pub y_ppm: u64,
    pub confidence: u64,
}

/// One recognized page: its identity, the recognized buttons, and the
/// aggregate confidence (the mean of the accepted button confidences).
pub struct PageMatch {
    pub page: u32,
    pub buttons: Vec<ButtonMatch>,
    pub confidence: u64,
}

/// The `w*h` window of `f` whose top-left corner is `(x0, y0)`, row-major.
pub open spec fn region_spec(f: GrayImage, x0: int, y0: int, w: int, h: int) -> Seq<u8> {
    Seq::new((w * h) as nat, |i: int| f.pixels@[(y0 + i / w) * f.width + x0 + i % w])
}

/// The score of matching `t` at position `(px, py)` of `f`.
pub open spec fn pos_score(f: GrayImage, t: GrayImage, px: int, py: int) -> int {
    score_spec(region_spec(f, px, py, t.width as int, t.height as int), t.pixels@)
}

/// How many horizontal placements `t` has in `f`.
pub open spec fn num_pos_x(f: GrayImage, t: GrayImage) -> int {
    f.width - t.width + 1
}

/// How many vertical placements `t` has in `f`.
pub open spec fn num_pos_y(f: GrayImage, t: GrayImage) -> int {
    f.height - t.height + 1
}

/// The best score among the first `k` placements in row-major order
/// (zero when no placement was looked at yet; scores are never negative).
pub open spec fn best_upto(f: GrayImage, t: GrayImage, k: nat) -> int
    decreases k,
{
    if k == 0 {
        0
    } else {
        let p = k - 1;
        let px = p % num_pos_x(f, t);
        let py = p / num_pos_x(f, t);
        let prev = best_upto(f, t, (k - 1) as nat);
        if pos_score(f, t, px, py) > prev {
            pos_score(f, t, px, py)
        } else {
            prev
        }
    }
}

/// The best score of `t` over every placement in `f`.
pub open spec fn best_score_spec(f: GrayImage, t: GrayImage) -> int {
    best_upto(f, t, (num_pos_x(f, t) * num_pos_y(f, t)) as nat)
}

/// A template that can be matched against a frame: well-formed, no larger
/// than the frame, and within the scorer's window bound.
pub open spec fn template_fits(f: GrayImage, t: GrayImage) -> bool {
    &&& t.wf()
    &&& 1 <= t.width <= f.width
    &&& 1 <= t.height <= f.height
    &&& t.area() <= MAX_PIXELS as int
}

/// A page whose every button can be matched against `f`.
pub open spec fn page_fits(f: GrayImage, p: PageTemplate) -> bool {
    forall|i: int| 0 <= i < p.buttons@.len() ==> template_fits(f, #[trigger] p.buttons@[i].image)
}

/// Whether one button of a page is accepted against `f`.
pub open spec fn accepted(f: GrayImage, bt: ButtonTemplate) -> bool {
    best_score_spec(f, bt.image) >= BUTTON_CONFIDENCE_THRESHOLD_PPM as int
}

/// How many of the buttons are accepted.
pub open spec fn accepted_count(f: GrayImage, bs: Seq<ButtonTemplate>) -> int
    decreases bs.len(),
{
    if bs.len() == 0 {
        0
    } else {
        accepted_count(f, bs.drop_last()) + if accepted(f, bs.last()) {
            1int
        } else {
            0int
        }
    }
}

/// The sum of the accepted buttons' best scores.
pub open spec fn accepted_sum(f: GrayImage, bs: Seq<ButtonTemplate>) -> int
    decreases bs.len(),
{
    if bs.len() == 0 {
        0
    } else {
        accepted_sum(f, bs.drop_last()) + if accepted(f, bs.last()) {
            best_score_spec(f, bs.last().image)
        } else {
            0int
        }
    }
}

/// The aggregate confidence of a page against `f`: the mean of the accepted
/// button confidences. Meaningful only when at least one button is
/// accepted.
pub open spec fn page_confidence_spec(f: GrayImage, p: PageTemplate) -> int {
    accepted_sum(f, p.buttons@) / accepted_count(f, p.buttons@)
}

/// Whether the fast path succeeds for `p` against `f`.
pub open spec fn verify_ok(f: GrayImage, p: PageTemplate) -> bool {
    &&& accepted_count(f, p.buttons@) > 0
    &&& page_confidence_spec(f, p) >= PAGE_CONFIDENCE_THRESHOLD_PPM as int
}

/// The indices of the accepted buttons, in template order.
pub open spec fn accepted_idxs(f: GrayImage, bs: Seq<ButtonTemplate>) -> Seq<int>
    decreases bs.len(),
{
    if bs.len() == 0 {
        Seq::empty()
    } else {
        accepted_idxs(f, bs.drop_last()) + if accepted(f, bs.last()) {
            seq![bs.len() - 1]
        } else {
            Seq::<int>::empty()
        }
    }
}

/// The normalized position of a placement: the template center divided by
/// the frame dimension, in parts per million.
pub open spec fn norm_ppm(pos: int, tdim: int, fdim: int) -> int {
    (pos + tdim / 2) * (SCALE_PPM as int) / fdim
}

/// What one entry of a page match holds of its button template: the
/// button's identity, its best score as confidence, and a placement that
/// attains that score, in frame-normalized coordinates.
pub open spec fn button_match_at(f: GrayImage, bt: ButtonTemplate, bm: ButtonMatch) -> bool {
    &&& bm.button == bt.button
    &&& bm.confidence == best_score_spec(f, bt.image)
    &&& exists|px: int, py: int|
        {
            &&& 0 <= px < num_pos_x(f, bt.image)
            &&& 0 <= py < num_pos_y(f, bt.image)
            &&& #[trigger] pos_score(f, bt.image, px, py) == best_score_spec(f, bt.image)
            &&& bm.x_ppm == norm_ppm(px, bt.image.width as int, f.width as int)
            &&& bm.y_ppm == norm_ppm(py, bt.image.height as int, f.height as int)
        }
}

/// What a successful fast-path match of page `p` against frame `f` holds:
/// the page's identity, one entry per accepted button in template order,
/// and the mean of the entries' confidences as aggregate confidence.
pub open spec fn is_verify_match(f: GrayImage, p: PageTemplate, m: PageMatch) -> bool {
    let idxs = accepted_idxs(f, p.buttons@);
    &&& m.page == p.page
    &&& m.confidence == page_confidence_spec(f, p)
    &&& m.buttons@.len() == idxs.len()
    &&& forall|i: int|
        0 <= i < idxs.len() ==> button_match_at(f, p.buttons@[idxs[i]], #[trigger] m.buttons@[i])
}

/// Copy the `w*h` window of `f` at `(x0, y0)` into a fresh buffer.
fn extract_region(f: &GrayImage, x0: usize, y0: usize, w: usize, h: usize) -> (r: Vec<u8>)
    requires
        f.wf(),
        1 <= w,
        1 <= h,
        x0 + w <= f.width,
        y0 + h <= f.height,
    ensures
        r@ == region_spec(*f, x0 as int, y0 as int, w as int, h as int),
{
    let flen = f.pixels.len();
    let mut out: Vec<u8> = Vec::new();
    let mut row: usize = 0;
    proof {
        assert(f.width * f.height <= usize::MAX);
    }
    while row < h
        invariant
            row <= h,
            1 <= w,
            x0 + w <= f.width,
            y0 + h <= f.height,
            f.wf(),
            f.pixels@.len() <= usize::MAX,
            out@.len() == row * w,
            forall|k: int|
                0 <= k < out@.len() ==> #[trigger] out@[k] == f.pixels@[(y0 + k / (w as int))
                    * f.width + x0 + k % (w as int)],
        decreases h - row,
    {
        proof {
            assert((y0 + row) * f.width + f.width <= f.height * f.width) by (nonlinear_arith)
                requires
                    y0 + row + 1 <= f.height,
                    f.width >= 0,
            ;
            assert(f.height * f.width == f.width * f.height) by (nonlinear_arith);
            assert((y0 + row) * f.width + f.width == (y0 + row + 1) * f.width)
                by (nonlinear_arith);
            assert(row * w + w == (row + 1) * w) by (nonlinear_arith);
        }
        let base = (y0 + row) * f.width;
        let mut col: usize = 0;
        while col < w
            invariant
                col <= w,
                row < h,
                1 <= w,
                x0 + w <= f.width,
                y0 + h <= f.height,
                f.wf(),
                f.pixels@.len() <= usize::MAX,
                base == (y0 + row) * f.width,
                base + f.width <= f.pixels@.len(),
                x0 + w <= f.width,
                out@.len() == row * w + col,
                forall|k: int|
                    0 <= k < out@.len() ==> #[trigger] out@[k] == f.pixels@[(y0 + k / (w as int))
                        * f.width + x0 + k % (w as int)],
            decreases w - col,
        {
            let ghost k0 = out@.len() as int;
            out.push(f.pixels[base + x0 + col]);
            proof {
                vstd::arithmetic::div_mod::lemma_fundamental_div_mod_converse(
                    k0,
                    w as int,
                    row as int,
                    col as int,
                );
            }
            col = col + 1;
        }
        row = row + 1;
    }
    proof {
        assert(h * w == w * h) by (nonlinear_arith);
        assert(out@ =~= region_spec(*f, x0 as int, y0 as int, w as int, h as int));
    }
    out
}

/// Slide `t` over every placement in `f` and return the placement with the
/// best score, along with that score: the first such placement in row-major
/// order.
pub fn best_match(f: &GrayImage, t: &GrayImage) -> (r: (usize, usize, u64))
    requires
        f.wf(),
        template_fits(*f, *t),
    ensures
        r.2 == best_score_spec(*f, *t),
        r.0 < num_pos_x(*f, *t),
        r.1 < num_pos_y(*f, *t),
        pos_score(*f, *t, r.0 as int, r.1 as int) == r.2,
        forall|px: int, py: int|
            0 <= px < num_pos_x(*f, *t) && 0 <= py < num_pos_y(*f, *t) ==> #[trigger] pos_score(
                *f,
                *t,
                px,
                py,
            ) <= r.2,
{
    let nx = f.width - t.width + 1;
    let ny = f.height - t.height + 1;
    let mut best: u64 = 0;
    let mut bx: usize = 0;
    let mut by: usize = 0;
    let mut py: usize = 0;
    let ghost mut k: int = 0;
    while py < ny
        invariant
            py <= ny,
            nx == num_pos_x(*f, *t),
            ny == num_pos_y(*f, *t),
            f.wf(),
            template_fits(*f, *t),
            k == py * nx,
            best == best_upto(*f, *t, k as nat),
            k > 0 ==> {
                &&& bx < nx
                &&& by < ny
                &&& pos_score(*f, *t, bx as int, by as int) == best
            },
            k == 0 ==> best == 0 && bx == 0 && by == 0,
        decreases ny - py,
    {
        let mut px: usize = 0;
        while px < nx
            invariant
                px <= nx,
                py < ny,
                nx == num_pos_x(*f, *t),
                ny == num_pos_y(*f, *t),
                f.wf(),
                template_fits(*f, *t),
                k == py * nx + px,
                best == best_upto(*f, *t, k as nat),
                k > 0 ==> {
                    &&& bx < nx
                    &&& by < ny
                    &&& pos_score(*f, *t, bx as int, by as int) == best
                },
                k == 0 ==> best == 0 && bx == 0 && by == 0,
            decreases nx - px,
        {
            let region = extract_region(f, px, py, t.width, t.height);
            proof {
                assert(1 <= t.width * t.height) by (nonlinear_arith)
                    requires
                        t.width >= 1,
                        t.height >= 1,
                ;
                assert(region@.len() == t.width * t.height) by (nonlinear_arith)
                    requires
                        region@.len() == t.width * t.height,
                ;
            }
            let s = score_ppm(&region, &t.pixels);
            proof {
                vstd::arithmetic::div_mod::lemma_fundamental_div_mod_converse(
                    k,
                    nx as int,
                    py as int,
                    px as int,
                );
                assert(best_upto(*f, *t, (k + 1) as nat) == (if pos_score(
                    *f,
                    *t,
                    px as int,
                    py as int,
                ) > best_upto(*f, *t, k as nat) {
                    pos_score(*f, *t, px as int, py as int)
                } else {
                    best_upto(*f, *t, k as nat)
                }));
                assert(pos_score(*f, *t, px as int, py as int) == s);
            }
            if s > best {
                best = s;
                bx = px;
                by = py;
            }
            proof {
                k = k + 1;
            }
            px = px + 1;
        }
        proof {
            assert(py * nx + nx == (py + 1) * nx) by (nonlinear_arith);
        }
        py = py + 1;
    }
    proof {
        assert(k == ny * nx) by (nonlinear_arith)
            requires
                k == ny * nx + 0,
        ;
        assert(nx * ny == ny * nx) by (nonlinear_arith);
        assert(k >= 1) by (nonlinear_arith)
            requires
                k == ny * nx,
                nx >= 1,
                ny >= 1,
        ;
        lemma_best_upto_dominates(*f, *t, (nx * ny) as nat);
    }
    (bx, by, best)
}

/// Every placement's score is at most the best over all placements.
proof fn lemma_best_upto_dominates(f: GrayImage, t: GrayImage, total: nat)
    requires
        total == num_pos_x(f, t) * num_pos_y(f, t),
        num_pos_x(f, t) >= 1,
        num_pos_y(f, t) >= 1,
    ensures
        forall|px: int, py: int|
            0 <= px < num_pos_x(f, t) && 0 <= py < num_pos_y(f, t) ==> #[trigger] pos_score(
                f,
                t,
                px,
                py,
            ) <= best_upto(f, t, total),
{
    let nx = num_pos_x(f, t);
    let ny = num_pos_y(f, t);
    assert forall|px: int, py: int| 0 <= px < nx && 0 <= py < ny implies #[trigger] pos_score(
        f,
        t,
        px,
        py,
    ) <= best_upto(f, t, total) by {
        let p = py * nx + px;
        assert(0 <= p && p < total) by (nonlinear_arith)
            requires
                total == nx * ny,
                p == py * nx + px,
                0 <= px < nx,
                0 <= py < ny,
        ;
        vstd::arithmetic::div_mod::lemma_fundamental_div_mod_converse(p, nx, py, px);
        lemma_best_upto_step(f, t, (p + 1) as nat, total);
        assert(best_upto(f, t, (p + 1) as nat) >= pos_score(f, t, px, py));
    }
}

/// `best_upto` is monotone in the number of placements looked at.
proof fn lemma_best_upto_step(f: GrayImage, t: GrayImage, k: nat, m: nat)
    requires
        k <= m,
    ensures
        best_upto(f, t, k) <= best_upto(f, t, m),
    decreases m,
{
    if k < m {
        lemma_best_upto_step(f, t, k, (m - 1) as nat);
    }
}

/// The fast path: match each of the page's buttons against the frame, keep
/// those at or above the button threshold, and accept the page if the mean
/// of the kept confidences reaches the page threshold. Cost is proportional
/// to this one page's template count.
pub fn verify_page(f: &GrayImage, p: &PageTemplate) -> (r: Result<PageMatch, ControllerError>)
    requires
        f.wf(),
        page_fits(*f, *p),
    ensures
        match r {
            Ok(m) => verify_ok(*f, *p) && is_verify_match(*f, *p, m),
            Err(e) => match e {
                ControllerError::NoMatch => accepted_count(*f, p.buttons@) == 0,
                ControllerError::LowConfidence { confidence, threshold } => {
                    &&& accepted_count(*f, p.buttons@) > 0
                    &&& confidence == page_confidence_spec(*f, *p)
                    &&& threshold == PAGE_CONFIDENCE_THRESHOLD_PPM
                    &&& confidence < threshold
                },
                _ => false,
            },
        },
{
    let mut found: Vec<ButtonMatch> = Vec::new();
    let mut sum: u128 = 0;
    let mut count: u64 = 0;
    let mut j: usize = 0;
    let nb = p.buttons.len();
    while j < nb
        invariant
            j <= nb,
            nb == p.buttons@.len(),
            f.wf(),
            page_fits(*f, *p),
            count as int == accepted_count(*f, p.buttons@.subrange(0, j as int)),
            sum as int == accepted_sum(*f, p.buttons@.subrange(0, j as int)),
            count <= j,
            sum <= count as int * SCALE_PPM,
            found@.len() == accepted_idxs(*f, p.buttons@.subrange(0, j as int)).len(),
            forall|i: int|
                0 <= i < found@.len() ==> button_match_at(
                    *f,
                    p.buttons@[accepted_idxs(*f, p.buttons@.subrange(0, j as int))[i]],
                    #[trigger] found@[i],
                ),
        decreases nb - j,
    {
        let ghost pre = p.buttons@.subrange(0, j as int);
        let ghost idxs_pre = accepted_idxs(*f, pre);
        let bt = &p.buttons[j];
        let (bx, by, s) = best_match(f, &bt.image);
        proof {
            assert(p.buttons@.subrange(0, j + 1).drop_last() =~= pre);
            assert(p.buttons@.subrange(0, j + 1).last() == p.buttons@[j as int]);
        }
        if s >= BUTTON_CONFIDENCE_THRESHOLD_PPM {
            let half_w = bt.image.width / 2;
            let half_h = bt.image.height / 2;
            proof {
                assert((bx + half_w) * (SCALE_PPM as int) <= f.width * (SCALE_PPM as int))
                    by (nonlinear_arith)
                    requires
                        bx + half_w <= f.width,
                ;
                assert(f.width * (SCALE_PPM as int)
                    < 0x1_0000_0000_0000_0000_0000_0000_0000_0000) by (nonlinear_arith)
                    requires
                        f.width <= usize::MAX,
                        usize::MAX <= 0xffff_ffff_ffff_ffffu64,
                ;
                assert((by + half_h) * (SCALE_PPM as int) <= f.height * (SCALE_PPM as int))
                    by (nonlinear_arith)
                    requires
                        by + half_h <= f.height,
                ;
                assert(f.height * (SCALE_PPM as int)
                    < 0x1_0000_0000_0000_0000_0000_0000_0000_0000) by (nonlinear_arith)
                    requires
                        f.height <= usize::MAX,
                        usize::MAX <= 0xffff_ffff_ffff_ffffu64,
                ;
            }
            let xq: u128 = ((bx + half_w) as u128) * (SCALE_PPM as u128) / (f.width as u128);
            let yq: u128 = ((by + half_h) as u128) * (SCALE_PPM as u128) / (f.height as u128);
            proof {
                vstd::arithmetic::div_mod::lemma_div_is_ordered(
                    ((bx + half_w) as int) * (SCALE_PPM as int),
                    (f.width as int) * (SCALE_PPM as int),
                    f.width as int,
                );
                vstd::arithmetic::div_mod::lemma_div_multiples_vanish(
                    SCALE_PPM as int,
                    f.width as int,
                );
                vstd::arithmetic::div_mod::lemma_div_is_ordered(
                    ((by + half_h) as int) * (SCALE_PPM as int),
                    (f.height as int) * (SCALE_PPM as int),
                    f.height as int,
                );
                vstd::arithmetic::div_mod::lemma_div_multiples_vanish(
                    SCALE_PPM as int,
                    f.height as int,
                );
            }
            let bm = ButtonMatch {
                button: bt.button,
                x_ppm: xq as u64,
                y_ppm: yq as u64,
                confidence: s,
            };
            let ghost found_pre = found@;
            found.push(bm);
            sum = sum + s as u128;
            count = count + 1;
            proof {
                let idxs = accepted_idxs(*f, p.buttons@.subrange(0, j + 1));
                assert(idxs =~= idxs_pre + seq![j as int]);
                assert(found@ =~= found_pre.push(bm));
                let btj = p.buttons@[j as int];
                assert(pos_score(*f, btj.image, bx as int, by as int) == best_score_spec(
                    *f,
                    btj.image,
                ));
                assert(bm.x_ppm == norm_ppm(bx as int, btj.image.width as int, f.width as int));
                assert(bm.y_ppm == norm_ppm(by as int, btj.image.height as int, f.height as int));
                assert(button_match_at(*f, btj, bm));
                assert forall|i: int| 0 <= i < found@.len() implies button_match_at(
                    *f,
                    p.buttons@[idxs[i]],
                    #[trigger] found@[i],
                ) by {
                    if i < found_pre.len() {
                        assert(idxs[i] == idxs_pre[i]);
                        assert(found@[i] == found_pre[i]);
                        assert(button_match_at(*f, p.buttons@[idxs_pre[i]], found_pre[i]));
                    } else {
                        assert(i == found_pre.len());
                        assert(idxs[i] == j as int);
                        assert(found@[i] == bm);
                    }
                }
            }
        } else {
            proof {
                let idxs = accepted_idxs(*f, p.buttons@.subrange(0, j + 1));
                assert(idxs =~= idxs_pre);
                assert forall|i: int| 0 <= i < found@.len() implies button_match_at(
                    *f,
                    p.buttons@[idxs[i]],
                    #[trigger] found@[i],
                ) by {
                    assert(idxs[i] == idxs_pre[i]);
                    assert(button_match_at(*f, p.buttons@[idxs_pre[i]], found@[i]));
                }
            }
        }
        j = j + 1;
    }
    proof {
        assert(p.buttons@.subrange(0, nb as int) =~= p.buttons@);
    }
    if count == 0 {
        return Err(ControllerError::NoMatch);
    }
    let conf128: u128 = sum / count as u128;
    proof {
        vstd::arithmetic::div_mod::lemma_div_multiples_vanish(SCALE_PPM as int, count as int);
        vstd::arithmetic::div_mod::lemma_div_is_ordered(
            sum as int,
            count as int * SCALE_PPM,
            count as int,
        );
        assert(count as int * SCALE_PPM == SCALE_PPM * count as int) by (nonlinear_arith);
    }
    let conf = conf128 as u64;
    if conf < PAGE_CONFIDENCE_THRESHOLD_PPM {
        return Err(
            ControllerError::LowConfidence {
                confidence: conf,
                threshold: PAGE_CONFIDENCE_THRESHOLD_PPM,
            },
        );
    }
    Ok(PageMatch { page: p.page, buttons: found, confidence: conf })
}

/// The slow path: run the fast path for every known page, keep the
/// highest-confidence success (the first of equals), and fail with
/// `NoMatch` if no page succeeds. Cost is proportional to the total
/// template count across all pages; intended as a fallback after a
/// fast-path rejection.
pub fn detect_any(f: &GrayImage, pages: &Vec<PageTemplate>) -> (r: Result<
    PageMatch,
    ControllerError,
>)
    requires
        f.wf(),
        forall|i: int| 0 <= i < pages@.len() ==> page_fits(*f, #[trigger] pages@[i]),
    ensures
        match r {
            Ok(m) => {
                &&& exists|i: int|
                    0 <= i < pages@.len() && verify_ok(*f, #[trigger] pages@[i]) && is_verify_match(
                        *f,
                        pages@[i],
                        m,
                    )
                &&& forall|i: int|
                    0 <= i < pages@.len() && verify_ok(*f, #[trigger] pages@[i])
                        ==> page_confidence_spec(*f, pages@[i]) <= m.confidence
            },
            Err(e) => {
                &&& e == ControllerError::NoMatch
                &&& forall|i: int| 0 <= i < pages@.len() ==> !verify_ok(*f, #[trigger] pages@[i])
            },
        },
{
    let mut best: Option<PageMatch> = None;
    let mut i: usize = 0;
    let np = pages.len();
    while i < np
        invariant
            i <= np,
            np == pages@.len(),
            f.wf(),
            forall|j: int| 0 <= j < pages@.len() ==> page_fits(*f, #[trigger] pages@[j]),
            match best {
                Some(m) => {
                    &&& exists|j: int|
                        0 <= j < i && verify_ok(*f, #[trigger] pages@[j]) && is_verify_match(
                            *f,
                            pages@[j],
                            m,
                        )
                    &&& forall|j: int|
                        0 <= j < i && verify_ok(*f, #[trigger] pages@[j])
                            ==> page_confidence_spec(*f, pages@[j]) <= m.confidence
                },
                None => forall|j: int| 0 <= j < i ==> !verify_ok(*f, #[trigger] pages@[j]),
            },
        decreases np - i,
    {
        let outcome = verify_page(f, &pages[i]);
        match outcome {
            Ok(m) => {
                let replace = match &best {
                    None => true,
                    Some(cur) => m.confidence > cur.confidence,
                };
                if replace {
                    best = Some(m);
                }
            },
            Err(_) => {},
        }
        i = i + 1;
    }
    match best {
        Some(m) => Ok(m),
        None => Err(ControllerError::NoMatch),
    }
}

/// The window of `f` that covers all of `f` is `f`'s own pixel buffer.
proof fn lemma_full_region_is_self(f: GrayImage)
    requires
        f.wf(),
        f.width >= 1,
        f.height >= 1,
    ensures
        region_spec(f, 0, 0, f.width as int, f.height as int) == f.pixels@,
{
    let w = f.width as int;
    let h = f.height as int;
    let region = region_spec(f, 0, 0, w, h);
    assert(w * h == f.pixels@.len());
    assert forall|i: int| 0 <= i < w * h implies region[i] == f.pixels@[i] by {
        vstd::arithmetic::div_mod::lemma_fundamental_div_mod(i, w);
        assert((i / w) * w + i % w == i);
    }
    assert(region =~= f.pixels@);
}

/// The self-match law: matching a template against a frame equal to itself
/// yields the full score, as long as the template is not a flat
/// (zero-variance) image. A flat image correlates with nothing, itself
/// included.
pub proof fn lemma_self_match_best_score(t: GrayImage)
    requires
        t.wf(),
        t.width >= 1,
        t.height >= 1,
        crate::score::var_num(t.pixels@) > 0,
    ensures
        best_score_spec(t, t) == SCALE_PPM as int,
{
    lemma_full_region_is_self(t);
    crate::score::lemma_self_score(t.pixels@);
    assert(num_pos_x(t, t) == 1);
    assert(num_pos_y(t, t) == 1);
    assert(pos_score(t, t, 0, 0) == SCALE_PPM as int);
    assert(best_upto(t, t, 1nat) == (if pos_score(t, t, 0, 0) > best_upto(t, t, 0nat) {
        pos_score(t, t, 0, 0)
    } else {
        best_upto(t, t, 0nat)
    }));
    assert(best_score_spec(t, t) == best_upto(t, t, 1nat));
}

/// The page-level self-match law: a page whose every button template equals
/// the frame itself (and is not flat) verifies with full confidence — in
/// particular, far above the 0.9 mark.
pub proof fn lemma_self_match_page(f: GrayImage, p: PageTemplate)
    requires
        f.wf(),
        f.width >= 1,
        f.height >= 1,
        f.area() <= MAX_PIXELS as int,
        crate::score::var_num(f.pixels@) > 0,
        p.buttons@.len() >= 1,
        forall|i: int| 0 <= i < p.buttons@.len() ==> (#[trigger] p.buttons@[i]).image == f,
    ensures
        verify_ok(f, p),
        page_confidence_spec(f, p) == SCALE_PPM as int,
{
    lemma_self_match_best_score(f);
    lemma_all_full_score(f, p.buttons@);
    let n = accepted_count(f, p.buttons@);
    assert(n == p.buttons@.len());
    assert(accepted_sum(f, p.buttons@) == n * (SCALE_PPM as int));
    vstd::arithmetic::div_mod::lemma_div_multiples_vanish(SCALE_PPM as int, n);
    assert((n * (SCALE_PPM as int)) / n == SCALE_PPM as int);
}

/// Buttons whose templates all equal the frame, at full score, are all
/// accepted and sum to the full score times their number.
proof fn lemma_all_full_score(f: GrayImage, bs: Seq<ButtonTemplate>)
    requires
        forall|i: int| 0 <= i < bs.len() ==> (#[trigger] bs[i]).image == f,
        best_score_spec(f, f) == SCALE_PPM as int,
    ensures
        accepted_count(f, bs) == bs.len(),
        accepted_sum(f, bs) == bs.len() * (SCALE_PPM as int),
    decreases bs.len(),
{
    if bs.len() == 0 {
    } else {
        lemma_all_full_score(f, bs.drop_last());
        assert(bs.last().image == f);
        assert(accepted(f, bs.last()));
        assert((bs.len() - 1) * (SCALE_PPM as int) + SCALE_PPM as int == bs.len() * (
        SCALE_PPM as int)) by (nonlinear_arith);
    }
}

/// Every window of a uniformly black frame is itself uniformly black, so
/// every placement of every template scores zero.
proof fn lemma_black_frame_zero_scores(f: GrayImage, t: GrayImage, k: nat)
    requires
        f.wf(),
        template_fits(f, t),
        forall|i: int| 0 <= i < f.pixels@.len() ==> #[trigger] f.pixels@[i] == 0,
        k <= num_pos_x(f, t) * num_pos_y(f, t),
    ensures
        best_upto(f, t, k) == 0,
    decreases k,
{
    if k == 0 {
    } else {
        lemma_black_frame_zero_scores(f, t, (k - 1) as nat);
        let p = k - 1;
        let nx = num_pos_x(f, t);
        let px = p % nx;
        let py = p / nx;
        vstd::arithmetic::div_mod::lemma_fundamental_div_mod(p, nx);
        vstd::arithmetic::div_mod::lemma_mod_bound(p, nx);
        vstd::arithmetic::div_mod::lemma_div_pos_is_pos(p, nx);
        assert(py < num_pos_y(f, t)) by (nonlinear_arith)
            requires
                p == py * nx + px,
                p < nx * num_pos_y(f, t),
                0 <= px < nx,
                0 <= py,
                nx >= 1,
        ;
        let region = region_spec(f, px, py, t.width as int, t.height as int);
        assert forall|i: int| 0 <= i < region.len() implies #[trigger] region[i] == 0 by {
            let w = t.width as int;
            vstd::arithmetic::div_mod::lemma_mod_bound(i, w);
            vstd::arithmetic::div_mod::lemma_div_pos_is_pos(i, w);
            vstd::arithmetic::div_mod::lemma_fundamental_div_mod(i, w);
            assert(i / w < t.height as int) by (nonlinear_arith)
                requires
                    i < w * t.height,
                    w >= 1,
                    i >= 0,
                    i / w * w + i % w == i,
                    0 <= i % w < w,
            ;
            assert((py + i / w) * f.width + px + i % w < f.pixels@.len()) by (nonlinear_arith)
                requires
                    0 <= i / w,
                    py + i / w < f.height as int,
                    0 <= px + i % w < f.width as int,
                    f.pixels@.len() == f.width * f.height,
            ;
            assert(0 <= (py + i / w) * f.width + px + i % w) by (nonlinear_arith)
                requires
                    0 <= py + i / w,
                    0 <= px + i % w,
                    f.width >= 0,
            ;
        }
        crate::score::lemma_constant_var(region, 0);
        assert(crate::score::score_spec(region, t.pixels@) == 0);
        assert(pos_score(f, t, px, py) == 0);
    }
}

/// The black-frame law: against a uniformly black frame, no button of any
/// page is ever accepted, so the fast path always rejects with `NoMatch`.
pub proof fn lemma_black_frame_rejected(f: GrayImage, p: PageTemplate)
    requires
        f.wf(),
        page_fits(f, p),
        forall|i: int| 0 <= i < f.pixels@.len() ==> #[trigger] f.pixels@[i] == 0,
    ensures
        accepted_count(f, p.buttons@) == 0,
        !verify_ok(f, p),
{
    lemma_black_none_accepted(f, p.buttons@);
}

/// No button is accepted against a black frame.
proof fn lemma_black_none_accepted(f: GrayImage, bs: Seq<ButtonTemplate>)
    requires
        f.wf(),
        forall|i: int| 0 <= i < bs.len() ==> template_fits(f, (#[trigger] bs[i]).image),
        forall|i: int| 0 <= i < f.pixels@.len() ==> #[trigger] f.pixels@[i] == 0,
    ensures
        accepted_count(f, bs) == 0,
    decreases bs.len(),
{
    if bs.len() == 0 {
    } else {
        assert forall|i: int| 0 <= i < bs.drop_last().len() implies template_fits(
            f,
            (#[trigger] bs.drop_last()[i]).image,
        ) by {
            assert(bs.drop_last()[i] == bs[i]);
        }
        lemma_black_none_accepted(f, bs.drop_last());
        let t = bs.last().image;
        assert(template_fits(f, t));
        let total = num_pos_x(f, t) * num_pos_y(f, t);
        assert(total >= 0) by (nonlinear_arith)
            requires
                total == num_pos_x(f, t) * num_pos_y(f, t),
                num_pos_x(f, t) >= 1,
                num_pos_y(f, t) >= 1,
        ;
        lemma_black_frame_zero_scores(f, t, total as nat);
        assert(best_score_spec(f, t) == 0);
        assert(!accepted(f, bs.last()));
    }
}


} // verus!
