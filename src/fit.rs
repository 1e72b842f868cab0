//! Fitting content to the screen: the font-size search and image scaling.

use vstd::prelude::*;

verus! {

/// A width and a height, in pixels.
#[derive(Clone, Copy, Debug, PartialEq, Eq, Structural)]
pub struct Size {
    pub width: u32,
    pub height: u32,
}

/// A scale factor, the ratio `num / den`.
#[derive(Clone, Copy, Debug, PartialEq, Eq, Structural)]
pub struct Scale {
    pub num: u32,
    pub den: u32,
}


/// Largest font size the search tries; it stops once it reaches it.
pub const MAX_FONT_SIZE: u32 = 1024;

/// Font size the search starts from, and the smallest it returns.
pub const MIN_FONT_SIZE: u32 = 4;

/// How many times the search may step back before it stops.
pub const RETRIES: u32 = 4;

/// A box `m` is too big for `target` when it is wider or taller than 96% of it.
pub open spec fn exceeds(m: Size, target: Size) -> bool {
    100 * m.width > 96 * target.width || 100 * m.height > 96 * target.height
}

/// The first step of the search, by the number of characters of the text:
/// large steps for short titles, smaller ones for paragraphs.
pub open spec fn initial_step(n: nat) -> int {
    if n <= 3 {
        96
    } else if n <= 7 {
        64
    } else if n <= 15 {
        48
    } else {
        32
    }
}

/// Where the font-size search stops, started at `size` with `step` and
/// `retries` step-backs left, where `over(s)` says that the text at size `s`
/// is too big. A size that fits moves on by `step`; one that is too big steps
/// back by `step` and halves it, and after the last step-back the search
/// stops there. It stops too once the size reaches the maximum. Where even
/// the smallest size is too big it stops at the smallest.
pub open spec fn search(over: spec_fn(int) -> bool, size: int, step: int, retries: int) -> int
    decreases retries, MAX_FONT_SIZE - size,
{
    if retries <= 0 || step <= 0 || size >= MAX_FONT_SIZE {
        size
    } else if over(size) {
        if size < step + MIN_FONT_SIZE {
            MIN_FONT_SIZE as int
        } else if retries == 1 {
            size - step
        } else if size - step + step / 2 >= MAX_FONT_SIZE {
            size - step + step / 2
        } else {
            search(over, size - step + step / 2, step / 2, retries - 1)
        }
    } else if size + step >= MAX_FONT_SIZE {
        size + step
    } else {
        search(over, size + step, step, retries)
    }
}

/// The font size chosen for a text of `n` characters, at most the maximum.
pub open spec fn fit_size(over: spec_fn(int) -> bool, n: nat) -> int {
    let s = search(over, MIN_FONT_SIZE as int, initial_step(n), RETRIES as int);
    if s > MAX_FONT_SIZE {
        MAX_FONT_SIZE as int
    } else {
        s
    }
}

/// The sizes at which `measure` gives a box too big for `target`.
pub open spec fn overflows<F: Fn(u16) -> Size>(measure: F, target: Size) -> spec_fn(int) -> bool {
    |s: int| exists|m: Size| measure.ensures((s as u16,), m) && exceeds(m, target)
}

/// A measurer that can be called at every size and gives one box for each.
pub open spec fn measurer<F: Fn(u16) -> Size>(measure: F) -> bool {
    &&& forall|s: u16| measure.requires((s,))
    &&& forall|s: u16, a: Size, b: Size|
        measure.ensures((s,), a) && measure.ensures((s,), b) ==> a == b
}

/// Steps that stay positive over the step-backs left.
pub open spec fn steps_ok(step: int, retries: int) -> bool {
    &&& step >= 1
    &&& retries >= 2 ==> step >= 2
    &&& retries >= 3 ==> step >= 4
    &&& retries >= 4 ==> step >= 8
    &&& retries <= RETRIES
}

fn too_big(m: Size, target: Size) -> (r: bool)
    ensures
        r == exceeds(m, target),
{
    100 * (m.width as u64) > 96 * (target.width as u64) || 100 * (m.height as u64) > 96 * (
    target.height as u64)
}

/// A font size at which `text` fits in 96% of `target`, found by the
/// coarse-to-fine search that `search` describes; `measure(s)` gives the box
/// that the text takes at font size `s`. The search starts at 4 with a step
/// set by the text's length, and the size returned lies between 4 and 1024.
/// It is close to the largest size that fits, not always equal to it.
pub fn find_max_font_size<F: Fn(u16) -> Size>(text: &str, measure: &F, target: Size) -> (r: u16)
    requires
        measurer(*measure),
    ensures
        r == fit_size(overflows(*measure, target), text@.len()),
        MIN_FONT_SIZE <= r <= MAX_FONT_SIZE,
{
    let ghost over = overflows(*measure, target);
    let n = text.unicode_len();
    let mut step: u32 = if n <= 3 {
        96
    } else if n <= 7 {
        64
    } else if n <= 15 {
        48
    } else {
        32
    };
    let mut retries: u32 = RETRIES;
    let mut size: u32 = MIN_FONT_SIZE;
    let ghost goal = search(over, MIN_FONT_SIZE as int, step as int, RETRIES as int);
    proof {
        lemma_search_floor(over, size as int, step as int, retries as int);
    }
    loop
        invariant_except_break
            MIN_FONT_SIZE <= size < MAX_FONT_SIZE,
            1 <= retries,
            steps_ok(step as int, retries as int),
            step <= 96,
            search(over, size as int, step as int, retries as int) == goal,
        invariant
            measurer(*measure),
            over == overflows(*measure, target),
            goal >= MIN_FONT_SIZE,
        ensures
            size == goal,
            size < MAX_FONT_SIZE + 96,
        decreases retries, MAX_FONT_SIZE - size,
    {
        let m = measure(size as u16);
        let big = too_big(m, target);
        assert(big == over(size as int)) by {
            assert(size as u16 == size);
            if !big {
                assert forall|m2: Size| measure.ensures((size as u16,), m2) implies !exceeds(m2, target) by {
                    assert(m2 == m);
                }
            }
        }
        if big {
            if size < step + MIN_FONT_SIZE {
                size = MIN_FONT_SIZE;
                break;
            }
            size -= step;
            step /= 2;
            retries -= 1;
            if retries == 0 {
                break;
            }
        }
        size += step;
        if size >= MAX_FONT_SIZE {
            break;
        }
    }
    if size > MAX_FONT_SIZE {
        MAX_FONT_SIZE as u16
    } else {
        size as u16
    }
}

/// The search never goes below the smallest size.
pub proof fn lemma_search_floor(over: spec_fn(int) -> bool, size: int, step: int, retries: int)
    requires
        size >= MIN_FONT_SIZE,
    ensures
        search(over, size, step, retries) >= MIN_FONT_SIZE,
    decreases retries, MAX_FONT_SIZE - size,
{
    if retries <= 0 || step <= 0 || size >= MAX_FONT_SIZE {
    } else if over(size) {
        if size < step + MIN_FONT_SIZE {
        } else if retries == 1 {
        } else if size - step + step / 2 >= MAX_FONT_SIZE {
        } else {
            lemma_search_floor(over, size - step + step / 2, step / 2, retries - 1);
        }
    } else if size + step >= MAX_FONT_SIZE {
    } else {
        lemma_search_floor(over, size + step, step, retries);
    }
}


/// Below the maximum, the search stops on a size that fits, when it starts
/// from a size that fits or one step past a size that fits.
proof fn lemma_search_fits(over: spec_fn(int) -> bool, size: int, step: int, retries: int)
    requires
        size >= MIN_FONT_SIZE,
        retries >= 1,
        steps_ok(step, retries),
        (size == MIN_FONT_SIZE && !over(size)) || (size - step >= MIN_FONT_SIZE && !over(
            size - step,
        )),
    ensures
        search(over, size, step, retries) < MAX_FONT_SIZE ==> !over(search(over, size, step, retries)),
    decreases retries, MAX_FONT_SIZE - size,
{
    if size >= MAX_FONT_SIZE {
    } else if over(size) {
        if retries > 1 && size - step + step / 2 < MAX_FONT_SIZE {
            lemma_search_fits(over, size - step + step / 2, step / 2, retries - 1);
        }
    } else if size + step < MAX_FONT_SIZE {
        lemma_search_fits(over, size + step, step, retries);
    }
}

/// The font size chosen lies between 4 and 1024, and the text fits in 96% of
/// the target at that size. This holds wherever the text fits at the
/// smallest size and, should the search run up to the maximum, at the maximum.
pub proof fn lemma_fit_bound(over: spec_fn(int) -> bool, n: nat)
    requires
        !over(MIN_FONT_SIZE as int),
        search(over, MIN_FONT_SIZE as int, initial_step(n), RETRIES as int) >= MAX_FONT_SIZE
            ==> !over(MAX_FONT_SIZE as int),
    ensures
        MIN_FONT_SIZE <= fit_size(over, n) <= MAX_FONT_SIZE,
        !over(fit_size(over, n)),
{
    lemma_search_floor(over, MIN_FONT_SIZE as int, initial_step(n), RETRIES as int);
    lemma_search_fits(over, MIN_FONT_SIZE as int, initial_step(n), RETRIES as int);
}

proof fn lemma_product_fits(a: u64, b: u64)
    requires
        a <= u32::MAX,
        b <= u32::MAX,
    ensures
        a * b <= u64::MAX,
{
    assert(a * b <= (u32::MAX as int) * (u32::MAX as int)) by (nonlinear_arith)
        requires
            a <= u32::MAX,
            b <= u32::MAX,
    ;
}

/// The scale that fits a picture of size `image` in `target`: the smaller of
/// the two ratios of width and of height.
pub open spec fn fit_scale(target: Size, image: Size) -> Scale {
    if target.width * image.height <= target.height * image.width {
        Scale { num: target.width, den: image.width }
    } else {
        Scale { num: target.height, den: image.height }
    }
}

/// The uniform scale at which an image of size `image` fills `target` as far
/// as it can without being cropped: the scaled image fits in both
/// dimensions and touches the target's edges in one.
pub fn scale_to_fit(target: Size, image: Size) -> (r: Scale)
    requires
        image.width > 0,
        image.height > 0,
    ensures
        r == fit_scale(target, image),
        r.den > 0,
        image.width * r.num <= target.width * r.den,
        image.height * r.num <= target.height * r.den,
        image.width * r.num == target.width * r.den || image.height * r.num == target.height * r.den,
{
    let (tw, th, iw, ih) = (target.width as u64, target.height as u64, image.width as u64, image.height as u64);
    proof {
        lemma_product_fits(tw, ih);
        lemma_product_fits(th, iw);
    }
    let wide = tw * ih <= th * iw;
    if wide {
        let r = Scale { num: target.width, den: image.width };
        assert(image.height * r.num <= target.height * r.den) by (nonlinear_arith)
            requires
                target.width * image.height <= target.height * image.width,
                r.num == target.width,
                r.den == image.width,
        ;
        assert(image.width * r.num == target.width * r.den) by (nonlinear_arith)
            requires
                r.num == target.width,
                r.den == image.width,
        ;
        r
    } else {
        let r = Scale { num: target.height, den: image.height };
        assert(image.width * r.num <= target.width * r.den) by (nonlinear_arith)
            requires
                target.width * image.height > target.height * image.width,
                r.num == target.height,
                r.den == image.height,
        ;
        assert(image.height * r.num == target.height * r.den) by (nonlinear_arith)
            requires
                r.num == target.height,
                r.den == image.height,
        ;
        r
    }
}

} // verus!
