//! Turning a photo into the pet: cutting the subject out of its background, and
//! the whole-number steps of the visual styles.
//!
//! Pictures are RGBA buffers in row-major order; the pixel at column `x`, row
//! `y` of a `w`-wide picture has index `y * w + x`, and its four channels start
//! at byte `4 * index`.
use vstd::arithmetic::div_mod::{
    lemma_fundamental_div_mod, lemma_fundamental_div_mod_converse_div,
    lemma_fundamental_div_mod_converse_mod, lemma_mod_bound, lemma_small_mod,
};
use vstd::prelude::*;
use vstd::set_lib::{lemma_int_range, lemma_len_subset, set_int_range};

verus! {

/// Longest side a photo is brought down to before it is processed.
pub const MAX_SIDE: u32 = 512;
/// Longest side of the finished pet picture.
pub const OUTPUT_SIDE: u32 = 256;

/// An RGBA picture: `width * height` pixels of four bytes each, row by row.
#[derive(Debug, Clone)]
pub struct RgbaBuffer {
    pub width: u32,
    pub height: u32,
    pub data: Vec<u8>,
}

impl RgbaBuffer {
    pub open spec fn pixel_count(&self) -> int {
        self.width as int * self.height as int
    }

    /// The buffer holds exactly four bytes per pixel.
    pub open spec fn wf(&self) -> bool {
        self.data.len() == 4 * self.pixel_count()
    }
}

/// The visual style of the pet.
#[derive(Debug, Clone, Copy, PartialEq, Eq, Structural)]
pub enum PetStyle {
    /// The photo as it is, background removed.
    Original,
    /// Sticker look: centre enlarged, white outline.
    Chibi,
    /// Flat cel-shaded colour areas.
    Anime,
    /// Pixelated, with fewer colours.
    Pixel,
    /// Pencil lines on paper.
    Sketch,
}

impl PetStyle {
    pub open spec fn spec_name(self) -> Seq<char> {
        match self {
            PetStyle::Original => "original"@,
            PetStyle::Chibi => "chibi"@,
            PetStyle::Anime => "anime"@,
            PetStyle::Pixel => "pixel"@,
            PetStyle::Sketch => "sketch"@,
        }
    }

    pub open spec fn spec_from_name(s: Seq<char>) -> Option<PetStyle> {
        if s == "original"@ {
            Some(PetStyle::Original)
        } else if s == "chibi"@ {
            Some(PetStyle::Chibi)
        } else if s == "anime"@ {
            Some(PetStyle::Anime)
        } else if s == "pixel"@ {
            Some(PetStyle::Pixel)
        } else if s == "sketch"@ {
            Some(PetStyle::Sketch)
        } else {
            None
        }
    }

    pub fn as_str(&self) -> (r: &'static str)
        ensures
            r@ == self.spec_name(),
    {
        match self {
            PetStyle::Original => "original",
            PetStyle::Chibi => "chibi",
            PetStyle::Anime => "anime",
            PetStyle::Pixel => "pixel",
            PetStyle::Sketch => "sketch",
        }
    }

    pub fn from_db(value: &str) -> (r: Result<Self, String>)
        ensures
            match Self::spec_from_name(value@) {
                Some(x) => r == Ok::<Self, String>(x),
                None => r matches Err(e) && e@ == "未知的桌宠风格: "@ + value@,
            },
    {
        if crate::text::str_eq(value, "original") {
            Ok(PetStyle::Original)
        } else if crate::text::str_eq(value, "chibi") {
            Ok(PetStyle::Chibi)
        } else if crate::text::str_eq(value, "anime") {
            Ok(PetStyle::Anime)
        } else if crate::text::str_eq(value, "pixel") {
            Ok(PetStyle::Pixel)
        } else if crate::text::str_eq(value, "sketch") {
            Ok(PetStyle::Sketch)
        } else {
            Err(crate::text::concat("未知的桌宠风格: ", value))
        }
    }
}

/// Reading back the stored name of a style gives it again.
pub proof fn lemma_style_roundtrip(x: PetStyle)
    ensures
        PetStyle::spec_from_name(x.spec_name()) == Some(x),
{
    reveal_strlit("original");
    reveal_strlit("chibi");
    reveal_strlit("anime");
    reveal_strlit("pixel");
    reveal_strlit("sketch");
    assert("original"@[0] == 'o' && "chibi"@[0] == 'c' && "anime"@[0] == 'a');
    assert("pixel"@[0] == 'p' && "sketch"@[0] == 's');
}

// ---------------------------------------------------------------------------
// The pixel grid.
// ---------------------------------------------------------------------------

/// Pixels `k` and `q` of a `w`-wide grid of `n` pixels share an edge.
pub open spec fn adjacent(w: int, n: int, k: int, q: int) -> bool {
    &&& 0 <= k < n
    &&& 0 <= q < n
    &&& {
        ||| q == k + 1 && k % w != w - 1
        ||| k == q + 1 && q % w != w - 1
        ||| q == k + w
        ||| k == q + w
    }
}

/// Stepping one pixel to the right wraps to the next row exactly at the last column.
proof fn lemma_mod_succ(a: int, w: int)
    requires
        0 <= a,
        0 < w,
    ensures
        a % w < w - 1 ==> (a + 1) % w == a % w + 1,
        a % w == w - 1 ==> (a + 1) % w == 0,
        0 <= a % w < w,
{
    lemma_mod_bound(a, w);
    lemma_fundamental_div_mod(a, w);
    let q = a / w;
    let r = a % w;
    assert(a == q * w + r) by (nonlinear_arith)
        requires
            a == w * q + r,
    ;
    if r < w - 1 {
        lemma_fundamental_div_mod_converse_mod(a + 1, w, q, r + 1);
    } else {
        assert(a + 1 == (q + 1) * w + 0) by (nonlinear_arith)
            requires
                a == q * w + r,
                r == w - 1,
        ;
        lemma_fundamental_div_mod_converse_mod(a + 1, w, q + 1, 0);
    }
}

// ---------------------------------------------------------------------------
// Step 1: the background, grown from the border and the transparent pixels.
// ---------------------------------------------------------------------------

/// Channel `c` of pixel `k`.
pub open spec fn channel(d: Seq<u8>, k: int, c: int) -> int {
    d[4 * k + c] as int
}

pub open spec fn abs_diff(a: int, b: int) -> int {
    if a >= b { a - b } else { b - a }
}

/// No colour channel of the two pixels differs by more than `tol`.
pub open spec fn close_colours(d: Seq<u8>, k: int, q: int, tol: int) -> bool {
    &&& abs_diff(channel(d, k, 0), channel(d, q, 0)) <= tol
    &&& abs_diff(channel(d, k, 1), channel(d, q, 1)) <= tol
    &&& abs_diff(channel(d, k, 2), channel(d, q, 2)) <= tol
}

/// Where the background starts: every border pixel, and every pixel whose alpha is
/// below 32 (a picture that was already cut out).
pub open spec fn is_seed(d: Seq<u8>, w: int, n: int, k: int) -> bool {
    ||| d[4 * k + 3] < 32
    ||| k < w
    ||| k >= n - w
    ||| k % w == 0
    ||| k % w == w - 1
}

/// The background spreads from `k` to its neighbour `q` when their colours are close.
pub open spec fn bg_step(d: Seq<u8>, w: int, n: int, tol: int, k: int, q: int) -> bool {
    adjacent(w, n, k, q) && close_colours(d, k, q, tol)
}

pub open spec fn has_seeds(d: Seq<u8>, w: int, n: int, s: Set<int>) -> bool {
    forall|k: int| 0 <= k < n && is_seed(d, w, n, k) ==> #[trigger] s.contains(k)
}

pub open spec fn bg_closed(d: Seq<u8>, w: int, n: int, tol: int, s: Set<int>) -> bool {
    forall|k: int, q: int|
        #![trigger s.contains(k), bg_step(d, w, n, tol, k, q)]
        s.contains(k) && bg_step(d, w, n, tol, k, q) ==> s.contains(q)
}

/// Pixel `q` is background: it lies in every set of pixels that holds the seeds
/// and is closed under the background's spreading.
pub open spec fn in_background(d: Seq<u8>, w: int, n: int, tol: int, q: int) -> bool {
    forall|s: Set<int>|
        has_seeds(d, w, n, s) && bg_closed(d, w, n, tol, s) ==> #[trigger] s.contains(q)
}

/// The pixels that are not background.
pub open spec fn foreground(d: Seq<u8>, w: int, n: int, tol: int) -> Seq<bool> {
    Seq::new(n as nat, |k: int| !in_background(d, w, n, tol, k))
}

// ---------------------------------------------------------------------------
// Step 2: the connected pieces of the foreground.
// ---------------------------------------------------------------------------

pub open spec fn fg_step(fg: Seq<bool>, w: int, n: int, k: int, q: int) -> bool {
    adjacent(w, n, k, q) && fg[q]
}

pub open spec fn fg_closed(fg: Seq<bool>, w: int, n: int, s: Set<int>) -> bool {
    forall|k: int, q: int|
        #![trigger s.contains(k), fg_step(fg, w, n, k, q)]
        s.contains(k) && fg_step(fg, w, n, k, q) ==> s.contains(q)
}

/// Pixel `q` lies in the piece of foreground that holds pixel `s`: in every set that
/// holds `s` and every foreground neighbour of its members.
pub open spec fn in_component(fg: Seq<bool>, w: int, n: int, s: int, q: int) -> bool {
    forall|c: Set<int>| c.contains(s) && fg_closed(fg, w, n, c) ==> #[trigger] c.contains(q)
}

/// The pixels of the piece that holds `s`.
pub open spec fn component(fg: Seq<bool>, w: int, n: int, s: int) -> Set<int> {
    Set::new(|q: int| 0 <= q < n && in_component(fg, w, n, s, q))
}

/// `s` is the first pixel (in row-major order) of its piece of foreground.
pub open spec fn is_first_of_component(fg: Seq<bool>, w: int, n: int, s: int) -> bool {
    &&& 0 <= s < n
    &&& fg[s]
    &&& forall|t: int| 0 <= t < s && fg[t] ==> !#[trigger] in_component(fg, w, n, t, s)
}

/// Among the pieces that start before pixel `m`, the largest; of equally large
/// pieces the one that starts last. Given by its first pixel.
pub open spec fn largest_component(fg: Seq<bool>, w: int, n: int, m: int) -> Option<int>
    decreases m,
{
    if m <= 0 {
        None
    } else {
        let prev = largest_component(fg, w, n, m - 1);
        let s = m - 1;
        if is_first_of_component(fg, w, n, s) && match prev {
            None => true,
            Some(b) => component(fg, w, n, s).len() >= component(fg, w, n, b).len(),
        } {
            Some(s)
        } else {
            prev
        }
    }
}

// ---------------------------------------------------------------------------
// Growing the background.
// ---------------------------------------------------------------------------

/// How many entries are `true`.
pub open spec fn count_true(s: Seq<bool>) -> nat
    decreases s.len(),
{
    if s.len() == 0 {
        0
    } else {
        count_true(s.drop_last()) + if s.last() { 1nat } else { 0nat }
    }
}

proof fn lemma_count_mark(s: Seq<bool>, i: int)
    requires
        0 <= i < s.len(),
        !s[i],
    ensures
        count_true(s.update(i, true)) == count_true(s) + 1,
    decreases s.len(),
{
    let t = s.update(i, true);
    if i == s.len() - 1 {
        assert(t.drop_last() =~= s.drop_last());
    } else {
        assert(t.drop_last() =~= s.drop_last().update(i, true));
        lemma_count_mark(s.drop_last(), i);
    }
}

proof fn lemma_count_le(s: Seq<bool>)
    ensures
        count_true(s) <= s.len(),
    decreases s.len(),
{
    if s.len() > 0 {
        lemma_count_le(s.drop_last());
    }
}

/// `k` is among the first `upto` entries of the queue.
pub open spec fn queued(queue: Seq<usize>, upto: int, k: int) -> bool {
    exists|i: int| 0 <= i < upto && #[trigger] queue[i] == k
}

/// What the background search keeps true: every marked pixel is background and
/// was queued exactly when it was marked.
pub open spec fn growing(
    d: Seq<u8>,
    w: int,
    n: int,
    tol: int,
    bg: Seq<bool>,
    queue: Seq<usize>,
) -> bool {
    &&& bg.len() == n
    &&& queue.len() == count_true(bg)
    &&& forall|i: int| 0 <= i < queue.len() ==> #[trigger] queue[i] < n && bg[queue[i] as int]
    &&& forall|k: int| 0 <= k < n && #[trigger] bg[k] ==> queued(queue, queue.len() as int, k)
    &&& forall|k: int| 0 <= k < n && #[trigger] bg[k] ==> in_background(d, w, n, tol, k)
}

/// The first `head` queued pixels have passed the background on to every neighbour
/// of close colour.
pub open spec fn spread_from(
    d: Seq<u8>,
    w: int,
    n: int,
    tol: int,
    bg: Seq<bool>,
    queue: Seq<usize>,
    head: int,
) -> bool {
    forall|i: int, q: int|
        0 <= i < head && #[trigger] bg_step(d, w, n, tol, queue[i] as int, q) ==> bg[q]
}

/// Marks `q` as background when `p`, already background, spreads to it.
fn visit(
    d: &Vec<u8>,
    w: usize,
    n: usize,
    tol: i32,
    p: usize,
    q: usize,
    bg: &mut Vec<bool>,
    queue: &mut Vec<usize>,
)
    requires
        0 < w,
        d.len() == 4 * n,
        growing(d@, w as int, n as int, tol as int, old(bg)@, old(queue)@),
        p < n,
        old(bg)@[p as int],
        adjacent(w as int, n as int, p as int, q as int),
    ensures
        growing(d@, w as int, n as int, tol as int, final(bg)@, final(queue)@),
        final(queue)@ == old(queue)@ || final(queue)@ == old(queue)@.push(q),
        forall|k: int| 0 <= k < n && #[trigger] old(bg)@[k] ==> final(bg)@[k],
        bg_step(d@, w as int, n as int, tol as int, p as int, q as int) ==> final(bg)@[q as int],
{
    if bg[q] {
        return;
    }
    let a0 = d[4 * p] as i32;
    let a1 = d[4 * p + 1] as i32;
    let a2 = d[4 * p + 2] as i32;
    let b0 = d[4 * q] as i32;
    let b1 = d[4 * q + 1] as i32;
    let b2 = d[4 * q + 2] as i32;
    let d0 = if a0 >= b0 { a0 - b0 } else { b0 - a0 };
    let d1 = if a1 >= b1 { a1 - b1 } else { b1 - a1 };
    let d2 = if a2 >= b2 { a2 - b2 } else { b2 - a2 };
    let m01 = if d0 >= d1 { d0 } else { d1 };
    let diff = if m01 >= d2 { m01 } else { d2 };
    if diff <= tol {
        let ghost dv = d@;
        let ghost old_bg = bg@;
        let ghost old_queue = queue@;
        proof {
            let (wi, ni, ti) = (w as int, n as int, tol as int);
            assert(bg_step(dv, wi, ni, ti, p as int, q as int));
            assert(in_background(dv, wi, ni, ti, p as int));
            assert forall|s: Set<int>| has_seeds(dv, wi, ni, s) && bg_closed(dv, wi, ni, ti, s)
                implies #[trigger] s.contains(q as int) by {
                assert(s.contains(p as int));
                assert(bg_step(dv, wi, ni, ti, p as int, q as int));
            }
            lemma_count_mark(old_bg, q as int);
        }
        bg.set(q, true);
        queue.push(q);
        proof {
            let nq = queue@;
            assert forall|k: int| 0 <= k < n && #[trigger] bg@[k] implies queued(nq, nq.len() as int, k) by {
                if k == q as int {
                    assert(nq[old_queue.len() as int] == q);
                } else {
                    assert(old_bg[k]);
                    let i = choose|i: int| 0 <= i < old_queue.len() && #[trigger] old_queue[i] == k;
                    assert(nq[i] == k);
                }
            }
        }
    }
}

/// Passes the background on from pixel `p` to each of its four neighbours.
fn expand(d: &Vec<u8>, w: usize, n: usize, tol: i32, p: usize, bg: &mut Vec<bool>, queue: &mut Vec<usize>)
    requires
        0 < w <= n,
        d.len() == 4 * n,
        growing(d@, w as int, n as int, tol as int, old(bg)@, old(queue)@),
        p < n,
        old(bg)@[p as int],
    ensures
        growing(d@, w as int, n as int, tol as int, final(bg)@, final(queue)@),
        old(queue)@.len() <= final(queue)@.len(),
        forall|j: int| 0 <= j < old(queue)@.len() ==> #[trigger] final(queue)@[j] == old(queue)@[j],
        forall|k: int| 0 <= k < n && #[trigger] old(bg)@[k] ==> final(bg)@[k],
        forall|q: int| #[trigger] bg_step(d@, w as int, n as int, tol as int, p as int, q) ==> final(bg)@[q],
{
    let ghost (wi, ni, ti) = (w as int, n as int, tol as int);
    let x = p % w;
    proof {
        lemma_mod_bound(p as int, wi);
    }
    if x > 0 {
        proof {
            if p == 0 {
                lemma_small_mod(0, w as nat);
            }
            lemma_mod_succ(p - 1, wi);
        }
        visit(d, w, n, tol, p, p - 1, bg, queue);
    }
    if x + 1 < w && p + 1 < n {
        visit(d, w, n, tol, p, p + 1, bg, queue);
    }
    if p >= w {
        visit(d, w, n, tol, p, p - w, bg, queue);
    }
    if p + w < n {
        visit(d, w, n, tol, p, p + w, bg, queue);
    }
    proof {
        let pi = p as int;
        assert forall|q: int| #[trigger] bg_step(d@, wi, ni, ti, pi, q) implies bg@[q] by {
            lemma_mod_succ(pi, wi);
            if pi == q + 1 {
                lemma_mod_succ(q, wi);
            }
        }
    }
}

/// Grows the background from its seeds, breadth first.
fn grow_background(d: &Vec<u8>, w: usize, n: usize, tol: i32) -> (bg: Vec<bool>)
    requires
        0 < w <= n,
        d.len() == 4 * n,
    ensures
        bg.len() == n,
        forall|k: int| 0 <= k < n ==> bg@[k] == in_background(d@, w as int, n as int, tol as int, k),
{
    let ghost (wi, ni, ti) = (w as int, n as int, tol as int);
    let mut bg: Vec<bool> = Vec::new();
    let mut i: usize = 0;
    while i < n
        invariant
            i <= n,
            bg.len() == i,
            forall|k: int| 0 <= k < i ==> !bg@[k],
            count_true(bg@) == 0,
        decreases n - i,
    {
        let ghost before = bg@;
        bg.push(false);
        assert(bg@.drop_last() =~= before);
        i += 1;
    }
    let mut queue: Vec<usize> = Vec::new();
    let mut k: usize = 0;
    while k < n
        invariant
            0 < w <= n,
            d.len() == 4 * n,
            k <= n,
            growing(d@, wi, ni, ti, bg@, queue@),
            wi == w && ni == n && ti == tol,
            forall|j: int| 0 <= j < k && is_seed(d@, wi, ni, j) ==> #[trigger] bg@[j],
        decreases n - k,
    {
        let x = k % w;
        let seed = d[4 * k + 3] < 32 || k < w || k >= n - w || x == 0 || x == w - 1;
        if seed && !bg[k] {
            let ghost old_bg = bg@;
            let ghost old_queue = queue@;
            proof {
                assert forall|s: Set<int>| has_seeds(d@, wi, ni, s) && bg_closed(d@, wi, ni, ti, s)
                    implies #[trigger] s.contains(k as int) by {
                    assert(is_seed(d@, wi, ni, k as int));
                }
                lemma_count_mark(old_bg, k as int);
            }
            bg.set(k, true);
            queue.push(k);
            proof {
                let nq = queue@;
                assert forall|j: int| 0 <= j < n && #[trigger] bg@[j] implies queued(nq, nq.len() as int, j) by {
                    if j == k as int {
                        assert(nq[old_queue.len() as int] == k);
                    } else {
                        assert(old_bg[j]);
                        let i = choose|i: int| 0 <= i < old_queue.len() && #[trigger] old_queue[i] == j;
                        assert(nq[i] == j);
                    }
                }
            }
        }
        k += 1;
    }
    let mut head: usize = 0;
    while head < queue.len()
        invariant
            0 < w <= n,
            d.len() == 4 * n,
            growing(d@, wi, ni, ti, bg@, queue@),
            wi == w && ni == n && ti == tol,
            head <= queue.len(),
            forall|j: int| 0 <= j < n && is_seed(d@, wi, ni, j) ==> #[trigger] bg@[j],
            spread_from(d@, wi, ni, ti, bg@, queue@, head as int),
        decreases n - queue.len(), queue.len() - head,
    {
        let p = queue[head];
        let ghost q0 = queue@;
        let ghost b0 = bg@;
        expand(d, w, n, tol, p, &mut bg, &mut queue);
        proof {
            lemma_count_le(bg@);
            assert forall|j: int| 0 <= j < n && is_seed(d@, wi, ni, j) implies #[trigger] bg@[j] by {
                assert(b0[j]);
            }
            assert forall|i: int, q: int|
                0 <= i < head + 1 && #[trigger] bg_step(d@, wi, ni, ti, queue@[i] as int, q)
                implies bg@[q] by {
                assert(queue@[i] == q0[i]);
                if i < head {
                    assert(bg_step(d@, wi, ni, ti, q0[i] as int, q));
                    assert(b0[q]);
                }
            }
        }
        head += 1;
    }
    proof {
        let s = Set::new(|j: int| 0 <= j < n && bg@[j]);
        assert(has_seeds(d@, wi, ni, s));
        assert forall|j: int, q: int|
            #![trigger s.contains(j), bg_step(d@, wi, ni, ti, j, q)]
            s.contains(j) && bg_step(d@, wi, ni, ti, j, q) implies s.contains(q) by {
            let i = choose|i: int| 0 <= i < queue@.len() && #[trigger] queue@[i] == j;
            assert(bg_step(d@, wi, ni, ti, queue@[i] as int, q));
        }
        assert(bg_closed(d@, wi, ni, ti, s));
        assert forall|j: int| 0 <= j < n implies bg@[j] == in_background(d@, wi, ni, ti, j) by {
            if in_background(d@, wi, ni, ti, j) {
                assert(s.contains(j));
            }
        }
    }
    bg
}

// ---------------------------------------------------------------------------
// Labelling the pieces of foreground.
// ---------------------------------------------------------------------------

proof fn lemma_component_step(fg: Seq<bool>, w: int, n: int, s: int, k: int, q: int)
    requires
        in_component(fg, w, n, s, k),
        fg_step(fg, w, n, k, q),
    ensures
        in_component(fg, w, n, s, q),
{
    assert forall|c: Set<int>| c.contains(s) && fg_closed(fg, w, n, c) implies #[trigger] c.contains(q) by {
        assert(c.contains(k));
        assert(fg_step(fg, w, n, k, q));
    }
}

proof fn lemma_component_trans(fg: Seq<bool>, w: int, n: int, a: int, b: int, c: int)
    requires
        in_component(fg, w, n, a, b),
        in_component(fg, w, n, b, c),
    ensures
        in_component(fg, w, n, a, c),
{
    assert forall|x: Set<int>| x.contains(a) && fg_closed(fg, w, n, x) implies #[trigger] x.contains(c) by {
        assert(x.contains(b));
    }
}

/// Labels agree along every foreground edge that leaves a labelled pixel.
pub open spec fn labels_closed(fg: Seq<bool>, w: int, n: int, label: Seq<usize>) -> bool {
    forall|k: int, q: int|
        #![trigger label[k], fg_step(fg, w, n, k, q)]
        0 <= k < n && label[k] != 0 && fg_step(fg, w, n, k, q) ==> label[q] == label[k]
}

/// The state of the flood that labels the piece holding `s` with `id`; `c` is what
/// it has labelled so far, `label0` the labels before it started.
pub open spec fn flooding(
    fg: Seq<bool>,
    w: int,
    n: int,
    s: int,
    id: usize,
    label0: Seq<usize>,
    label: Seq<usize>,
    c: Set<int>,
    count: int,
) -> bool {
    &&& fg.len() == n && label0.len() == n && label.len() == n
    &&& id > 0
    &&& forall|k: int| 0 <= k < n ==> #[trigger] label0[k] != id
    &&& labels_closed(fg, w, n, label0)
    &&& forall|k: int| 0 <= k < n ==> #[trigger] label[k] == if c.contains(k) { id } else { label0[k] }
    &&& forall|k: int| #[trigger] c.contains(k) ==> 0 <= k < n && fg[k] && label0[k] == 0
        && in_component(fg, w, n, s, k)
    &&& c.finite() && c.len() == count
    &&& c.contains(s)
}

/// Labels neighbour `q` of the flooded pixel `k` when it is unlabelled foreground.
fn claim(
    bg: &Vec<bool>,
    w: usize,
    n: usize,
    id: usize,
    k: usize,
    q: usize,
    label: &mut Vec<usize>,
    stack: &mut Vec<usize>,
    Ghost(fg): Ghost<Seq<bool>>,
    Ghost(s): Ghost<int>,
    Ghost(label0): Ghost<Seq<usize>>,
    Ghost(c): Ghost<Set<int>>,
    count: usize,
) -> (pushed: bool)
    requires
        0 < w <= n,
        bg.len() == n,
        forall|j: int| 0 <= j < n ==> fg[j] == !bg@[j],
        flooding(fg, w as int, n as int, s, id, label0, old(label)@, c, count as int),
        c.contains(k as int),
        adjacent(w as int, n as int, k as int, q as int),
    ensures
        flooding(
            fg,
            w as int,
            n as int,
            s,
            id,
            label0,
            final(label)@,
            if pushed { c.insert(q as int) } else { c },
            if pushed { count + 1 } else { count as int },
        ),
        final(stack)@ == if pushed { old(stack)@.push(q) } else { old(stack)@ },
        pushed ==> !c.contains(q as int),
        fg_step(fg, w as int, n as int, k as int, q as int) ==> final(label)@[q as int] == id,
{
    let ghost (wi, ni) = (w as int, n as int);
    if bg[q] || label[q] != 0 {
        proof {
            if fg[q as int] {
                if !c.contains(q as int) {
                    assert(label0[q as int] != 0);
                    assert(fg_step(fg, wi, ni, q as int, k as int));
                    assert(label0[k as int] == label0[q as int]);
                }
            }
        }
        return false;
    }
    proof {
        lemma_component_step(fg, wi, ni, s, k as int, q as int);
    }
    label.set(q, id);
    stack.push(q);
    proof {
        let c2 = c.insert(q as int);
        assert forall|j: int| 0 <= j < n implies #[trigger] label@[j] == if c2.contains(j) { id } else { label0[j] } by {
        }
    }
    true
}

/// `k` is on the stack.
pub open spec fn in_stack(stack: Seq<usize>, k: int) -> bool {
    exists|i: int| 0 <= i < stack.len() && #[trigger] stack[i] as int == k
}

/// What one call of `claim` adds to the flood, and where it leaves the new pixels.
pub open spec fn flood_grew(
    c0: Set<int>,
    stack0: Seq<usize>,
    c: Set<int>,
    stack: Seq<usize>,
    count0: int,
    count: int,
) -> bool {
    &&& c0.subset_of(c)
    &&& count0 <= count
    &&& stack0.len() <= stack.len()
    &&& stack.len() - stack0.len() == count - count0
    &&& forall|i: int| 0 <= i < stack0.len() ==> #[trigger] stack[i] == stack0[i]
    &&& forall|i: int| stack0.len() <= i < stack.len() ==> c.contains(#[trigger] stack[i] as int)
    &&& forall|j: int| #[trigger] c.contains(j) && !c0.contains(j) ==> in_stack(stack, j)
}

proof fn lemma_flood_grew_trans(
    c0: Set<int>,
    s0: Seq<usize>,
    c1: Set<int>,
    s1: Seq<usize>,
    c2: Set<int>,
    s2: Seq<usize>,
    n0: int,
    n1: int,
    n2: int,
)
    requires
        flood_grew(c0, s0, c1, s1, n0, n1),
        flood_grew(c1, s1, c2, s2, n1, n2),
    ensures
        flood_grew(c0, s0, c2, s2, n0, n2),
{
    assert forall|i: int| s0.len() <= i < s2.len() implies c2.contains(#[trigger] s2[i] as int) by {
        if i < s1.len() {
            assert(s2[i] == s1[i]);
            assert(c1.contains(s1[i] as int));
        }
    }
    assert forall|j: int| #[trigger] c2.contains(j) && !c0.contains(j) implies in_stack(s2, j) by {
        if c1.contains(j) {
            let i = choose|i: int| 0 <= i < s1.len() && #[trigger] s1[i] as int == j;
            assert(s2[i] == s1[i]);
        }
    }
}

/// `claim`, with the flood's bookkeeping.
fn claim_counted(
    bg: &Vec<bool>,
    w: usize,
    n: usize,
    id: usize,
    k: usize,
    q: usize,
    label: &mut Vec<usize>,
    stack: &mut Vec<usize>,
    Ghost(fg): Ghost<Seq<bool>>,
    Ghost(s): Ghost<int>,
    Ghost(label0): Ghost<Seq<usize>>,
    Ghost(c0): Ghost<Set<int>>,
    count0: usize,
) -> (r: (Ghost<Set<int>>, usize))
    requires
        0 < w <= n,
        bg.len() == n,
        forall|j: int| 0 <= j < n ==> fg[j] == !bg@[j],
        flooding(fg, w as int, n as int, s, id, label0, old(label)@, c0, count0 as int),
        c0.contains(k as int),
        adjacent(w as int, n as int, k as int, q as int),
    ensures
        flooding(fg, w as int, n as int, s, id, label0, final(label)@, r.0@, r.1 as int),
        flood_grew(c0, old(stack)@, r.0@, final(stack)@, count0 as int, r.1 as int),
        r.1 <= n,
        fg_step(fg, w as int, n as int, k as int, q as int) ==> r.0@.contains(q as int),
{
    let ghost s0 = stack@;
    let pushed = claim(bg, w, n, id, k, q, label, stack, Ghost(fg), Ghost(s), Ghost(label0), Ghost(c0), count0);
    let ghost c = if pushed { c0.insert(q as int) } else { c0 };
    proof {
        lemma_int_range(0, n as int);
        lemma_len_subset(c, set_int_range(0, n as int));
        if pushed {
            assert(stack@[stack@.len() - 1] as int == q);
            assert forall|j: int| #[trigger] c.contains(j) && !c0.contains(j) implies in_stack(stack@, j) by {
                assert(stack@[stack@.len() - 1] as int == q);
            }
        }
    }
    let count = if pushed { count0 + 1 } else { count0 };
    (Ghost(c), count)
}

/// Floods from the popped pixel `k` into each of its four neighbours.
fn flood_neighbours(
    bg: &Vec<bool>,
    w: usize,
    n: usize,
    id: usize,
    k: usize,
    label: &mut Vec<usize>,
    stack: &mut Vec<usize>,
    Ghost(fg): Ghost<Seq<bool>>,
    Ghost(s): Ghost<int>,
    Ghost(label0): Ghost<Seq<usize>>,
    Ghost(c0): Ghost<Set<int>>,
    count0: usize,
) -> (r: (Ghost<Set<int>>, usize))
    requires
        0 < w <= n,
        bg.len() == n,
        forall|j: int| 0 <= j < n ==> fg[j] == !bg@[j],
        flooding(fg, w as int, n as int, s, id, label0, old(label)@, c0, count0 as int),
        c0.contains(k as int),
        count0 <= n,
    ensures
        flooding(fg, w as int, n as int, s, id, label0, final(label)@, r.0@, r.1 as int),
        flood_grew(c0, old(stack)@, r.0@, final(stack)@, count0 as int, r.1 as int),
        r.1 <= n,
        forall|q: int| #[trigger] fg_step(fg, w as int, n as int, k as int, q) ==> r.0@.contains(q),
{
    let ghost (wi, ni) = (w as int, n as int);
    let ghost stack0 = stack@;
    let ghost mut c = c0;
    let mut count = count0;
    let x = k % w;
    proof {
        lemma_mod_bound(k as int, wi);
    }
    if x > 0 {
        proof {
            if k == 0 {
                lemma_small_mod(0, w as nat);
            }
            lemma_mod_succ(k - 1, wi);
        }
        let ghost (c1, s1, n1) = (c, stack@, count as int);
        let r = claim_counted(bg, w, n, id, k, k - 1, label, stack, Ghost(fg), Ghost(s), Ghost(label0), Ghost(c), count);
        proof {
            c = r.0@;
        }
        count = r.1;
    }
    assert(flood_grew(c0, stack0, c, stack@, count0 as int, count as int));
    if x + 1 < w && k < n - 1 {
        let ghost (c1, s1, n1) = (c, stack@, count as int);
        let r = claim_counted(bg, w, n, id, k, k + 1, label, stack, Ghost(fg), Ghost(s), Ghost(label0), Ghost(c), count);
        proof {
            c = r.0@;
            lemma_flood_grew_trans(c0, stack0, c1, s1, c, stack@, count0 as int, n1, r.1 as int);
        }
        count = r.1;
    }
    if k >= w {
        let ghost (c1, s1, n1) = (c, stack@, count as int);
        let r = claim_counted(bg, w, n, id, k, k - w, label, stack, Ghost(fg), Ghost(s), Ghost(label0), Ghost(c), count);
        proof {
            c = r.0@;
            lemma_flood_grew_trans(c0, stack0, c1, s1, c, stack@, count0 as int, n1, r.1 as int);
        }
        count = r.1;
    }
    if k < n - w {
        let ghost (c1, s1, n1) = (c, stack@, count as int);
        let r = claim_counted(bg, w, n, id, k, k + w, label, stack, Ghost(fg), Ghost(s), Ghost(label0), Ghost(c), count);
        proof {
            c = r.0@;
            lemma_flood_grew_trans(c0, stack0, c1, s1, c, stack@, count0 as int, n1, r.1 as int);
        }
        count = r.1;
    }
    proof {
        let ki = k as int;
        assert forall|q: int| #[trigger] fg_step(fg, wi, ni, ki, q) implies c.contains(q) by {
            lemma_mod_succ(ki, wi);
            if ki == q + 1 {
                lemma_mod_succ(q, wi);
            }
            assert(label@[q] == id);
        }
    }
    (Ghost(c), count)
}

/// Labels with `id` the piece of foreground that holds `s`, depth first, and
/// returns its size.
fn flood(
    bg: &Vec<bool>,
    w: usize,
    n: usize,
    s: usize,
    id: usize,
    label: &mut Vec<usize>,
    Ghost(fg): Ghost<Seq<bool>>,
) -> (count: usize)
    requires
        0 < w <= n,
        bg.len() == n,
        fg.len() == n,
        forall|j: int| 0 <= j < n ==> fg[j] == !bg@[j],
        s < n,
        fg[s as int],
        old(label)@.len() == n,
        old(label)@[s as int] == 0,
        id > 0,
        forall|k: int| 0 <= k < n ==> #[trigger] old(label)@[k] != id,
        labels_closed(fg, w as int, n as int, old(label)@),
    ensures
        final(label)@.len() == n,
        forall|k: int| 0 <= k < n ==> #[trigger] final(label)@[k] == if in_component(fg, w as int, n as int, s as int, k) {
            id
        } else {
            old(label)@[k]
        },
        forall|k: int| 0 <= k < n && #[trigger] in_component(fg, w as int, n as int, s as int, k) ==> fg[k]
            && old(label)@[k] == 0,
        component(fg, w as int, n as int, s as int).finite(),
        count == component(fg, w as int, n as int, s as int).len(),
{
    let ghost (wi, ni, si) = (w as int, n as int, s as int);
    let ghost label0 = label@;
    label.set(s, id);
    let mut stack: Vec<usize> = Vec::new();
    stack.push(s);
    let mut count: usize = 1;
    let ghost mut c = Set::<int>::empty().insert(si);
    proof {
        assert forall|x: Set<int>| x.contains(si) && fg_closed(fg, wi, ni, x) implies #[trigger] x.contains(si) by {
        }
        assert(c.len() == 1);
        assert(stack@[0] as int == si);
        assert forall|j: int| 0 <= j < n implies #[trigger] label@[j] == if c.contains(j) { id } else { label0[j] } by {
        }
    }
    while stack.len() > 0
        invariant
            0 < w <= n,
            bg.len() == n,
            fg.len() == n,
            forall|j: int| 0 <= j < n ==> fg[j] == !bg@[j],
            wi == w && ni == n && si == s,
            flooding(fg, wi, ni, si, id, label0, label@, c, count as int),
            count <= n,
            forall|i: int| 0 <= i < stack.len() ==> c.contains(#[trigger] stack@[i] as int),
            forall|k: int, q: int|
                #![trigger c.contains(k), fg_step(fg, wi, ni, k, q)]
                c.contains(k) && fg_step(fg, wi, ni, k, q) ==> c.contains(q) || in_stack(stack@, k),
        decreases n - count, stack.len(),
    {
        let ghost old_stack = stack@;
        let k = stack.pop().unwrap();
        let ghost popped = stack@;
        let ghost c0 = c;
        proof {
            assert(old_stack[old_stack.len() - 1] == k);
            assert(c.contains(k as int));
        }
        let r = flood_neighbours(bg, w, n, id, k, label, &mut stack, Ghost(fg), Ghost(si), Ghost(label0), Ghost(c), count);
        proof {
            c = r.0@;
            assert forall|i: int| 0 <= i < stack.len() implies c.contains(#[trigger] stack@[i] as int) by {
                if i < popped.len() {
                    assert(stack@[i] == popped[i]);
                    assert(popped[i] == old_stack[i]);
                }
            }
            assert forall|k2: int, q: int|
                #![trigger c.contains(k2), fg_step(fg, wi, ni, k2, q)]
                c.contains(k2) && fg_step(fg, wi, ni, k2, q) implies c.contains(q) || in_stack(stack@, k2) by {
                if c0.contains(k2) {
                    if k2 == k as int {
                    } else if !c0.contains(q) {
                        assert(in_stack(old_stack, k2));
                        let i = choose|i: int| 0 <= i < old_stack.len() && #[trigger] old_stack[i] as int == k2;
                        assert(i < popped.len());
                        assert(stack@[i] == popped[i]);
                    }
                }
            }
        }
        count = r.1;
    }
    proof {
        assert(fg_closed(fg, wi, ni, c));
        assert(c =~= component(fg, wi, ni, si)) by {
            assert forall|q: int| component(fg, wi, ni, si).contains(q) implies c.contains(q) by {
                assert(in_component(fg, wi, ni, si, q));
            }
        }
        assert forall|k: int| 0 <= k < n implies #[trigger] label@[k] == if in_component(fg, wi, ni, si, k) {
            id
        } else {
            label0[k]
        } by {
            if in_component(fg, wi, ni, si, k) {
                assert(c.contains(k));
            }
        }
        assert forall|k: int| 0 <= k < n && #[trigger] in_component(fg, wi, ni, si, k) implies fg[k]
            && label0[k] == 0 by {
            assert(c.contains(k));
        }
    }
    count
}

pub open spec fn no_subject_message() -> Seq<char> {
    "没能在照片里找到明确的主体，试试调低「容差」重新抠图（背景越干净效果越好）"@
}

proof fn lemma_component_self(fg: Seq<bool>, w: int, n: int, s: int)
    ensures
        in_component(fg, w, n, s, s),
{
    assert forall|c: Set<int>| c.contains(s) && fg_closed(fg, w, n, c) implies #[trigger] c.contains(s) by {
    }
}

/// What the scan over all pixels keeps true: pieces found so far are labelled
/// `1..next` in the order of their first pixels `roots`, and `best` is the largest.
pub open spec fn scanning(
    fg: Seq<bool>,
    w: int,
    n: int,
    start: int,
    label: Seq<usize>,
    roots: Seq<int>,
    next: int,
    best: int,
    best_size: int,
) -> bool {
    &&& label.len() == n
    &&& roots.len() == next
    &&& 1 <= next <= start + 1
    &&& labels_closed(fg, w, n, label)
    &&& forall|k: int| 0 <= k < n ==> #[trigger] label[k] < next
    &&& forall|k: int| 0 <= k < n && #[trigger] label[k] != 0 ==> fg[k] && in_component(fg, w, n, roots[label[k] as int], k)
    &&& forall|id: int| 1 <= id < next ==> 0 <= #[trigger] roots[id] < start && label[roots[id]] == id
        && is_first_of_component(fg, w, n, roots[id]) && component(fg, w, n, roots[id]).finite()
    &&& forall|id: int, k: int| 1 <= id < next && 0 <= k < n && #[trigger] in_component(fg, w, n, roots[id], k)
        ==> label[k] == id
    &&& forall|k: int| 0 <= k < start && fg[k] ==> #[trigger] label[k] != 0
    &&& 0 <= best < next
    &&& best == 0 ==> largest_component(fg, w, n, start) is None
    &&& best != 0 ==> largest_component(fg, w, n, start) == Some(roots[best]) && best_size == component(
        fg,
        w,
        n,
        roots[best],
    ).len()
}

/// Cuts the subject out of a photo. Returns the background mask (`true` for
/// background) in row-major order.
///
/// The background grows from the border pixels and the nearly transparent ones
/// (alpha below 32) into every neighbour whose colour channels each differ by at
/// most `tolerance`. Of what remains, only the largest connected piece is kept
/// (of equally large pieces, the one that starts last in row-major order); when
/// there is none, or it covers less than a fiftieth of the picture, no subject was
/// found.
pub fn cutout_background(img: &RgbaBuffer, tolerance: i32) -> (r: Result<Vec<bool>, String>)
    requires
        img.wf(),
        (img.width > 0 && img.height > 0) || (img.width == 0 && img.height == 0),
    ensures
        ({
            let (w, n) = (img.width as int, img.pixel_count());
            let fg = foreground(img.data@, w, n, tolerance as int);
            match largest_component(fg, w, n, n) {
                Some(b) => if component(fg, w, n, b).len() * 50 < n {
                    r matches Err(e) && e@ == no_subject_message()
                } else {
                    r matches Ok(mask) && mask.len() == n && forall|k: int|
                        0 <= k < n ==> #[trigger] mask@[k] == !in_component(fg, w, n, b, k)
                },
                None => if n == 0 {
                    r matches Ok(mask) && mask.len() == 0
                } else {
                    r matches Err(e) && e@ == no_subject_message()
                },
            }
        }),
{
    if img.width == 0 {
        return Ok(Vec::new());
    }
    let w = img.width as usize;
    let n = img.data.len() / 4;
    let ghost (wi, ni, ti) = (w as int, n as int, tolerance as int);
    proof {
        assert(n == img.pixel_count());
        assert(img.width as int <= img.width as int * img.height as int) by (nonlinear_arith)
            requires
                img.height > 0,
        ;
    }
    let bg = grow_background(&img.data, w, n, tolerance);
    let ghost fg = foreground(img.data@, wi, ni, ti);
    let mut label: Vec<usize> = Vec::new();
    let mut i: usize = 0;
    while i < n
        invariant
            i <= n,
            label.len() == i,
            forall|k: int| 0 <= k < i ==> #[trigger] label@[k] == 0,
        decreases n - i,
    {
        label.push(0);
        i += 1;
    }
    let mut next: usize = 1;
    let ghost mut roots: Seq<int> = seq![-1int];
    let mut best: usize = 0;
    let mut best_size: usize = 0;
    let mut start: usize = 0;
    while start < n
        invariant
            0 < w <= n,
            bg.len() == n,
            fg.len() == n,
            forall|j: int| 0 <= j < n ==> fg[j] == !bg@[j],
            wi == w && ni == n,
            n <= usize::MAX / 4,
            start <= n,
            scanning(fg, wi, ni, start as int, label@, roots, next as int, best as int, best_size as int),
        decreases n - start,
    {
        let ghost si = start as int;
        if !bg[start] && label[start] == 0 {
            proof {
                assert forall|t: int| 0 <= t < si && fg[t] implies !#[trigger] in_component(fg, wi, ni, t, si) by {
                    if in_component(fg, wi, ni, t, si) {
                        let r = roots[label@[t] as int];
                        assert(label@[t] != 0);
                        lemma_component_trans(fg, wi, ni, r, t, si);
                        assert(label@[si] == label@[t]);
                    }
                }
                assert(is_first_of_component(fg, wi, ni, si));
                lemma_component_self(fg, wi, ni, si);
            }
            let ghost label0 = label@;
            let size = flood(&bg, w, n, start, next, &mut label, Ghost(fg));
            proof {
                let l = label@;
                assert forall|k: int, q: int|
                    #![trigger l[k], fg_step(fg, wi, ni, k, q)]
                    0 <= k < n && l[k] != 0 && fg_step(fg, wi, ni, k, q) implies l[q] == l[k] by {
                    if in_component(fg, wi, ni, si, k) {
                        lemma_component_step(fg, wi, ni, si, k, q);
                    } else {
                        assert(label0[q] == label0[k]);
                    }
                }
                assert(labels_closed(fg, wi, ni, l));
                roots = roots.push(si);
            }
            if best == 0 || size >= best_size {
                best = next;
                best_size = size;
            }
            next += 1;
            proof {
                let l = label@;
                let nx = next as int;
                assert forall|k: int| 0 <= k < n && #[trigger] l[k] != 0 implies fg[k] && in_component(fg, wi, ni, roots[l[k] as int], k) by {
                    if !in_component(fg, wi, ni, si, k) {
                        assert(l[k] == label0[k]);
                    }
                }
                assert forall|id: int, k: int| 1 <= id < nx && 0 <= k < n && #[trigger] in_component(fg, wi, ni, roots[id], k)
                    implies l[k] == id by {
                    if id < nx - 1 {
                        assert(label0[k] == id);
                    }
                }
                assert forall|id: int| 1 <= id < nx implies 0 <= #[trigger] roots[id] < si + 1 && l[roots[id]] == id
                    && is_first_of_component(fg, wi, ni, roots[id]) && component(fg, wi, ni, roots[id]).finite() by {
                    if id < nx - 1 {
                        assert(label0[roots[id]] == id);
                        assert(!in_component(fg, wi, ni, si, roots[id]));
                    }
                }
            }
        } else {
            proof {
                if fg[si] {
                    let id = label@[si] as int;
                    let r = roots[id];
                    assert(in_component(fg, wi, ni, r, si));
                    assert(!is_first_of_component(fg, wi, ni, si));
                }
            }
        }
        start += 1;
    }
    if best == 0 || (best_size as u128) * 50 < n as u128 {
        return Err(String::from_str("没能在照片里找到明确的主体，试试调低「容差」重新抠图（背景越干净效果越好）"));
    }
    let mut mask: Vec<bool> = Vec::new();
    let mut k: usize = 0;
    while k < n
        invariant
            k <= n,
            label.len() == n,
            mask.len() == k,
            scanning(fg, wi, ni, ni, label@, roots, next as int, best as int, best_size as int),
            wi == w && ni == n,
            best != 0,
            forall|j: int| 0 <= j < k ==> #[trigger] mask@[j] == !in_component(fg, wi, ni, roots[best as int], j),
        decreases n - k,
    {
        proof {
            if label@[k as int] == best {
                assert(in_component(fg, wi, ni, roots[label@[k as int] as int], k as int));
            }
        }
        mask.push(label[k] != best);
        k += 1;
    }
    Ok(mask)
}


// ---------------------------------------------------------------------------
// Feathered alpha, content box, crop and posterize.
// ---------------------------------------------------------------------------

/// The picture with each pixel's alpha replaced by the matching entry of `alpha`;
/// a pixel whose new alpha is 0 becomes all zero.
pub fn with_alpha(img: &RgbaBuffer, alpha: &Vec<u8>) -> (r: RgbaBuffer)
    requires
        img.wf(),
        alpha.len() == img.pixel_count(),
    ensures
        r.width == img.width && r.height == img.height,
        r.wf(),
        forall|k: int, c: int|
            0 <= k < img.pixel_count() && 0 <= c < 4 ==> #[trigger] r.data@[4 * k + c] == if alpha@[k] == 0 {
                0u8
            } else if c == 3 {
                alpha@[k]
            } else {
                img.data@[4 * k + c]
            },
{
    let n = alpha.len();
    let mut data: Vec<u8> = Vec::new();
    let mut k: usize = 0;
    while k < n
        invariant
            n == alpha.len(),
            img.data.len() == 4 * n,
            k <= n,
            data.len() == 4 * k,
            forall|j: int, c: int|
                0 <= j < k && 0 <= c < 4 ==> #[trigger] data@[4 * j + c] == if alpha@[j] == 0 {
                    0u8
                } else if c == 3 {
                    alpha@[j]
                } else {
                    img.data@[4 * j + c]
                },
        decreases n - k,
    {
        let a = alpha[k];
        if a == 0 {
            data.push(0);
            data.push(0);
            data.push(0);
            data.push(0);
        } else {
            data.push(img.data[4 * k]);
            data.push(img.data[4 * k + 1]);
            data.push(img.data[4 * k + 2]);
            data.push(a);
        }
        k += 1;
    }
    RgbaBuffer { width: img.width, height: img.height, data }
}

/// The picture with each pixel's alpha scaled by the matching mask level
/// (0 = clear, 255 = keep): alpha becomes `alpha * level / 255`, colours stay.
pub fn multiply_alpha(img: &RgbaBuffer, mask: &Vec<u8>) -> (r: RgbaBuffer)
    requires
        img.wf(),
        mask.len() == img.pixel_count(),
    ensures
        r.width == img.width && r.height == img.height,
        r.wf(),
        forall|k: int, c: int|
            0 <= k < img.pixel_count() && 0 <= c < 4 ==> #[trigger] r.data@[4 * k + c] as int == if c == 3 {
                img.data@[4 * k + 3] as int * mask@[k] as int / 255
            } else {
                img.data@[4 * k + c] as int
            },
{
    let n = mask.len();
    let mut data: Vec<u8> = Vec::new();
    let mut k: usize = 0;
    while k < n
        invariant
            n == mask.len(),
            img.data.len() == 4 * n,
            k <= n,
            data.len() == 4 * k,
            forall|j: int, c: int|
                0 <= j < k && 0 <= c < 4 ==> #[trigger] data@[4 * j + c] as int == if c == 3 {
                    img.data@[4 * j + 3] as int * mask@[j] as int / 255
                } else {
                    img.data@[4 * j + c] as int
                },
        decreases n - k,
    {
        let a = img.data[4 * k + 3] as u32;
        let m = mask[k] as u32;
        assert(a * m <= 255 * 255 && a * m / 255 <= 255) by (nonlinear_arith)
            requires
                a <= 255,
                m <= 255,
        ;
        let scaled = a * m / 255;
        data.push(img.data[4 * k]);
        data.push(img.data[4 * k + 1]);
        data.push(img.data[4 * k + 2]);
        data.push(scaled as u8);
        k += 1;
    }
    RgbaBuffer { width: img.width, height: img.height, data }
}

/// Alpha of pixel `p`.
pub open spec fn alpha_of(img: RgbaBuffer, p: int) -> u8 {
    img.data@[4 * p + 3]
}

/// Pixel `p` counts as content: its alpha is above 16.
pub open spec fn is_content(img: RgbaBuffer, p: int) -> bool {
    0 <= p < img.pixel_count() && alpha_of(img, p) > 16
}

/// `b` = (first column, last column, first row, last row) of the content: every
/// content pixel lies inside, and content touches each of the four lines.
pub open spec fn is_content_box(img: RgbaBuffer, b: (int, int, int, int)) -> bool {
    let w = img.width as int;
    &&& forall|p: int| #[trigger] is_content(img, p) ==> b.0 <= p % w <= b.1 && b.2 <= p / w <= b.3
    &&& exists|p: int| #[trigger] is_content(img, p) && p % w == b.0
    &&& exists|p: int| #[trigger] is_content(img, p) && p % w == b.1
    &&& exists|p: int| #[trigger] is_content(img, p) && p / w == b.2
    &&& exists|p: int| #[trigger] is_content(img, p) && p / w == b.3
}

/// The box around the content, when there is any.
pub open spec fn content_box(img: RgbaBuffer) -> Option<(int, int, int, int)> {
    if exists|b: (int, int, int, int)| is_content_box(img, b) {
        Some(choose|b: (int, int, int, int)| is_content_box(img, b))
    } else {
        None
    }
}

proof fn lemma_content_box_unique(img: RgbaBuffer, a: (int, int, int, int), b: (int, int, int, int))
    requires
        is_content_box(img, a),
        is_content_box(img, b),
    ensures
        a == b,
{
    let w = img.width as int;
    let p0 = choose|p: int| #[trigger] is_content(img, p) && p % w == a.0;
    let q0 = choose|p: int| #[trigger] is_content(img, p) && p % w == b.0;
    let p1 = choose|p: int| #[trigger] is_content(img, p) && p % w == a.1;
    let q1 = choose|p: int| #[trigger] is_content(img, p) && p % w == b.1;
    let p2 = choose|p: int| #[trigger] is_content(img, p) && p / w == a.2;
    let q2 = choose|p: int| #[trigger] is_content(img, p) && p / w == b.2;
    let p3 = choose|p: int| #[trigger] is_content(img, p) && p / w == a.3;
    let q3 = choose|p: int| #[trigger] is_content(img, p) && p / w == b.3;
}

/// Coordinates of pixel `p` in a `w`-wide picture.
proof fn lemma_coords(p: int, w: int, x: int, y: int)
    requires
        0 < w,
        0 <= x < w,
        p == y * w + x,
    ensures
        p % w == x,
        p / w == y,
{
    lemma_fundamental_div_mod_converse_mod(p, w, y, x);
    lemma_fundamental_div_mod_converse_div(p, w, y, x);
}

/// The box around the pixels whose alpha is above 16, or `None` when there is none.
pub fn content_bounds(img: &RgbaBuffer) -> (r: Option<(u32, u32, u32, u32)>)
    requires
        img.wf(),
    ensures
        match r {
            Some(b) => content_box(*img) == Some((b.0 as int, b.1 as int, b.2 as int, b.3 as int)),
            None => content_box(*img) is None,
        },
{
    let ghost wi = img.width as int;
    let ghost n = img.pixel_count();
    let w = img.width;
    let h = img.height;
    let total = img.data.len() / 4;
    let mut found = false;
    let mut min_x: u32 = 0;
    let mut max_x: u32 = 0;
    let mut min_y: u32 = 0;
    let mut max_y: u32 = 0;
    let ghost mut wit: (int, int, int, int) = (0, 0, 0, 0);
    let mut p: usize = 0;
    let mut x: u32 = 0;
    let mut y: u32 = 0;
    if w == 0 {
        proof {
            assert(n == 0) by (nonlinear_arith)
                requires
                    n == img.width as int * img.height as int,
                    img.width == 0,
            ;
            assert forall|b: (int, int, int, int)| !is_content_box(*img, b) by {
                if is_content_box(*img, b) {
                    let q = choose|q: int| #[trigger] is_content(*img, q) && q % wi == b.0;
                }
            }
        }
        return None;
    }
    while p < total
        invariant
            total == n,
            n == img.width as int * img.height as int,
            img.data.len() == 4 * n,
            w == img.width && h == img.height,
            wi == w,
            w > 0,
            p <= total,
            x < w,
            p == y as int * wi + x as int,
            !found ==> forall|q: int| 0 <= q < p ==> !#[trigger] is_content(*img, q),
            found ==> {
                &&& forall|q: int| 0 <= q < p && #[trigger] is_content(*img, q) ==> min_x <= q % wi <= max_x
                    && min_y <= q / wi <= max_y
                &&& 0 <= wit.0 < p && is_content(*img, wit.0) && wit.0 % wi == min_x
                &&& 0 <= wit.1 < p && is_content(*img, wit.1) && wit.1 % wi == max_x
                &&& 0 <= wit.2 < p && is_content(*img, wit.2) && wit.2 / wi == min_y
                &&& 0 <= wit.3 < p && is_content(*img, wit.3) && wit.3 / wi == max_y
                &&& max_x < w
            },
        decreases total - p,
    {
        proof {
            lemma_coords(p as int, wi, x as int, y as int);
            assert(y as int * wi <= p);
            assert(y < h) by (nonlinear_arith)
                requires
                    p < n,
                    n == wi * h,
                    p == y * wi + x,
                    0 <= x,
                    wi > 0,
            ;
        }
        if img.data[4 * p + 3] > 16 {
            if !found {
                found = true;
                min_x = x;
                max_x = x;
                min_y = y;
                max_y = y;
                proof {
                    wit = (p as int, p as int, p as int, p as int);
                }
            } else {
                if x < min_x {
                    min_x = x;
                    proof {
                        wit.0 = p as int;
                    }
                }
                if x > max_x {
                    max_x = x;
                    proof {
                        wit.1 = p as int;
                    }
                }
                if y < min_y {
                    min_y = y;
                    proof {
                        wit.2 = p as int;
                    }
                }
                if y > max_y {
                    max_y = y;
                    proof {
                        wit.3 = p as int;
                    }
                }
            }
        }
        p += 1;
        if x + 1 < w {
            x += 1;
        } else {
            proof {
                assert((y as int + 1) * wi == y as int * wi + wi) by (nonlinear_arith);
                assert(y as int + 1 <= h) by (nonlinear_arith)
                    requires
                        p <= n,
                        n == wi * h,
                        p == (y + 1) * wi,
                        wi > 0,
                ;
            }
            x = 0;
            y += 1;
        }
    }
    if !found {
        proof {
            assert forall|b: (int, int, int, int)| !is_content_box(*img, b) by {
                if is_content_box(*img, b) {
                    let q = choose|q: int| #[trigger] is_content(*img, q) && q % wi == b.0;
                }
            }
        }
        return None;
    }
    proof {
        let b = (min_x as int, max_x as int, min_y as int, max_y as int);
        assert(is_content(*img, wit.0) && wit.0 % wi == b.0);
        assert(is_content(*img, wit.1) && wit.1 % wi == b.1);
        assert(is_content(*img, wit.2) && wit.2 / wi == b.2);
        assert(is_content(*img, wit.3) && wit.3 / wi == b.3);
        assert(is_content_box(*img, b));
        let c = choose|c: (int, int, int, int)| is_content_box(*img, c);
        lemma_content_box_unique(*img, b, c);
    }
    Some((min_x, max_x, min_y, max_y))
}

/// `r` is the `cw` by `ch` part of `img` whose top left pixel is (`x0`, `y0`).
pub open spec fn is_crop(r: RgbaBuffer, img: RgbaBuffer, x0: int, y0: int, cw: int, ch: int) -> bool {
    &&& r.width == cw && r.height == ch
    &&& r.wf()
    &&& forall|p: int, c: int|
        0 <= p < cw * ch && 0 <= c < 4 ==> #[trigger] r.data@[4 * p + c] == img.data@[4 * ((y0 + p / cw)
            * img.width + x0 + p % cw) + c]
}

/// The `cw` by `ch` part of the picture whose top left pixel is (`x0`, `y0`).
pub fn crop(img: &RgbaBuffer, x0: u32, y0: u32, cw: u32, ch: u32) -> (r: RgbaBuffer)
    requires
        img.wf(),
        x0 + cw <= img.width,
        y0 + ch <= img.height,
    ensures
        is_crop(r, *img, x0 as int, y0 as int, cw as int, ch as int),
{
    let ghost wi = img.width as int;
    let w = img.width as usize;
    let mut data: Vec<u8> = Vec::new();
    let mut j: u32 = 0;
    proof {
        assert(img.data.len() == 4 * (wi * img.height as int));
    }
    while j < ch
        invariant
            img.wf(),
            wi == w && w == img.width,
            x0 + cw <= img.width,
            y0 + ch <= img.height,
            j <= ch,
            data.len() == 4 * (j as int * cw as int),
            forall|p: int, c: int|
                0 <= p < j as int * cw as int && 0 <= c < 4 ==> #[trigger] data@[4 * p + c] == img.data@[4 * ((
                y0 + p / cw as int) * wi + x0 + p % cw as int) + c],
        decreases ch - j,
    {
        let mut i: u32 = 0;
        let row = (y0 + j) as usize;
        proof {
            assert(row as int * wi + x0 + cw <= wi * img.height as int) by (nonlinear_arith)
                requires
                    row < img.height,
                    x0 + cw <= wi,
            ;
        }
        while i < cw
            invariant
                img.wf(),
                wi == w && w == img.width,
                x0 + cw <= img.width,
                y0 + ch <= img.height,
                j < ch,
                row == y0 + j,
                row as int * wi + x0 + cw <= wi * img.height as int,
                i <= cw,
                data.len() == 4 * (j as int * cw as int + i as int),
                forall|p: int, c: int|
                    0 <= p < j as int * cw as int + i as int && 0 <= c < 4 ==> #[trigger] data@[4 * p + c]
                        == img.data@[4 * ((y0 + p / cw as int) * wi + x0 + p % cw as int) + c],
            decreases cw - i,
        {
            let src = row * w + (x0 + i) as usize;
            let ghost pnew = j as int * cw as int + i as int;
            proof {
                lemma_coords(pnew, cw as int, i as int, j as int);
                assert(src == (y0 + pnew / cw as int) * wi + x0 + pnew % cw as int);
            }
            let ghost before = data@;
            data.push(img.data[4 * src]);
            data.push(img.data[4 * src + 1]);
            data.push(img.data[4 * src + 2]);
            data.push(img.data[4 * src + 3]);
            i += 1;
            proof {
                assert forall|p: int, c: int|
                    0 <= p < j as int * cw as int + i as int && 0 <= c < 4 implies #[trigger] data@[4 * p + c]
                        == img.data@[4 * ((y0 + p / cw as int) * wi + x0 + p % cw as int) + c] by {
                    if p < pnew {
                        assert(data@[4 * p + c] == before[4 * p + c]);
                    }
                }
            }
        }
        proof {
            assert((j as int + 1) * cw as int == j as int * cw as int + cw as int) by (nonlinear_arith);
        }
        j += 1;
    }
    proof {
        assert(ch as int * cw as int == cw as int * ch as int) by (nonlinear_arith);
    }
    RgbaBuffer { width: cw, height: ch, data }
}

pub open spec fn sat_sub(a: int, b: int) -> int {
    if a >= b { a - b } else { 0 }
}

pub open spec fn min_int(a: int, b: int) -> int {
    if a <= b { a } else { b }
}

/// Trims the transparent margins: keeps the box around the content (alpha above
/// 16) with 2 more pixels on each side, as far as the picture reaches. A picture
/// without content comes back unchanged.
pub fn crop_to_content(img: &RgbaBuffer) -> (r: RgbaBuffer)
    requires
        img.wf(),
    ensures
        match content_box(*img) {
            None => r.width == img.width && r.height == img.height && r.data@ == img.data@,
            Some(b) => {
                let x0 = sat_sub(b.0, 2);
                let y0 = sat_sub(b.2, 2);
                let x1 = min_int(b.1 + 3, img.width as int);
                let y1 = min_int(b.3 + 3, img.height as int);
                is_crop(r, *img, x0, y0, x1 - x0, y1 - y0)
            },
        },
{
    match content_bounds(img) {
        None => RgbaBuffer { width: img.width, height: img.height, data: img.data.clone() },
        Some((min_x, max_x, min_y, max_y)) => {
            proof {
                let b = choose|b: (int, int, int, int)| is_content_box(*img, b);
                let wi = img.width as int;
                let p1 = choose|p: int| #[trigger] is_content(*img, p) && p % wi == b.1;
                let p3 = choose|p: int| #[trigger] is_content(*img, p) && p / wi == b.3;
                assert(wi > 0) by {
                    if wi == 0 {
                        assert(img.pixel_count() == 0) by (nonlinear_arith)
                            requires
                                wi == 0,
                                img.pixel_count() == wi * img.height as int,
                        ;
                    }
                }
                lemma_mod_bound(p1, wi);
                lemma_fundamental_div_mod(p3, wi);
                assert(p3 / wi < img.height) by (nonlinear_arith)
                    requires
                        0 <= p3 < wi * img.height as int,
                        p3 == wi * (p3 / wi) + p3 % wi,
                        0 <= p3 % wi,
                        wi > 0,
                ;
            }
            let x0 = if min_x >= 2 { min_x - 2 } else { 0 };
            let y0 = if min_y >= 2 { min_y - 2 } else { 0 };
            let x1 = if img.width - max_x >= 3 { max_x + 3 } else { img.width };
            let y1 = if img.height - max_y >= 3 { max_y + 3 } else { img.height };
            crop(img, x0, y0, x1 - x0, y1 - y0)
        },
    }
}

/// Cropping to the content loses none of it: every pixel with alpha above 16 lies
/// inside the kept part, at least two pixels from its edges where the picture
/// allows.
pub proof fn lemma_crop_keeps_content(img: RgbaBuffer, p: int)
    requires
        img.wf(),
        is_content(img, p),
    ensures
        content_box(img) is Some,
        ({
            let b = content_box(img)->Some_0;
            let w = img.width as int;
            &&& sat_sub(b.0, 2) <= p % w < min_int(b.1 + 3, w)
            &&& sat_sub(b.2, 2) <= p / w < min_int(b.3 + 3, img.height as int)
            &&& (p % w >= 2 ==> p % w - 2 >= sat_sub(b.0, 2))
            &&& (p / w >= 2 ==> p / w - 2 >= sat_sub(b.2, 2))
        }),
{
    let w = img.width as int;
    let h = img.height as int;
    assert(w > 0) by {
        if w == 0 {
            assert(img.pixel_count() == 0) by (nonlinear_arith)
                requires
                    w == 0,
                    img.pixel_count() == w * h,
            ;
        }
    }
    let n = img.pixel_count();
    let pb = lemma_partial_box(img, n);
    assert(pb is Some);
    let b0 = pb->Some_0;
    assert(is_content_box(img, b0)) by {
        let q0 = choose|q: int| 0 <= q < n && #[trigger] is_content(img, q) && q % w == b0.0;
        let q1 = choose|q: int| 0 <= q < n && #[trigger] is_content(img, q) && q % w == b0.1;
        let q2 = choose|q: int| 0 <= q < n && #[trigger] is_content(img, q) && q / w == b0.2;
        let q3 = choose|q: int| 0 <= q < n && #[trigger] is_content(img, q) && q / w == b0.3;
    }
    let b = choose|b: (int, int, int, int)| is_content_box(img, b);
    assert(is_content_box(img, b));
    lemma_mod_bound(p, w);
    lemma_fundamental_div_mod(p, w);
    let q1 = choose|q: int| #[trigger] is_content(img, q) && q % w == b.1;
    let q3 = choose|q: int| #[trigger] is_content(img, q) && q / w == b.3;
    lemma_mod_bound(q1, w);
    lemma_fundamental_div_mod(q3, w);
    assert(q3 / w < h) by (nonlinear_arith)
        requires
            0 <= q3 < w * h,
            q3 == w * (q3 / w) + q3 % w,
            0 <= q3 % w,
            w > 0,
    ;
    assert(p / w < h) by (nonlinear_arith)
        requires
            0 <= p < w * h,
            p == w * (p / w) + p % w,
            0 <= p % w,
            w > 0,
    ;
}

/// The box around the content among the first `m` pixels.
pub open spec fn partial_box(img: RgbaBuffer, m: int, b: (int, int, int, int)) -> bool {
    let w = img.width as int;
    &&& forall|q: int| 0 <= q < m && #[trigger] is_content(img, q) ==> b.0 <= q % w <= b.1 && b.2 <= q / w <= b.3
    &&& exists|q: int| 0 <= q < m && #[trigger] is_content(img, q) && q % w == b.0
    &&& exists|q: int| 0 <= q < m && #[trigger] is_content(img, q) && q % w == b.1
    &&& exists|q: int| 0 <= q < m && #[trigger] is_content(img, q) && q / w == b.2
    &&& exists|q: int| 0 <= q < m && #[trigger] is_content(img, q) && q / w == b.3
}

/// Among the first `m` pixels there is either no content or a box around it.
proof fn lemma_partial_box(img: RgbaBuffer, m: int) -> (r: Option<(int, int, int, int)>)
    requires
        0 <= m,
    ensures
        match r {
            Some(b) => partial_box(img, m, b),
            None => forall|q: int| 0 <= q < m ==> !#[trigger] is_content(img, q),
        },
    decreases m,
{
    if m == 0 {
        None
    } else {
        let w = img.width as int;
        let k = m - 1;
        let prev = lemma_partial_box(img, k);
        if !is_content(img, k) {
            match prev {
                Some(b) => {
                    let q0 = choose|q: int| 0 <= q < k && #[trigger] is_content(img, q) && q % w == b.0;
                    let q1 = choose|q: int| 0 <= q < k && #[trigger] is_content(img, q) && q % w == b.1;
                    let q2 = choose|q: int| 0 <= q < k && #[trigger] is_content(img, q) && q / w == b.2;
                    let q3 = choose|q: int| 0 <= q < k && #[trigger] is_content(img, q) && q / w == b.3;
                    Some(b)
                },
                None => None,
            }
        } else {
            let x = k % w;
            let y = k / w;
            match prev {
                None => Some((x, x, y, y)),
                Some(b) => {
                    let q0 = choose|q: int| 0 <= q < k && #[trigger] is_content(img, q) && q % w == b.0;
                    let q1 = choose|q: int| 0 <= q < k && #[trigger] is_content(img, q) && q % w == b.1;
                    let q2 = choose|q: int| 0 <= q < k && #[trigger] is_content(img, q) && q / w == b.2;
                    let q3 = choose|q: int| 0 <= q < k && #[trigger] is_content(img, q) && q / w == b.3;
                    let nb = (
                        if x < b.0 { x } else { b.0 },
                        if x > b.1 { x } else { b.1 },
                        if y < b.2 { y } else { b.2 },
                        if y > b.3 { y } else { b.3 },
                    );
                    assert(is_content(img, if x < b.0 { k } else { q0 }));
                    assert(is_content(img, if x > b.1 { k } else { q1 }));
                    assert(is_content(img, if y < b.2 { k } else { q2 }));
                    assert(is_content(img, if y > b.3 { k } else { q3 }));
                    Some(nb)
                },
            }
        }
    }
}

pub open spec fn spec_posterize_channel(v: u8, levels: u8) -> u8 {
    if levels <= 1 {
        v
    } else {
        let l = levels as int;
        let q = (v as int * (l - 1) + 127) / 255;
        (q * 255 / (l - 1)) as u8
    }
}

/// Quantises one colour channel to `levels` evenly spaced values (flat colour
/// areas); fewer than two levels leave it unchanged.
pub fn posterize_channel(v: u8, levels: u8) -> (r: u8)
    ensures
        r == spec_posterize_channel(v, levels),
{
    if levels <= 1 {
        return v;
    }
    let l = levels as u32;
    proof {
        assert(v as u32 * (l - 1) <= 255 * 254) by (nonlinear_arith)
            requires
                v <= 255,
                l <= 255,
                l >= 2,
        ;
    }
    let q = (v as u32 * (l - 1) + 127) / 255;
    proof {
        assert(q <= 254) by (nonlinear_arith)
            requires
                q == (v as u32 * (l - 1) + 127) / 255,
                v as u32 * (l - 1) <= 255 * 254,
        ;
    }
    (q * 255 / (l - 1)) as u8
}

/// Every colour channel quantised to `levels` values; alpha unchanged.
pub fn posterize(img: &RgbaBuffer, levels: u8) -> (r: RgbaBuffer)
    requires
        img.wf(),
    ensures
        r.width == img.width && r.height == img.height,
        r.wf(),
        forall|k: int| 0 <= k < img.data.len() ==> #[trigger] r.data@[k] == if k % 4 == 3 {
            img.data@[k]
        } else {
            spec_posterize_channel(img.data@[k], levels)
        },
{
    let mut data: Vec<u8> = Vec::new();
    let mut k: usize = 0;
    while k < img.data.len()
        invariant
            k <= img.data.len(),
            data.len() == k,
            forall|j: int| 0 <= j < k ==> #[trigger] data@[j] == if j % 4 == 3 {
                img.data@[j]
            } else {
                spec_posterize_channel(img.data@[j], levels)
            },
        decreases img.data.len() - k,
    {
        let v = img.data[k];
        if k % 4 == 3 {
            data.push(v);
        } else {
            data.push(posterize_channel(v, levels));
        }
        k += 1;
    }
    RgbaBuffer { width: img.width, height: img.height, data }
}


// ---------------------------------------------------------------------------
// Outline: the strongest alpha around each pixel.
// ---------------------------------------------------------------------------

/// Alpha of the pixel at column `x`, row `y`.
pub open spec fn alpha_at(img: RgbaBuffer, x: int, y: int) -> u8 {
    img.data@[4 * (y * img.width + x) + 3]
}

/// Column `nx`, row `ny` lies in the picture and at most `radius` away from
/// column `x`, row `y` along each axis.
pub open spec fn near(img: RgbaBuffer, radius: int, x: int, y: int, nx: int, ny: int) -> bool {
    &&& 0 <= nx < img.width
    &&& 0 <= ny < img.height
    &&& x - radius <= nx <= x + radius
    &&& y - radius <= ny <= y + radius
}

/// `m` is the largest alpha among the pixels near column `x`, row `y`.
pub open spec fn is_max_alpha_near(img: RgbaBuffer, radius: int, x: int, y: int, m: u8) -> bool {
    &&& forall|nx: int, ny: int| near(img, radius, x, y, nx, ny) ==> #[trigger] alpha_at(img, nx, ny) <= m
    &&& exists|nx: int, ny: int| near(img, radius, x, y, nx, ny) && #[trigger] alpha_at(img, nx, ny) == m
}

proof fn lemma_pixel_index(w: int, h: int, x: int, y: int)
    requires
        0 <= x < w,
        0 <= y < h,
    ensures
        0 <= y * w + x < w * h,
{
    assert(0 <= y * w + x < w * h) by (nonlinear_arith)
        requires
            0 <= x < w,
            0 <= y < h,
    ;
}

/// For each pixel (pixel `p` at column `p % width`, row `p / width`), the largest
/// alpha within `radius` pixels along each axis, the picture's edge cutting the
/// square off: how far the sticker outline reaches.
pub fn max_alpha_near(img: &RgbaBuffer, radius: u32) -> (r: Vec<u8>)
    requires
        img.wf(),
    ensures
        r.len() == img.pixel_count(),
        forall|p: int|
            0 <= p < img.pixel_count() ==> is_max_alpha_near(
                *img,
                radius as int,
                p % (img.width as int),
                p / (img.width as int),
                #[trigger] r@[p],
            ),
{
    let w = img.width as u64;
    let h = img.height as u64;
    let n = img.data.len() / 4;
    let ghost wi = img.width as int;
    let ghost hi = img.height as int;
    let rad = radius as u64;
    let mut out: Vec<u8> = Vec::new();
    let mut p: usize = 0;
    while p < n
        invariant
            n == img.pixel_count(),
            img.data.len() == 4 * n,
            w == wi,
            h == hi,
            wi == img.width,
            hi == img.height,
            rad == radius,
            p <= n,
            out.len() == p,
            forall|q: int| 0 <= q < p ==> is_max_alpha_near(*img, radius as int, q % wi, q / wi, #[trigger] out@[q]),
        decreases n - p,
    {
        proof {
            lemma_fundamental_div_mod(p as int, wi);
            lemma_mod_bound(p as int, wi);
            let q = p as int / wi;
            if q >= hi {
                assert(false) by (nonlinear_arith)
                    requires
                        p as int == wi * q + p as int % wi,
                        0 <= p as int % wi,
                        q >= hi,
                        wi > 0,
                        p < wi * hi,
                ;
            }
        }
        let x = (p as u64) % w;
        let y = (p as u64) / w;
        let x0 = if x >= rad { x - rad } else { 0 };
        let y0 = if y >= rad { y - rad } else { 0 };
        let x1 = if x + rad < w { x + rad } else { w - 1 };
        let y1 = if y + rad < h { y + rad } else { h - 1 };
        proof {
            lemma_pixel_index(wi, hi, x as int, y as int);
        }
        let mut m: u8 = img.data[((y * w + x) as usize) * 4 + 3];
        let ghost mut wx: int = x as int;
        let ghost mut wy: int = y as int;
        let mut ny: u64 = y0;
        while ny <= y1
            invariant
                n == img.pixel_count(),
                img.data.len() == 4 * n,
                w == wi,
                h == hi,
                wi == img.width,
                hi == img.height,
                rad == radius,
                0 <= x < w,
                0 <= y < h,
                x0 == (if x >= rad { x - rad } else { 0 }),
                y0 == (if y >= rad { y - rad } else { 0 }),
                x1 == (if x + rad < w { x + rad } else { w - 1 }),
                y1 == (if y + rad < h { y + rad } else { h - 1 }),
                y0 <= ny <= y1 + 1,
                near(*img, radius as int, x as int, y as int, wx, wy),
                alpha_at(*img, wx, wy) == m,
                forall|nx: int, my: int|
                    near(*img, radius as int, x as int, y as int, nx, my) && my < ny ==> #[trigger] alpha_at(*img, nx, my) <= m,
            decreases y1 + 1 - ny,
        {
            let mut nx: u64 = x0;
            while nx <= x1
                invariant
                    n == img.pixel_count(),
                    img.data.len() == 4 * n,
                    w == wi,
                    h == hi,
                    wi == img.width,
                    hi == img.height,
                    rad == radius,
                    0 <= x < w,
                    0 <= y < h,
                    x0 == (if x >= rad { x - rad } else { 0 }),
                    y0 == (if y >= rad { y - rad } else { 0 }),
                    x1 == (if x + rad < w { x + rad } else { w - 1 }),
                    y1 == (if y + rad < h { y + rad } else { h - 1 }),
                    y0 <= ny <= y1,
                    x0 <= nx <= x1 + 1,
                    near(*img, radius as int, x as int, y as int, wx, wy),
                    alpha_at(*img, wx, wy) == m,
                    forall|mx: int, my: int|
                        near(*img, radius as int, x as int, y as int, mx, my) && (my < ny || (my == ny && mx < nx))
                            ==> #[trigger] alpha_at(*img, mx, my) <= m,
                decreases x1 + 1 - nx,
            {
                proof {
                    lemma_pixel_index(wi, hi, nx as int, ny as int);
                }
                let a = img.data[((ny * w + nx) as usize) * 4 + 3];
                if a > m {
                    m = a;
                    proof {
                        wx = nx as int;
                        wy = ny as int;
                    }
                }
                nx += 1;
            }
            ny += 1;
        }
        assert(x == p as int % wi && y == p as int / wi);
        assert(is_max_alpha_near(*img, radius as int, x as int, y as int, m));
        out.push(m);
        p += 1;
    }
    out
}

} // verus!
