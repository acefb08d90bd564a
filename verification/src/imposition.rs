//! Signature / page ordering for bound schemes.
//!
//! Page numbers are 1-based; a value greater than the real page count is a blank pad the planner
//! drops. Surfaces are returned in print order (sheet 0 front, sheet 0 back, sheet 1 front, ...).

use vstd::prelude::*;
use crate::types::SurfaceSide;

verus! {

/// The smallest multiple of `m` that is at least `n` (`n` itself when `m == 0`).
pub open spec fn round_up_spec(n: nat, m: nat) -> nat {
    if m == 0 {
        n
    } else {
        (((n + m - 1) as nat) / m) * m
    }
}

/// Round `n` up to the next multiple of `m` (`m == 0` gives `n`).
pub fn round_up_to(n: usize, m: usize) -> (r: usize)
    requires
        round_up_spec(n as nat, m as nat) <= usize::MAX,
    ensures
        r == round_up_spec(n as nat, m as nat),
{
    if m == 0 {
        n
    } else {
        let extra: usize = if n % m == 0 { 0 } else { 1 };
        proof {
            if extra == 1 {
                assert(m >= 2);
                assert(n / m < usize::MAX) by (nonlinear_arith)
                    requires m >= 2, n <= usize::MAX;
            }
        }
        let q = n / m + extra;
        proof {
            assert(q == (n + m - 1) / (m as int)) by (nonlinear_arith)
                requires q == n / m + extra, extra == (if n % m == 0 { 0int } else { 1int }), m > 0, n >= 0;
        }
        q * m
    }
}

} // verus!

verus! {

/// A 2-up spread = one printed surface: `[left, right]` 1-based page numbers.
pub type Spread = [usize; 2];

/// The `k`-th surface of the saddle-stitch order for a book padded to `p` pages (a multiple of 4):
/// sheet `i = k / 2` prints `[p - 2i, 1 + 2i]` on its front and `[2 + 2i, p - 1 - 2i]` on its back.
pub open spec fn saddle_surface(p: int, k: int) -> (SurfaceSide, int, int) {
    let i = k / 2;
    if k % 2 == 0 {
        (SurfaceSide::Front, p - 2 * i, 1 + 2 * i)
    } else {
        (SurfaceSide::Back, 2 + 2 * i, p - 1 - 2 * i)
    }
}

/// Pages of a saddle-stitched book of `pages` real pages: at least one, padded to a multiple of 4.
pub open spec fn saddle_padded(pages: nat) -> nat {
    round_up_spec(if pages == 0 { 1 } else { pages }, 4)
}

/// True when the produced surface `e` is `(side, [l, r])`.
pub open spec fn surface_is(e: (SurfaceSide, Spread), s: (SurfaceSide, int, int)) -> bool {
    e.0 == s.0 && e.1[0] == s.1 && e.1[1] == s.2
}

/// Saddle-stitch printer-spread order for `pages` (padded up to a multiple of 4).
pub fn saddle_order(pages: usize) -> (out: Vec<(SurfaceSide, Spread)>)
    requires
        saddle_padded(pages as nat) <= usize::MAX,
    ensures
        out.len() == saddle_padded(pages as nat) / 2,
        forall|k: int|
            0 <= k < out.len() ==> surface_is(
                #[trigger] out@[k],
                saddle_surface(saddle_padded(pages as nat) as int, k),
            ),
{
    let at_least_one = if pages == 0 { 1 } else { pages };
    let p = round_up_to(at_least_one, 4);
    let sheets = p / 4;
    let mut out: Vec<(SurfaceSide, Spread)> = Vec::new();
    let mut i: usize = 0;
    while i < sheets
        invariant
            p == saddle_padded(pages as nat),
            p % 4 == 0,
            sheets == p / 4,
            i <= sheets,
            out.len() == 2 * i,
            forall|k: int| 0 <= k < out.len() ==> surface_is(#[trigger] out@[k], saddle_surface(p as int, k)),
        decreases sheets - i,
    {
        let front: Spread = [p - 2 * i, 1 + 2 * i];
        let back: Spread = [2 + 2 * i, p - 1 - 2 * i];
        out.push((SurfaceSide::Front, front));
        out.push((SurfaceSide::Back, back));
        i = i + 1;
    }
    out
}

} // verus!

verus! {

/// Pages per gathered signature: at least 4, rounded up to a multiple of 4.
pub open spec fn signature_size(sig_pages: nat) -> nat {
    round_up_spec(if sig_pages < 4 { 4 } else { sig_pages }, 4)
}

/// Total pages of a perfect-bound book: at least one page, padded to whole signatures.
pub open spec fn perfect_padded(pages: nat, sig_pages: nat) -> nat {
    round_up_spec(if pages == 0 { 1 } else { pages }, signature_size(sig_pages))
}

/// The `e`-th surface of the perfect-bound order: signature `g = e / (sig/2)` is saddle-ordered on
/// its own and shifted by `g * sig` into global page numbers.
pub open spec fn perfect_surface(sig: int, e: int) -> (SurfaceSide, int, int) {
    let half = sig / 2;
    let g = e / half;
    let s = saddle_surface(sig, e % half);
    (s.0, g * sig + s.1, g * sig + s.2)
}

/// Perfect-bound order: split into gathered signatures of `sig_pages` (at least 4, rounded to a
/// multiple of 4), each saddle-ordered, concatenated in reading order with global 1-based page
/// numbers.
pub fn perfect_bound_order(pages: usize, sig_pages: usize) -> (out: Vec<(SurfaceSide, Spread)>)
    requires
        signature_size(sig_pages as nat) <= usize::MAX,
        perfect_padded(pages as nat, sig_pages as nat) <= usize::MAX,
    ensures
        out.len() == perfect_padded(pages as nat, sig_pages as nat) / 2,
        forall|e: int|
            0 <= e < out.len() ==> surface_is(
                #[trigger] out@[e],
                perfect_surface(signature_size(sig_pages as nat) as int, e),
            ),
{
    let at_least_four = if sig_pages < 4 { 4 } else { sig_pages };
    let sig = round_up_to(at_least_four, 4);
    let at_least_one = if pages == 0 { 1 } else { pages };
    let total = round_up_to(at_least_one, sig);
    let n_sigs = total / sig;
    let half = sig / 2;
    proof {
        assert(sig >= 4 && sig % 4 == 0);
        assert(total % sig == 0) by (nonlinear_arith)
            requires total == (((at_least_one + sig - 1) as nat) / (sig as nat)) * sig, sig > 0;
        assert(n_sigs * sig == total) by (nonlinear_arith)
            requires n_sigs == total / sig, total % sig == 0, sig > 0;
    }
    let mut out: Vec<(SurfaceSide, Spread)> = Vec::new();
    let mut g: usize = 0;
    while g < n_sigs
        invariant
            sig == signature_size(sig_pages as nat),
            total == perfect_padded(pages as nat, sig_pages as nat),
            sig >= 4,
            sig % 4 == 0,
            half == sig / 2,
            n_sigs * sig == total,
            total <= usize::MAX,
            g <= n_sigs,
            out.len() == g * half,
            forall|e: int| 0 <= e < out.len() ==> surface_is(#[trigger] out@[e], perfect_surface(sig as int, e)),
        decreases n_sigs - g,
    {
        proof {
            assert(g * sig + sig <= total) by (nonlinear_arith)
                requires g < n_sigs, n_sigs * sig == total;
            assert(g * half + half == (g + 1) * half) by (nonlinear_arith);
        }
        let base = g * sig;
        let spreads = saddle_order(sig);
        assert(saddle_padded(sig as nat) == sig) by {
            assert(round_up_spec(sig as nat, 4) == sig) by (nonlinear_arith)
                requires sig % 4 == 0, sig >= 4;
        }
        let ghost before = out@;
        let mut k: usize = 0;
        while k < spreads.len()
            invariant
                spreads.len() == half,
                forall|j: int| 0 <= j < spreads.len() ==> surface_is(#[trigger] spreads@[j], saddle_surface(sig as int, j)),
                sig >= 4,
                sig % 4 == 0,
                half == sig / 2,
                base == g * sig,
                base + sig <= total,
                total <= usize::MAX,
                k <= half,
                out.len() == g * half + k,
                forall|e: int| 0 <= e < g * half ==> #[trigger] out@[e] == before[e],
                before.len() == g * half,
                forall|e: int| 0 <= e < before.len() ==> surface_is(#[trigger] before[e], perfect_surface(sig as int, e)),
                forall|j: int| 0 <= j < k ==> surface_is(#[trigger] out@[g * half + j], perfect_surface(sig as int, g * half + j)),
            decreases half - k,
        {
            let (side, pair) = spreads[k];
            proof {
                let s = saddle_surface(sig as int, k as int);
                assert(1 <= s.1 <= sig && 1 <= s.2 <= sig) by {
                    assert(k / 2 < sig / 4) by (nonlinear_arith) requires k < sig / 2, sig % 4 == 0;
                }
                assert(((g * half + k) as int) / (half as int) == g && ((g * half + k) as int) % (half as int) == k) by (nonlinear_arith)
                    requires k < half, half > 0;
            }
            let l = base + pair[0];
            let r = base + pair[1];
            out.push((side, [l, r]));
            k = k + 1;
        }
        assert forall|e: int| 0 <= e < out.len() implies surface_is(#[trigger] out@[e], perfect_surface(sig as int, e)) by {
            if e >= g * half {
                let j = e - g * half;
                assert(out@[g * half + j] == out@[e]);
            }
        }
        g = g + 1;
    }
    proof {
        assert(n_sigs * half == total / 2) by (nonlinear_arith)
            requires n_sigs * sig == total, half == sig / 2, sig % 4 == 0, sig > 0;
    }
    out
}

} // verus!

verus! {

/// Page number printed in slot `j` (0 = left, 1 = right) of a planned surface.
pub open spec fn slot_page(s: (SurfaceSide, int, int), j: int) -> int {
    if j == 0 { s.1 } else { s.2 }
}

/// Page `q` is printed somewhere in the saddle order of a `p`-page book.
pub open spec fn saddle_prints(p: int, q: int) -> bool {
    exists|k: int, j: int| 0 <= k < p / 2 && 0 <= j < 2 && #[trigger] slot_page(saddle_surface(p, k), j) == q
}

proof fn saddle_slot_facts(p: int, k: int, j: int)
    requires
        p >= 4,
        p % 4 == 0,
        0 <= k < p / 2,
        0 <= j < 2,
    ensures
        1 <= slot_page(saddle_surface(p, k), j) <= p,
        // Four disjoint classes: front-left even and above p/2, front-right odd and below p/2,
        // back-left even and at most p/2, back-right odd and above p/2.
        k % 2 == 0 && j == 0 ==> slot_page(saddle_surface(p, k), j) % 2 == 0 && slot_page(saddle_surface(p, k), j) > p / 2,
        k % 2 == 0 && j == 1 ==> slot_page(saddle_surface(p, k), j) % 2 == 1 && slot_page(saddle_surface(p, k), j) < p / 2,
        k % 2 == 1 && j == 0 ==> slot_page(saddle_surface(p, k), j) % 2 == 0 && slot_page(saddle_surface(p, k), j) <= p / 2,
        k % 2 == 1 && j == 1 ==> slot_page(saddle_surface(p, k), j) % 2 == 1 && slot_page(saddle_surface(p, k), j) > p / 2,
{
}

/// Every saddle-stitch surface carries two real-or-pad pages from `1..=p`, the two pages of a
/// spread always sum to `p + 1`, no page is printed twice, and every page `1..=p` is printed: the
/// order is a permutation of the padded book.
pub proof fn saddle_order_is_permutation(pages: nat)
    ensures
        ({
            let p = saddle_padded(pages) as int;
            &&& p >= 4 && p % 4 == 0
            &&& forall|k: int, j: int|
                0 <= k < p / 2 && 0 <= j < 2 ==> 1 <= #[trigger] slot_page(saddle_surface(p, k), j) <= p
            &&& forall|k: int|
                0 <= k < p / 2 ==> #[trigger] saddle_surface(p, k).1 + saddle_surface(p, k).2 == p + 1
            &&& forall|k1: int, j1: int, k2: int, j2: int|
                0 <= k1 < p / 2 && 0 <= j1 < 2 && 0 <= k2 < p / 2 && 0 <= j2 < 2 && (k1 != k2 || j1 != j2)
                    ==> #[trigger] slot_page(saddle_surface(p, k1), j1) != #[trigger] slot_page(saddle_surface(p, k2), j2)
            &&& forall|q: int| 1 <= q <= p ==> #[trigger] saddle_prints(p, q)
        }),
{
    let p = saddle_padded(pages) as int;
    let base: nat = if pages == 0 { 1 } else { pages };
    assert(p >= 4 && p % 4 == 0) by (nonlinear_arith)
        requires p == (((base + 4 - 1) as nat) / 4) * 4, base >= 1;
    assert forall|k: int, j: int| 0 <= k < p / 2 && 0 <= j < 2 implies 1 <= #[trigger] slot_page(saddle_surface(p, k), j) <= p by {
        saddle_slot_facts(p, k, j);
    }
    assert forall|k1: int, j1: int, k2: int, j2: int|
        0 <= k1 < p / 2 && 0 <= j1 < 2 && 0 <= k2 < p / 2 && 0 <= j2 < 2 && (k1 != k2 || j1 != j2)
        implies #[trigger] slot_page(saddle_surface(p, k1), j1) != #[trigger] slot_page(saddle_surface(p, k2), j2) by {
        saddle_slot_facts(p, k1, j1);
        saddle_slot_facts(p, k2, j2);
    }
    assert forall|q: int| 1 <= q <= p implies #[trigger] saddle_prints(p, q) by {
        let m = p / 4;
        if q % 2 == 1 && q < 2 * m {
            let i = (q - 1) / 2;
            assert(slot_page(saddle_surface(p, 2 * i), 1) == q);
        } else if q % 2 == 0 && q <= 2 * m {
            let i = (q - 2) / 2;
            assert(slot_page(saddle_surface(p, 2 * i + 1), 0) == q);
        } else if q % 2 == 0 {
            let i = (p - q) / 2;
            assert(slot_page(saddle_surface(p, 2 * i), 0) == q);
        } else {
            let i = (p - 1 - q) / 2;
            assert(slot_page(saddle_surface(p, 2 * i + 1), 1) == q);
        }
    }
}

} // verus!

verus! {

/// Page `q` is printed somewhere in the perfect-bound order of a `total`-page book.
pub open spec fn perfect_prints(sig: int, total: int, q: int) -> bool {
    exists|e: int, j: int| 0 <= e < total / 2 && 0 <= j < 2 && #[trigger] slot_page(perfect_surface(sig, e), j) == q
}

proof fn perfect_slot_facts(sig: int, e: int, j: int)
    requires
        sig >= 4,
        sig % 4 == 0,
        0 <= e,
        0 <= j < 2,
    ensures
        ({
            let g = e / (sig / 2);
            let q = slot_page(perfect_surface(sig, e), j);
            &&& g * sig + 1 <= q <= g * sig + sig
            &&& q - g * sig == slot_page(saddle_surface(sig, e % (sig / 2)), j)
        }),
{
    let half = sig / 2;
    assert(0 <= e % half < half) by (nonlinear_arith) requires half > 0;
    saddle_order_is_permutation(sig as nat);
    assert(saddle_padded(sig as nat) == sig) by (nonlinear_arith)
        requires sig % 4 == 0, sig >= 4, saddle_padded(sig as nat) == ((((sig + 4 - 1) as nat) / 4) * 4);
    assert(1 <= slot_page(saddle_surface(sig, e % half), j) <= sig);
}

/// The perfect-bound order keeps each gathered signature's pages together (signature `g` prints
/// exactly pages `g*sig + 1 ..= g*sig + sig`), prints no page twice, and prints every page of the
/// padded book: it is a permutation of `1..=total`.
pub proof fn perfect_bound_order_is_permutation(pages: nat, sig_pages: nat)
    ensures
        ({
            let sig = signature_size(sig_pages) as int;
            let total = perfect_padded(pages, sig_pages) as int;
            &&& sig >= 4 && sig % 4 == 0 && total % sig == 0 && total >= sig
            &&& forall|e: int, j: int|
                0 <= e < total / 2 && 0 <= j < 2 ==> {
                    let g = e / (sig / 2);
                    g * sig + 1 <= #[trigger] slot_page(perfect_surface(sig, e), j) <= g * sig + sig
                        && g * sig + sig <= total
                }
            &&& forall|e1: int, j1: int, e2: int, j2: int|
                0 <= e1 < total / 2 && 0 <= j1 < 2 && 0 <= e2 < total / 2 && 0 <= j2 < 2 && (e1 != e2 || j1 != j2)
                    ==> #[trigger] slot_page(perfect_surface(sig, e1), j1) != #[trigger] slot_page(perfect_surface(sig, e2), j2)
            &&& forall|q: int| 1 <= q <= total ==> #[trigger] perfect_prints(sig, total, q)
        }),
{
    let sig = signature_size(sig_pages) as int;
    let total = perfect_padded(pages, sig_pages) as int;
    let s4: nat = if sig_pages < 4 { 4 } else { sig_pages };
    assert(sig >= 4 && sig % 4 == 0) by (nonlinear_arith)
        requires sig == (((s4 + 4 - 1) as nat) / 4) * 4, s4 >= 4;
    let b: nat = if pages == 0 { 1 } else { pages };
    assert(total % sig == 0 && total >= sig) by (nonlinear_arith)
        requires total == (((b + sig - 1) as nat) / (sig as nat)) * sig, sig >= 4, b >= 1;
    let half = sig / 2;
    let n = total / sig;
    assert(total / 2 == n * half && n >= 1 && total == n * sig) by (nonlinear_arith)
        requires total % sig == 0, total >= sig, sig % 4 == 0, sig >= 4, n == total / sig, half == sig / 2;
    assert forall|e: int, j: int| 0 <= e < total / 2 && 0 <= j < 2 implies {
        let g = e / (sig / 2);
        g * sig + 1 <= #[trigger] slot_page(perfect_surface(sig, e), j) <= g * sig + sig
            && g * sig + sig <= total
    } by {
        perfect_slot_facts(sig, e, j);
        let g = e / half;
        assert(g < n) by (nonlinear_arith) requires e < n * half, half > 0, g == e / half, e >= 0;
        assert(g * sig + sig <= total) by (nonlinear_arith) requires g < n, total == n * sig, sig > 0;
    }
    assert forall|e1: int, j1: int, e2: int, j2: int|
        0 <= e1 < total / 2 && 0 <= j1 < 2 && 0 <= e2 < total / 2 && 0 <= j2 < 2 && (e1 != e2 || j1 != j2)
        implies #[trigger] slot_page(perfect_surface(sig, e1), j1) != #[trigger] slot_page(perfect_surface(sig, e2), j2) by {
        perfect_slot_facts(sig, e1, j1);
        perfect_slot_facts(sig, e2, j2);
        let g1 = e1 / half;
        let g2 = e2 / half;
        if g1 == g2 {
            let k1 = e1 % half;
            let k2 = e2 % half;
            assert(e1 == g1 * half + k1 && e2 == g2 * half + k2) by (nonlinear_arith)
                requires half > 0, g1 == e1 / half, g2 == e2 / half, k1 == e1 % half, k2 == e2 % half;
            assert(0 <= k1 < half && 0 <= k2 < half) by (nonlinear_arith)
                requires half > 0, k1 == e1 % half, k2 == e2 % half;
            saddle_order_is_permutation(sig as nat);
            assert(saddle_padded(sig as nat) == sig) by (nonlinear_arith)
                requires sig % 4 == 0, sig >= 4, saddle_padded(sig as nat) == ((((sig + 4 - 1) as nat) / 4) * 4);
            assert(slot_page(saddle_surface(sig, k1), j1) != slot_page(saddle_surface(sig, k2), j2));
        } else if g1 < g2 {
            assert(g1 * sig + sig <= g2 * sig) by (nonlinear_arith) requires g1 < g2, sig > 0;
        } else {
            assert(g2 * sig + sig <= g1 * sig) by (nonlinear_arith) requires g2 < g1, sig > 0;
        }
    }
    assert forall|q: int| 1 <= q <= total implies #[trigger] perfect_prints(sig, total, q) by {
        let g = (q - 1) / sig;
        let local = q - g * sig;
        assert(1 <= local <= sig && g < n) by (nonlinear_arith)
            requires g == (q - 1) / sig, local == q - g * sig, sig > 0, 1 <= q <= total, total == n * sig;
        saddle_order_is_permutation(sig as nat);
        assert(saddle_padded(sig as nat) == sig) by (nonlinear_arith)
            requires sig % 4 == 0, sig >= 4, saddle_padded(sig as nat) == ((((sig + 4 - 1) as nat) / 4) * 4);
        assert(saddle_prints(sig, local));
        let (k, j) = choose|k: int, j: int| 0 <= k < sig / 2 && 0 <= j < 2 && #[trigger] slot_page(saddle_surface(sig, k), j) == local;
        let e = g * half + k;
        assert(e / half == g && e % half == k && 0 <= e < total / 2) by (nonlinear_arith)
            requires e == g * half + k, 0 <= k < half, half > 0, g < n, g >= 0, total / 2 == n * half;
        assert(slot_page(perfect_surface(sig, e), j) == q);
    }
}

} // verus!

verus! {

/// For `m > 0`, rounding up yields the least multiple of `m` that is at least `n`.
pub proof fn round_up_is_least_multiple(n: nat, m: nat)
    requires
        m > 0,
    ensures
        round_up_spec(n, m) % m == 0,
        n <= round_up_spec(n, m) < n + m,
{
    let q = ((n + m - 1) as nat) / m;
    assert(q * m % m == 0 && n <= q * m < n + m) by (nonlinear_arith)
        requires q == ((n + m - 1) as nat) / m, m > 0;
}

} // verus!
