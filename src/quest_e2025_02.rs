//! Event 2025, quest 2: complex numbers with integer parts, a short
//! iteration, and a count of grid points whose iteration stays bounded.
//! The notes read `A=[x,y]`.
use vstd::prelude::*;
use crate::split::{copy_range, find_char, index_of};
use crate::text::{chars_of, parse_i64, parse_i64_spec, string_of, trim, trim_of};

verus! {

/// A complex number `[x,y]` with integer parts.
#[derive(Debug, Copy, Clone, PartialEq, Eq, Structural, Default)]
pub struct Complex(pub i64, pub i64);

pub open spec fn fits(x: int) -> bool {
    i64::MIN <= x <= i64::MAX
}

/// Division rounding toward zero, as Rust's integer `/` does.
pub open spec fn tdiv(x: int, d: int) -> int {
    let q = (if x >= 0 { x } else { -x }) / (if d >= 0 { d } else { -d });
    if (x >= 0) == (d > 0) || x == 0 {
        q
    } else {
        -q
    }
}

/// `[x1,y1] + [x2,y2] = [x1 + x2, y1 + y2]`, where both parts fit.
pub open spec fn add_spec(a: Complex, b: Complex) -> Option<Complex> {
    let x = a.0 + b.0;
    let y = a.1 + b.1;
    if fits(x) && fits(y) {
        Some(Complex(x as i64, y as i64))
    } else {
        None
    }
}

/// `[x1,y1] * [x2,y2] = [x1 x2 - y1 y2, x1 y2 + y1 x2]`, where every product
/// and both parts fit.
pub open spec fn mul_spec(a: Complex, b: Complex) -> Option<Complex> {
    let p = a.0 * b.0;
    let q = a.1 * b.1;
    let r = a.0 * b.1;
    let s = a.1 * b.0;
    if fits(p) && fits(q) && fits(r) && fits(s) && fits(p - q) && fits(r + s) {
        Some(Complex((p - q) as i64, (r + s) as i64))
    } else {
        None
    }
}

/// `[x1,y1] / [x2,y2] = [x1 / x2, y1 / y2]`, rounding toward zero, where no
/// divisor is zero and both parts fit.
pub open spec fn div_spec(a: Complex, b: Complex) -> Option<Complex> {
    if b.0 != 0 && b.1 != 0 && fits(tdiv(a.0 as int, b.0 as int)) && fits(tdiv(a.1 as int, b.1 as int)) {
        Some(Complex(tdiv(a.0 as int, b.0 as int) as i64, tdiv(a.1 as int, b.1 as int) as i64))
    } else {
        None
    }
}

/// One step of the iteration: `r * r / d + a`.
pub open spec fn step_spec(r: Complex, a: Complex, d: Complex) -> Option<Complex> {
    match mul_spec(r, r) {
        Some(m) => match div_spec(m, d) {
            Some(q) => add_spec(q, a),
            None => None,
        },
        None => None,
    }
}

/// `n` steps from `[0,0]`.
pub open spec fn cycle_spec(a: Complex, d: Complex, n: nat) -> Option<Complex>
    decreases n,
{
    if n == 0 {
        Some(Complex(0, 0))
    } else {
        match cycle_spec(a, d, (n - 1) as nat) {
            Some(r) => step_spec(r, a, d),
            None => None,
        }
    }
}

/// The number that `[x,y]` denotes, with space allowed round each part.
pub open spec fn complex_text(s: Seq<char>) -> Option<Complex> {
    let rest = s.drop_first();
    let i = index_of(rest, ',');
    let right = rest.skip(i + 1);
    if s.len() > 0 && s[0] == '[' && i < rest.len() && right.len() > 0 && right.last() == ']' {
        match (parse_i64_spec(trim_of(rest.take(i))), parse_i64_spec(trim_of(right.drop_last()))) {
            (Some(x), Some(y)) => Some(Complex(x, y)),
            _ => None,
        }
    } else {
        None
    }
}

/// The number `A` of the notes: what follows the first `=` of the trimmed text.
pub open spec fn notes_value(notes: Seq<char>) -> Option<Complex> {
    let t = trim_of(notes);
    let i = index_of(t, '=');
    if i < t.len() {
        complex_text(t.skip(i + 1))
    } else {
        None
    }
}

/// Whether both parts lie in `[-1000000, 1000000]`.
pub open spec fn in_range(r: Complex) -> bool {
    -1000000 <= r.0 <= 1000000 && -1000000 <= r.1 <= 1000000
}

/// Whether `n` more steps from `r` with divisor `[100000,100000]` all stay in range.
pub open spec fn stays(p: Complex, r: Complex, n: nat) -> bool
    decreases n,
{
    if n == 0 {
        true
    } else {
        match step_spec(r, p, Complex(100000, 100000)) {
            Some(r2) => in_range(r2) && stays(p, r2, (n - 1) as nat),
            None => false,
        }
    }
}

/// Whether the point `p` is engraved: 100 steps from `[0,0]` stay in range.
pub open spec fn engraved(p: Complex) -> bool {
    stays(p, Complex(0, 0), 100)
}

/// The grid point in column `i` and row `j`.
pub open spec fn grid_point(a: Complex, step: int, i: int, j: int) -> Complex {
    Complex((a.0 + i * step) as i64, (a.1 + j * step) as i64)
}

/// How many of the first `n` points of row `j` are engraved.
pub open spec fn row_count(a: Complex, step: int, j: int, n: nat) -> nat
    decreases n,
{
    if n == 0 {
        0
    } else {
        row_count(a, step, j, (n - 1) as nat) + if engraved(grid_point(a, step, n - 1, j)) {
            1nat
        } else {
            0nat
        }
    }
}

/// How many points of the first `m` rows, `g` points each, are engraved.
pub open spec fn grid_count(a: Complex, step: int, g: nat, m: nat) -> nat
    decreases m,
{
    if m == 0 {
        0
    } else {
        grid_count(a, step, g, (m - 1) as nat) + row_count(a, step, m - 1, g)
    }
}

/// The count of engraved points on the `g` by `g` grid from `a` to
/// `a + [1000,1000]`, where every coordinate the walk reaches fits.
pub open spec fn grid_spec(a: Complex, g: int) -> Option<nat> {
    let step: int = 1000int / (g - 1);
    if fits(a.0 + 1000) && fits(a.1 + 1000) && fits(a.0 + g * step) && fits(a.1 + g * step) {
        Some(grid_count(a, step, g as nat, g as nat))
    } else {
        None
    }
}

impl Complex {
    /// The sum, where it fits.
    pub fn add(self, rhs: Complex) -> (r: Option<Complex>)
        ensures
            r == add_spec(self, rhs),
    {
        match (self.0.checked_add(rhs.0), self.1.checked_add(rhs.1)) {
            (Some(x), Some(y)) => Some(Complex(x, y)),
            _ => None,
        }
    }

    /// The product, where it fits.
    pub fn mul(self, rhs: Complex) -> (r: Option<Complex>)
        ensures
            r == mul_spec(self, rhs),
    {
        let p = self.0.checked_mul(rhs.0);
        let q = self.1.checked_mul(rhs.1);
        let r = self.0.checked_mul(rhs.1);
        let s = self.1.checked_mul(rhs.0);
        match (p, q, r, s) {
            (Some(p), Some(q), Some(r), Some(s)) => match (p.checked_sub(q), r.checked_add(s)) {
                (Some(x), Some(y)) => Some(Complex(x, y)),
                _ => None,
            },
            _ => None,
        }
    }

    /// The part-wise quotient, where no divisor is zero and it fits.
    pub fn div(self, rhs: Complex) -> (r: Option<Complex>)
        ensures
            r == div_spec(self, rhs),
    {
        match (self.0.checked_div(rhs.0), self.1.checked_div(rhs.1)) {
            (Some(x), Some(y)) => Some(Complex(x, y)),
            _ => None,
        }
    }

    /// Parses `[x,y]`.
    pub fn parse(s: &str) -> (r: Option<Complex>)
        ensures
            r == complex_text(s@),
    {
        let cs = chars_of(s);
        if cs.len() == 0 || cs[0] != '[' {
            return None;
        }
        let ghost rest = s@.drop_first();
        assert(cs@.skip(1) =~= rest);
        let i = find_char(&cs, 1, ',');
        if i >= cs.len() - 1 {
            return None;
        }
        let comma = i + 1;
        let last = cs.len() - 1;
        if last <= comma || cs[last] != ']' {
            assert(rest.skip(i + 1) =~= cs@.subrange(comma + 1, cs@.len() as int));
            return None;
        }
        let left = copy_range(&cs, 1, comma);
        let right = copy_range(&cs, comma + 1, last);
        assert(left@ =~= rest.take(i as int));
        assert(right@ =~= rest.skip(i + 1).drop_last());
        let lt = trim(string_of(&left).as_str());
        let rt = trim(string_of(&right).as_str());
        let x = parse_i64(&chars_of(lt.as_str()));
        let y = parse_i64(&chars_of(rt.as_str()));
        match (x, y) {
            (Some(x), Some(y)) => Some(Complex(x, y)),
            _ => None,
        }
    }
}

/// The number `A` of the notes.
fn parse_notes(notes: &str) -> (r: Option<Complex>)
    ensures
        r == notes_value(notes@),
{
    let t = trim(notes);
    let cs = chars_of(t.as_str());
    assert(cs@.skip(0) =~= cs@);
    let i = find_char(&cs, 0, '=');
    if i >= cs.len() {
        return None;
    }
    let after = copy_range(&cs, i + 1, cs.len());
    assert(after@ =~= cs@.skip(i + 1));
    Complex::parse(string_of(&after).as_str())
}

/// One step of the iteration: `r * r / d + a`.
fn step(r: Complex, a: Complex, d: Complex) -> (out: Option<Complex>)
    ensures
        out == step_spec(r, a, d),
{
    match r.mul(r) {
        Some(m) => match m.div(d) {
            Some(q) => q.add(a),
            None => None,
        },
        None => None,
    }
}

/// The result of three steps from `[0,0]` with divisor `[10,10]`, where
/// every value fits.
pub fn part_one(notes: &str) -> (r: Option<Complex>)
    ensures
        r == match notes_value(notes@) {
            Some(a) => cycle_spec(a, Complex(10, 10), 3),
            None => None,
        },
{
    let a = match parse_notes(notes) {
        Some(a) => a,
        None => return None,
    };
    let d = Complex(10, 10);
    let mut z = Complex(0, 0);
    let mut k: u32 = 0;
    while k < 3
        invariant
            k <= 3,
            d == Complex(10, 10),
            cycle_spec(a, d, k as nat) == Some(z),
            notes_value(notes@) == Some(a),
        decreases 3 - k,
    {
        z = match step(z, a, d) {
            Some(n) => n,
            None => {
                assert(cycle_spec(a, d, (k + 1) as nat) is None);
                proof {
                    lemma_cycle_stops(a, d, (k + 1) as nat, 3);
                }
                return None;
            },
        };
        k = k + 1;
    }
    Some(z)
}

proof fn lemma_cycle_stops(a: Complex, d: Complex, k: nat, n: nat)
    requires
        k <= n,
        cycle_spec(a, d, k) is None,
    ensures
        cycle_spec(a, d, n) is None,
    decreases n - k,
{
    if k < n {
        lemma_cycle_stops(a, d, k + 1, n);
    }
}

/// Whether the point `p` is engraved.
fn should_engrave(p: Complex) -> (r: bool)
    ensures
        r == engraved(p),
{
    let d = Complex(100000, 100000);
    let mut r = Complex(0, 0);
    let mut k: u32 = 0;
    while k < 100
        invariant
            k <= 100,
            d == Complex(100000, 100000),
            stays(p, r, (100 - k) as nat) == engraved(p),
        decreases 100 - k,
    {
        let ghost before = r;
        r = match step(r, p, d) {
            Some(n) => n,
            None => {
                assert(!stays(p, before, (100 - k) as nat));
                return false;
            },
        };
        assert(stays(p, before, (100 - k) as nat) == (in_range(r) && stays(
            p,
            r,
            (100 - k - 1) as nat,
        )));
        if !(-1000000 <= r.0 && r.0 <= 1000000 && -1000000 <= r.1 && r.1 <= 1000000) {
            return false;
        }
        k = k + 1;
    }
    true
}

/// The count of engraved points on the `grid_size` by `grid_size` grid from
/// `a` to `a + [1000,1000]`, where every coordinate the walk reaches fits.
fn check_grid(a: Complex, grid_size: i64) -> (r: Option<usize>)
    requires
        2 <= grid_size <= 65535,
    ensures
        r is Some <==> grid_spec(a, grid_size as int) is Some,
        r is Some ==> r->0 as nat == grid_spec(a, grid_size as int)->0,
{
    let g = grid_size;
    let b = match a.add(Complex(1000, 1000)) {
        Some(b) => b,
        None => return None,
    };
    let step: i64 = match (b.0 - a.0).checked_div(g - 1) {
        Some(s) => s,
        None => return None,
    };
    let ghost st: int = 1000int / (g - 1);
    assert(step == st);
    assert(0 <= st <= 1000);
    assert(step * g <= 1000 * 65535) by (nonlinear_arith)
        requires
            0 <= step <= 1000,
            2 <= g <= 65535,
    ;
    assert(step * g >= 0) by (nonlinear_arith)
        requires
            0 <= step,
            2 <= g,
    ;
    let span = step * g;
    assert(span == g * st) by (nonlinear_arith)
        requires
            span == step * g,
            step == st,
    ;
    let end_x = a.0.checked_add(span);
    let end_y = a.1.checked_add(span);
    if end_x.is_none() || end_y.is_none() {
        return None;
    }
    let mut count: usize = 0;
    let mut py: i64 = a.1;
    let mut j: i64 = 0;
    while j < g
        invariant
            2 <= g <= 65535,
            0 <= j <= g,
            step == st,
            0 <= st <= 1000,
            fits(a.0 + g * st),
            fits(a.1 + g * st),
            py == a.1 + j * st,
            count == grid_count(a, st, g as nat, j as nat),
            count <= j * g,
        decreases g - j,
    {
        let mut px: i64 = a.0;
        let mut i: i64 = 0;
        while i < g
            invariant
                2 <= g <= 65535,
                0 <= j < g,
                0 <= i <= g,
                step == st,
                0 <= st <= 1000,
                fits(a.0 + g * st),
                fits(a.1 + g * st),
                py == a.1 + j * st,
                px == a.0 + i * st,
                count == grid_count(a, st, g as nat, j as nat) + row_count(a, st, j as int, i as nat),
                count <= j * g + i,
            decreases g - i,
        {
            assert(j * g + i < g * g) by (nonlinear_arith)
                requires
                    0 <= j < g,
                    0 <= i < g,
            ;
            assert(g * g <= 65535 * 65535) by (nonlinear_arith)
                requires
                    2 <= g <= 65535,
            ;
            let p = Complex(px, py);
            assert(p == grid_point(a, st, i as int, j as int));
            if should_engrave(p) {
                count = count + 1;
            }
            assert((i + 1) * st <= g * st) by (nonlinear_arith)
                requires
                    0 <= i < g,
                    0 <= st,
            ;
            assert((i + 1) * st == i * st + st) by (nonlinear_arith);
            px = px + step;
            i = i + 1;
        }
        assert((j + 1) * g == j * g + g) by (nonlinear_arith);
        assert((j + 1) * st <= g * st) by (nonlinear_arith)
            requires
                0 <= j < g,
                0 <= st,
        ;
        assert((j + 1) * st == j * st + st) by (nonlinear_arith);
        assert(j * st >= 0) by (nonlinear_arith)
            requires
                0 <= j,
                0 <= st,
        ;
        py = py + step;
        j = j + 1;
    }
    Some(count)
}

/// The engraved count on the 101 by 101 grid of the notes' number.
pub fn part_two(notes: &str) -> (r: Option<usize>)
    ensures
        r is Some <==> (notes_value(notes@) is Some && grid_spec(notes_value(notes@)->0, 101) is Some),
        r is Some ==> r->0 as nat == grid_spec(notes_value(notes@)->0, 101)->0,
{
    match parse_notes(notes) {
        Some(a) => check_grid(a, 101),
        None => None,
    }
}

/// The engraved count on the 1001 by 1001 grid of the notes' number.
pub fn part_three(notes: &str) -> (r: Option<usize>)
    ensures
        r is Some <==> (notes_value(notes@) is Some && grid_spec(notes_value(notes@)->0, 1001) is Some),
        r is Some ==> r->0 as nat == grid_spec(notes_value(notes@)->0, 1001)->0,
{
    match parse_notes(notes) {
        Some(a) => check_grid(a, 1001),
        None => None,
    }
}

} // verus!
