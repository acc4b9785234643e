//! Triangle meshes: a face list, a translation offset, and an aggregate
//! bounding box used for cheap rejection before the per-face scan.

use vstd::prelude::*;

use crate::fixed::{div_t, fx_add, fx_add_s, fx_in, fx_sat, sat_s};
use crate::hittable::{box_in, box_intersects_s, box_ordered, hit_in, BoundingBox, Hit};
use crate::ray::{ray_in, Ray};
use crate::triangle::{triangle_hit_s, triangle_in, Triangle};
use crate::vec3::{dot_s, sub_s, vec_in, Vec3};

verus! {

pub struct Mesh {
    pub faces: Vec<Triangle>,
    pub offset: Vec3,
    pub bounds: BoundingBox,
}

pub open spec fn mesh_in(m: Mesh) -> bool {
    &&& forall|i: int| 0 <= i < m.faces@.len() ==> triangle_in(#[trigger] m.faces@[i])
    &&& vec_in(m.offset)
    &&& box_in(m.bounds)
    &&& box_ordered(m.bounds)
}

/// The closest-so-far scan over a face list, from index `i`, with the
/// current best hit and its parameter as the shrinking window top.
pub open spec fn face_scan_s(
    faces: Seq<Triangle>,
    ray: Ray,
    t_min: int,
    closest_dist: int,
    best: Option<Hit>,
    i: int,
) -> Option<Hit>
    decreases faces.len() - i,
{
    if i < 0 || i >= faces.len() {
        best
    } else {
        match triangle_hit_s(faces[i], ray, t_min, closest_dist) {
            Option::None => face_scan_s(faces, ray, t_min, closest_dist, best, i + 1),
            Option::Some(h) => face_scan_s(faces, ray, t_min, h.t as int, Option::Some(h), i + 1),
        }
    }
}

/// What `Mesh::hit` returns: nothing when the aggregate box rejects the
/// ray, else the nearest face hit of the ray translated by the negative
/// offset.
pub open spec fn mesh_hit_s(m: Mesh, ray: Ray, t_min: int, t_max: int) -> Option<Hit> {
    if box_intersects_s(m.bounds, ray, t_min, t_max) {
        let moved = Ray { origin: sub_s(ray.origin, m.offset), direction: ray.direction };
        face_scan_s(m.faces@, moved, t_min, t_max, Option::None, 0)
    } else {
        Option::None
    }
}

impl Mesh {
    /// Nearest intersection with any face, after the cheap box reject; the
    /// ray is moved by the negative offset instead of moving every face
    /// into world space.
    pub fn hit(&self, ray: &Ray, t_min: i128, t_max: i128) -> (r: Option<Hit>)
        requires
            mesh_in(*self),
            ray_in(*ray),
            fx_in(t_min as int),
            fx_in(t_max as int),
        ensures
            r == mesh_hit_s(*self, *ray, t_min as int, t_max as int),
            match r {
                Option::Some(h) => hit_in(h) && t_min <= h.t <= t_max && dot_s(
                    ray.direction,
                    h.normal,
                ) <= 0,
                Option::None => true,
            },
    {
        if !self.bounds.intersects(ray, t_min, t_max) {
            return Option::None;
        }
        let moved = Ray { origin: ray.origin.sub(self.offset), direction: ray.direction };
        let ghost moved_g = moved;
        let mut closest: Option<Hit> = Option::None;
        let mut closest_dist: i128 = t_max;
        let mut i: usize = 0;
        while i < self.faces.len()
            invariant
                mesh_in(*self),
                ray_in(moved_g),
                moved == moved_g,
                ray_in(*ray),
                moved.direction == ray.direction,
                fx_in(t_min as int),
                fx_in(t_max as int),
                fx_in(closest_dist as int),
                0 <= i <= self.faces@.len(),
                face_scan_s(self.faces@, moved_g, t_min as int, t_max as int, Option::None, 0)
                    == face_scan_s(
                    self.faces@,
                    moved_g,
                    t_min as int,
                    closest_dist as int,
                    closest,
                    i as int,
                ),
                match closest {
                    Option::Some(h) => hit_in(h) && t_min <= h.t <= t_max && h.t == closest_dist
                        && dot_s(ray.direction, h.normal) <= 0,
                    Option::None => closest_dist == t_max,
                },
            decreases self.faces@.len() - i,
        {
            match self.faces[i].hit(&moved, t_min, closest_dist) {
                Option::None => {},
                Option::Some(h) => {
                    closest_dist = h.t;
                    closest = Option::Some(h);
                },
            }
            i = i + 1;
        }
        closest
    }

    pub fn get_bounds(&self) -> (b: BoundingBox)
        ensures
            b == self.bounds,
    {
        self.bounds.clone()
    }
}

/// Why a mesh failed to load: a malformed numeric field, a face index
/// outside the vertex list seen so far, or no vertex at all.
#[derive(Clone, Copy, PartialEq, Eq, Structural, Debug)]
pub enum MeshError {
    Parse,
    Index,
    Empty,
}

/// Whitespace that separates fields (a carriage return counts, so text
/// with either line ending parses the same).
pub open spec fn is_ws(c: u8) -> bool {
    c == 32 || c == 9 || c == 13
}

pub open spec fn is_digit(c: u8) -> bool {
    48 <= c <= 57
}

/// First position at or after `i` that ends a token.
pub open spec fn tok_end_s(line: Seq<u8>, i: int) -> int
    decreases line.len() - i,
{
    if i < 0 || i >= line.len() || is_ws(line[i]) {
        i
    } else {
        tok_end_s(line, i + 1)
    }
}

/// The whitespace-separated tokens of a line, from position `i`.
pub open spec fn tokens_s(line: Seq<u8>, i: int) -> Seq<Seq<u8>>
    decreases line.len() - i, 1int,
{
    if i < 0 || i >= line.len() {
        Seq::empty()
    } else if is_ws(line[i]) {
        tokens_s(line, i + 1)
    } else {
        tokens_from_tok_s(line, i)
    }
}

pub open spec fn tokens_from_tok_s(line: Seq<u8>, i: int) -> Seq<Seq<u8>>
    decreases line.len() - i, 0int,
{
    if 0 <= i < line.len() && !is_ws(line[i]) {
        let e = clamp_pos(tok_end_s(line, i), i + 1, line.len() as int);
        seq![line.subrange(i, e)] + tokens_s(line, e)
    } else {
        Seq::empty()
    }
}

/// Clamp a scan position into [lo, hi] (the scans below never actually
/// leave that range; the clamp keeps the definitions well founded).
pub open spec fn clamp_pos(x: int, lo: int, hi: int) -> int {
    if x < lo {
        lo
    } else if x > hi {
        hi
    } else {
        x
    }
}

/// First position at or after `i` that ends a line.
pub open spec fn line_end_s(text: Seq<u8>, i: int) -> int
    decreases text.len() - i,
{
    if i < 0 || i >= text.len() || text[i] == 10 {
        i
    } else {
        line_end_s(text, i + 1)
    }
}

/// The lines of a text, from position `i`.
pub open spec fn lines_s(text: Seq<u8>, i: int) -> Seq<Seq<u8>>
    decreases text.len() + 1 - i,
{
    if i < 0 || i >= text.len() {
        Seq::empty()
    } else {
        let e = clamp_pos(line_end_s(text, i), i, text.len() as int);
        seq![text.subrange(i, e)] + lines_s(text, e + 1)
    }
}

/// First position at or after `i` that is not a digit.
pub open spec fn digits_end_s(t: Seq<u8>, i: int) -> int
    decreases t.len() - i,
{
    if i < 0 || i >= t.len() || !is_digit(t[i]) {
        i
    } else {
        digits_end_s(t, i + 1)
    }
}

/// The value of the digit run [i, e), accumulated from the left.
pub open spec fn digits_val_s(t: Seq<u8>, i: int, e: int, acc: int) -> int
    decreases e - i,
{
    if i < 0 || i >= e || i >= t.len() {
        acc
    } else {
        digits_val_s(t, i + 1, e, acc * 10 + (t[i] - 48))
    }
}

/// Ten to a small power.
pub open spec fn pow10_s(n: int) -> int
    decreases n,
{
    if n <= 0 {
        1
    } else {
        10 * pow10_s(n - 1)
    }
}

/// What parsing a decimal coordinate token yields: an optional sign, an
/// integer part, an optional point and fraction.  The fraction is read to
/// the resolution of the scale (nine digits); a run of more than eighteen
/// integer digits is rejected.
pub open spec fn parse_num_s(t: Seq<u8>) -> Option<int> {
    let start: int = if t.len() > 0 && (t[0] == 45 || t[0] == 43) {
        1
    } else {
        0
    };
    let neg = t.len() > 0 && t[0] == 45;
    let ie = digits_end_s(t, start);
    if ie - start > 18 {
        Option::None
    } else {
        let ival = digits_val_s(t, start, ie, 0);
        if ie == t.len() {
            if ie == start {
                Option::None
            } else {
                Option::Some(signed_sat(neg, ival * crate::fixed::FX_ONE as int))
            }
        } else if t[ie] == 46 {
            let fe = digits_end_s(t, ie + 1);
            if fe != t.len() || (ie == start && fe == ie + 1) || fe - (ie + 1) > 18 {
                Option::None
            } else {
                let k = if fe - (ie + 1) >= 9 {
                    9
                } else {
                    fe - (ie + 1)
                };
                let fval = digits_val_s(t, ie + 1, ie + 1 + k, 0);
                let frac = div_t(fval * pow10_s(9 - k) * (crate::fixed::FX_ONE as int), 1000000000);
                Option::Some(signed_sat(neg, ival * (crate::fixed::FX_ONE as int) + frac))
            }
        } else {
            Option::None
        }
    }
}

/// Clamp into range and apply a sign.
pub open spec fn signed_sat(neg: bool, v: int) -> int {
    if neg {
        -sat_s(v)
    } else {
        sat_s(v)
    }
}

/// What parsing a face field yields: the digits before any slash, as a
/// 1-based vertex index.
pub open spec fn parse_index_s(t: Seq<u8>) -> Option<int> {
    let se = slash_end_s(t, 0);
    let de = digits_end_s(t, 0);
    if se == 0 || de < se || se > 18 {
        Option::None
    } else {
        Option::Some(digits_val_s(t, 0, se, 0))
    }
}

/// First position at or after `i` holding a slash, or the end.
pub open spec fn slash_end_s(t: Seq<u8>, i: int) -> int
    decreases t.len() - i,
{
    if i < 0 || i >= t.len() || t[i] == 47 {
        i
    } else {
        slash_end_s(t, i + 1)
    }
}

/// One power of ten, for scaling fraction digits.
fn pow10_small(n: u32) -> (r: i128)
    requires
        n <= 9,
    ensures
        r == pow10_s(n as int),
        1 <= r <= 1000000000,
{
    proof {
        lemma_pow10_values();
        lemma_pow10_mono(n as int, 9);
    }
    let mut r: i128 = 1;
    let mut m: u32 = 0;
    while m < n
        invariant
            m <= n <= 9,
            r == pow10_s(m as int),
            1 <= r <= 1000000000,
        decreases n - m,
    {
        proof {
            lemma_pow10_values();
            lemma_pow10_mono(m as int + 1, 9);
        }
        r = r * 10;
        m = m + 1;
    }
    r
}

/// The concrete landmarks of the power table.
proof fn lemma_pow10_values()
    ensures
        pow10_s(9) == 1000000000,
        pow10_s(18) == 1000000000000000000,
{
    assert(pow10_s(0) == 1);
    assert(pow10_s(1) == 10);
    assert(pow10_s(2) == 100);
    assert(pow10_s(3) == 1000);
    assert(pow10_s(4) == 10000);
    assert(pow10_s(5) == 100000);
    assert(pow10_s(6) == 1000000);
    assert(pow10_s(7) == 10000000);
    assert(pow10_s(8) == 100000000);
    assert(pow10_s(9) == 1000000000);
    assert(pow10_s(10) == 10000000000);
    assert(pow10_s(11) == 100000000000);
    assert(pow10_s(12) == 1000000000000);
    assert(pow10_s(13) == 10000000000000);
    assert(pow10_s(14) == 100000000000000);
    assert(pow10_s(15) == 1000000000000000);
    assert(pow10_s(16) == 10000000000000000);
    assert(pow10_s(17) == 100000000000000000);
    assert(pow10_s(18) == 1000000000000000000);
}

/// Powers of ten are positive and nondecreasing.
proof fn lemma_pow10_mono(a: int, b: int)
    requires
        a <= b,
    ensures
        1 <= pow10_s(a) <= pow10_s(b),
    decreases (if b > 0 { b } else { 0int }),
{
    if b <= 0 {
    } else if a == b {
        lemma_pow10_mono(a - 1, b - 1);
    } else {
        lemma_pow10_mono(a, b - 1);
    }
}

/// Every position before the digit end holds a digit, and the end stops
/// at a non-digit or the end of the token.
proof fn lemma_digits_end_digits(t: Seq<u8>, i: int)
    requires
        0 <= i,
    ensures
        forall|m: int| i <= m < digits_end_s(t, i) ==> is_digit(#[trigger] t[m]),
        i <= t.len() ==> i <= digits_end_s(t, i) <= t.len(),
    decreases t.len() - i,
{
    if 0 <= i < t.len() && is_digit(t[i]) {
        lemma_digits_end_digits(t, i + 1);
    }
}

/// Scan a digit run of at most eighteen digits into its value.
fn digits_val(t: &Vec<u8>, st: usize, e: usize) -> (r: i128)
    requires
        st <= e <= t@.len(),
        e - st <= 18,
        forall|m: int| st <= m < e ==> is_digit(#[trigger] t@[m]),
    ensures
        r == digits_val_s(t@, st as int, e as int, 0),
        0 <= r < 1000000000000000000,
{
    let mut acc: i128 = 0;
    let mut i: usize = st;
    while i < e
        invariant
            st <= i <= e <= t@.len(),
            e - st <= 18,
            forall|m: int| st <= m < e ==> is_digit(#[trigger] t@[m]),
            digits_val_s(t@, st as int, e as int, 0) == digits_val_s(
                t@,
                i as int,
                e as int,
                acc as int,
            ),
            0 <= acc,
            acc < pow10_s(i as int - st as int),
        decreases e - i,
    {
        let d = t[i];
        proof {
            lemma_pow10_values();
            lemma_pow10_mono(i as int - st as int, 18);
            lemma_pow10_mono(i as int + 1 - st as int, 18);
            assert(acc * 10 + (d - 48) < pow10_s(i as int + 1 - st as int)) by (nonlinear_arith)
                requires
                    0 <= acc,
                    acc < pow10_s(i as int - st as int),
                    pow10_s(i as int + 1 - st as int) == 10 * pow10_s(i as int - st as int),
                    0 <= d - 48 <= 9,
            ;
        }
        acc = acc * 10 + (d - 48) as i128;
        i = i + 1;
    }
    proof {
        lemma_pow10_values();
        lemma_pow10_mono(e as int - st as int, 18);
    }
    acc
}

/// Find the end of the digit run at `i`.
fn digits_end(t: &Vec<u8>, i: usize) -> (r: usize)
    requires
        i <= t@.len(),
    ensures
        r as int == digits_end_s(t@, i as int),
        i <= r <= t@.len(),
{
    let mut j = i;
    while j < t.len() && 48 <= t[j] && t[j] <= 57
        invariant
            i <= j <= t@.len(),
            digits_end_s(t@, i as int) == digits_end_s(t@, j as int),
        decreases t@.len() - j,
    {
        j = j + 1;
    }
    j
}

/// Find the slash ending a face field, or the end of the field.
fn slash_end(t: &Vec<u8>) -> (r: usize)
    ensures
        r as int == slash_end_s(t@, 0),
        r <= t@.len(),
{
    let mut j: usize = 0;
    while j < t.len() && t[j] != 47
        invariant
            j <= t@.len(),
            slash_end_s(t@, 0) == slash_end_s(t@, j as int),
        decreases t@.len() - j,
    {
        j = j + 1;
    }
    j
}

/// Parse one decimal coordinate token into a scaled value.
fn parse_num(t: &Vec<u8>) -> (r: Option<i128>)
    ensures
        match r {
            Option::Some(v) => parse_num_s(t@) == Option::Some(v as int) && fx_in(v as int),
            Option::None => parse_num_s(t@) == Option::<int>::None,
        },
{
    let start: usize = if t.len() > 0 && (t[0] == 45 || t[0] == 43) {
        1
    } else {
        0
    };
    let neg = t.len() > 0 && t[0] == 45;
    let ie = digits_end(t, start);
    if ie - start > 18 {
        return Option::None;
    }
    proof {
        lemma_digits_end_digits(t@, start as int);
    }
    let ival = digits_val(t, start, ie);
    if ie == t.len() {
        if ie == start {
            Option::None
        } else {
            let v = fx_sat(ival * crate::fixed::FX_ONE);
            Option::Some(if neg { -v } else { v })
        }
    } else if t[ie] == 46 {
        let fe = digits_end(t, ie + 1);
        if fe != t.len() || (ie == start && fe == ie + 1) || fe - (ie + 1) > 18 {
            Option::None
        } else {
            let k: usize = if fe - (ie + 1) >= 9 {
                9
            } else {
                fe - (ie + 1)
            };
            proof {
                lemma_digits_end_digits(t@, ie as int + 1);
            }
            let fval = digits_val(t, ie + 1, ie + 1 + k);
            let p10 = pow10_small(9 - k as u32);
            proof {
                assert(fval * (p10 as int) < 1000000000000000000int * 1000000000int
                    && 0 <= fval * (p10 as int)) by (nonlinear_arith)
                    requires
                        0 <= fval && fval < 1000000000000000000int,
                        1 <= (p10 as int) && (p10 as int) <= 1000000000int,
                ;
            }
            let scaled = fval * p10;
            proof {
                assert(scaled as int * (crate::fixed::FX_ONE as int)
                    < 1000000000000000000000000000int * 4294967296int && 0 <= scaled as int
                    * (crate::fixed::FX_ONE as int)) by (nonlinear_arith)
                    requires
                        0 <= (scaled as int) && (scaled as int)
                            < 1000000000000000000000000000int,
                        crate::fixed::FX_ONE == 4294967296i128,
                ;
            }
            let frac = crate::fixed::div_wide(scaled * crate::fixed::FX_ONE, 1000000000);
            proof {
                assert(frac >= 0 && frac as int == div_t(
                    scaled as int * (crate::fixed::FX_ONE as int),
                    1000000000,
                ));
                vstd::arithmetic::div_mod::lemma_div_pos_is_pos(
                    crate::fixed::abs_s(scaled as int * (crate::fixed::FX_ONE as int)),
                    1000000000,
                );
                vstd::arithmetic::div_mod::lemma_div_is_ordered(
                    crate::fixed::abs_s(scaled as int * (crate::fixed::FX_ONE as int)),
                    1000000000000000000000000000int * 4294967296int,
                    1000000000,
                );
            }
            let v = fx_sat(ival * crate::fixed::FX_ONE + frac);
            Option::Some(if neg { -v } else { v })
        }
    } else {
        Option::None
    }
}

/// Parse one face field: the digits before any slash, as a 1-based index.
fn parse_index(t: &Vec<u8>) -> (r: Option<i128>)
    ensures
        match r {
            Option::Some(v) => parse_index_s(t@) == Option::Some(v as int) && 0 <= v
                < 1000000000000000000i128,
            Option::None => parse_index_s(t@) == Option::<int>::None,
        },
{
    let se = slash_end(t);
    let de = digits_end(t, 0);
    if se == 0 || de < se || se > 18 {
        Option::None
    } else {
        proof {
            lemma_digits_end_digits(t@, 0);
        }
        let v = digits_val(t, 0, se);
        Option::Some(v)
    }
}

/// The views of a list of byte rows.
pub open spec fn rows_s(s: Seq<Vec<u8>>) -> Seq<Seq<u8>> {
    s.map_values(|v: Vec<u8>| v@)
}

/// The widened view of parsed values.
pub open spec fn ints_s(s: Seq<i128>) -> Seq<int> {
    s.map_values(|x: i128| x as int)
}

/// A token end lies between its start and the end of the line.
proof fn lemma_tok_end_bounds(line: Seq<u8>, i: int)
    requires
        0 <= i <= line.len(),
    ensures
        i <= tok_end_s(line, i) <= line.len(),
    decreases line.len() - i,
{
    if i < line.len() && !is_ws(line[i]) {
        lemma_tok_end_bounds(line, i + 1);
    }
}

/// A line end lies between its start and the end of the text.
proof fn lemma_line_end_bounds(text: Seq<u8>, i: int)
    requires
        0 <= i <= text.len(),
    ensures
        i <= line_end_s(text, i) <= text.len(),
    decreases text.len() - i,
{
    if i < text.len() && text[i] != 10 {
        lemma_line_end_bounds(text, i + 1);
    }
}

/// Split a line into its whitespace-separated tokens.
fn tokenize(line: &Vec<u8>) -> (r: Vec<Vec<u8>>)
    ensures
        rows_s(r@) == tokens_s(line@, 0),
{
    let mut out: Vec<Vec<u8>> = Vec::new();
    let mut i: usize = 0;
    proof {
        assert(rows_s(out@) =~= Seq::<Seq<u8>>::empty());
    }
    while i < line.len()
        invariant
            i <= line@.len(),
            tokens_s(line@, 0) == rows_s(out@) + tokens_s(line@, i as int),
        decreases line@.len() - i,
    {
        let c = line[i];
        if c == 32 || c == 9 || c == 13 {
            i = i + 1;
        } else {
            let mut j = i + 1;
            proof {
                assert(!is_ws(line@[i as int]));
                lemma_tok_end_bounds(line@, i as int + 1);
            }
            while j < line.len() && line[j] != 32 && line[j] != 9 && line[j] != 13
                invariant
                    i < j <= line@.len(),
                    !is_ws(line@[i as int]),
                    tok_end_s(line@, i as int) == tok_end_s(line@, j as int),
                decreases line@.len() - j,
            {
                j = j + 1;
            }
            let ghost e = tok_end_s(line@, i as int);
            proof {
                assert(e == j as int);
            }
            let mut tok: Vec<u8> = Vec::new();
            let mut m = i;
            while m < j
                invariant
                    i < j,
                    i <= m <= j <= line@.len(),
                    !is_ws(line@[i as int]),
                    j as int == tok_end_s(line@, i as int),
                    tok@ == line@.subrange(i as int, m as int),
                decreases j - m,
            {
                tok.push(line[m]);
                proof {
                    assert(tok@ =~= line@.subrange(i as int, m as int + 1));
                }
                m = m + 1;
            }
            let ghost out0 = out@;
            out.push(tok);
            proof {
                assert(rows_s(out@) =~= rows_s(out0).push(line@.subrange(i as int, j as int)));
                assert(tok_end_s(line@, i as int) == j as int);
                assert(clamp_pos(tok_end_s(line@, i as int), i as int + 1, line@.len() as int)
                    == j as int);
                assert(tokens_s(line@, i as int) == tokens_from_tok_s(line@, i as int));
                assert(tokens_from_tok_s(line@, i as int) == seq![
                    line@.subrange(i as int, j as int),
                ] + tokens_s(line@, j as int));
                assert(rows_s(out@) + tokens_s(line@, j as int) =~= rows_s(out0) + tokens_s(
                    line@,
                    i as int,
                ));
            }
            i = j;
        }
    }
    proof {
        assert(tokens_s(line@, 0) =~= rows_s(out@));
    }
    out
}

/// Split a text into its lines.
fn split_lines(text: &Vec<u8>) -> (r: Vec<Vec<u8>>)
    requires
        text@.len() < usize::MAX,
    ensures
        rows_s(r@) == lines_s(text@, 0),
{
    let mut out: Vec<Vec<u8>> = Vec::new();
    let mut i: usize = 0;
    proof {
        assert(rows_s(out@) =~= Seq::<Seq<u8>>::empty());
    }
    while i < text.len()
        invariant
            i <= text@.len() + 1,
            text@.len() < usize::MAX,
            lines_s(text@, 0) == rows_s(out@) + lines_s(text@, i as int),
        decreases text@.len() + 1 - i,
    {
        let mut j = i;
        proof {
            lemma_line_end_bounds(text@, i as int);
        }
        while j < text.len() && text[j] != 10
            invariant
                i <= j <= text@.len(),
                text@.len() < usize::MAX,
                line_end_s(text@, i as int) == line_end_s(text@, j as int),
            decreases text@.len() - j,
        {
            j = j + 1;
        }
        let ghost e = line_end_s(text@, i as int);
        proof {
            assert(e == j as int);
        }
        let mut row: Vec<u8> = Vec::new();
        let mut m = i;
        while m < j
            invariant
                i <= m <= j <= text@.len(),
                text@.len() < usize::MAX,
                j as int == line_end_s(text@, i as int),
                row@ == text@.subrange(i as int, m as int),
            decreases j - m,
        {
            row.push(text[m]);
            proof {
                assert(row@ =~= text@.subrange(i as int, m as int + 1));
            }
            m = m + 1;
        }
        let ghost out0 = out@;
        out.push(row);
        proof {
            assert(rows_s(out@) =~= rows_s(out0).push(text@.subrange(i as int, j as int)));
            assert(lines_s(text@, i as int) == seq![text@.subrange(i as int, e)] + lines_s(
                text@,
                e + 1,
            ));
            assert(rows_s(out@) + lines_s(text@, j as int + 1) =~= rows_s(out0) + lines_s(
                text@,
                i as int,
            ));
        }
        i = j + 1;
    }
    proof {
        assert(lines_s(text@, 0) =~= rows_s(out@));
    }
    out
}

/// The coordinate values of a vertex line's fields, from token `i` on;
/// nothing if any field fails to parse.
pub open spec fn nums_from_s(toks: Seq<Seq<u8>>, i: int, acc: Seq<int>) -> Option<Seq<int>>
    decreases toks.len() - i,
{
    if i < 0 || i >= toks.len() {
        Option::Some(acc)
    } else {
        match parse_num_s(toks[i]) {
            Option::None => Option::None,
            Option::Some(v) => nums_from_s(toks, i + 1, acc.push(v)),
        }
    }
}

/// The index values of a face line's fields, from token `i` on; nothing
/// if any field fails to parse.
pub open spec fn idxs_from_s(toks: Seq<Seq<u8>>, i: int, acc: Seq<int>) -> Option<Seq<int>>
    decreases toks.len() - i,
{
    if i < 0 || i >= toks.len() {
        Option::Some(acc)
    } else {
        match parse_index_s(toks[i]) {
            Option::None => Option::None,
            Option::Some(v) => idxs_from_s(toks, i + 1, acc.push(v)),
        }
    }
}

/// What one line contributes: a vertex line appends one vertex (all its
/// fields must parse, the first three are used); a face line appends one
/// triangle over already-seen vertices; comments, blank lines and other
/// prefixes are ignored.
pub open spec fn line_step_s(line: Seq<u8>, vertices: Seq<Vec3>, faces: Seq<Triangle>) -> Result<
    (Seq<Vec3>, Seq<Triangle>),
    MeshError,
> {
    let toks = tokens_s(line, 0);
    if toks.len() == 0 {
        Result::Ok((vertices, faces))
    } else if toks[0].len() == 1 && toks[0][0] == 118 {
        match nums_from_s(toks, 1, Seq::empty()) {
            Option::None => Result::Err(MeshError::Parse),
            Option::Some(vs) => {
                if vs.len() < 3 {
                    Result::Err(MeshError::Parse)
                } else {
                    Result::Ok(
                        (
                            vertices.push(
                                Vec3 { x: vs[0] as i128, y: vs[1] as i128, z: vs[2] as i128 },
                            ),
                            faces,
                        ),
                    )
                }
            },
        }
    } else if toks[0].len() == 1 && toks[0][0] == 102 {
        match idxs_from_s(toks, 1, Seq::empty()) {
            Option::None => Result::Err(MeshError::Parse),
            Option::Some(ids) => {
                if ids.len() < 3 {
                    Result::Err(MeshError::Parse)
                } else if !(1 <= ids[0] <= vertices.len() && 1 <= ids[1] <= vertices.len() && 1
                    <= ids[2] <= vertices.len()) {
                    Result::Err(MeshError::Index)
                } else {
                    Result::Ok(
                        (
                            vertices,
                            faces.push(
                                Triangle {
                                    p1: vertices[ids[0] - 1],
                                    p2: vertices[ids[1] - 1],
                                    p3: vertices[ids[2] - 1],
                                },
                            ),
                        ),
                    )
                }
            },
        }
    } else {
        Result::Ok((vertices, faces))
    }
}

/// The fold of line contributions, stopping at the first failure.
pub open spec fn parse_lines_s(
    lines: Seq<Seq<u8>>,
    i: int,
    vertices: Seq<Vec3>,
    faces: Seq<Triangle>,
) -> Result<(Seq<Vec3>, Seq<Triangle>), MeshError>
    decreases lines.len() - i,
{
    if i < 0 || i >= lines.len() {
        Result::Ok((vertices, faces))
    } else {
        match line_step_s(lines[i], vertices, faces) {
            Result::Err(e) => Result::Err(e),
            Result::Ok(vf) => parse_lines_s(lines, i + 1, vf.0, vf.1),
        }
    }
}

/// The componentwise minimum fold over vertices from index `i`.
pub open spec fn verts_lo_s(vs: Seq<Vec3>, i: int, cur: Vec3) -> Vec3
    decreases vs.len() - i,
{
    if i < 0 || i >= vs.len() {
        cur
    } else {
        verts_lo_s(
            vs,
            i + 1,
            Vec3 {
                x: crate::hittable::min_i(cur.x as int, vs[i].x as int) as i128,
                y: crate::hittable::min_i(cur.y as int, vs[i].y as int) as i128,
                z: crate::hittable::min_i(cur.z as int, vs[i].z as int) as i128,
            },
        )
    }
}

/// The componentwise maximum fold over vertices from index `i`.
pub open spec fn verts_hi_s(vs: Seq<Vec3>, i: int, cur: Vec3) -> Vec3
    decreases vs.len() - i,
{
    if i < 0 || i >= vs.len() {
        cur
    } else {
        verts_hi_s(
            vs,
            i + 1,
            Vec3 {
                x: crate::hittable::max_i(cur.x as int, vs[i].x as int) as i128,
                y: crate::hittable::max_i(cur.y as int, vs[i].y as int) as i128,
                z: crate::hittable::max_i(cur.z as int, vs[i].z as int) as i128,
            },
        )
    }
}

/// The box around all vertices, translated by the mesh offset.
pub open spec fn mesh_bounds_s(vs: Seq<Vec3>, offset: Vec3) -> BoundingBox {
    let lo = verts_lo_s(vs, 1, vs[0]);
    let hi = verts_hi_s(vs, 1, vs[0]);
    BoundingBox {
        x_low: fx_add_s(lo.x as int, offset.x as int) as i128,
        x_high: fx_add_s(hi.x as int, offset.x as int) as i128,
        y_low: fx_add_s(lo.y as int, offset.y as int) as i128,
        y_high: fx_add_s(hi.y as int, offset.y as int) as i128,
        z_low: fx_add_s(lo.z as int, offset.z as int) as i128,
        z_high: fx_add_s(hi.z as int, offset.z as int) as i128,
    }
}

/// What `Mesh::from_text` yields: the triangles and the bounding box, or
/// the first failure; an input that defines no vertex is refused.
pub open spec fn from_text_s(text: Seq<u8>, offset: Vec3) -> Result<
    (Seq<Triangle>, BoundingBox),
    MeshError,
> {
    match parse_lines_s(lines_s(text, 0), 0, Seq::empty(), Seq::empty()) {
        Result::Err(e) => Result::Err(e),
        Result::Ok(vf) => {
            if vf.0.len() == 0 {
                Result::Err(MeshError::Empty)
            } else {
                Result::Ok((vf.1, mesh_bounds_s(vf.0, offset)))
            }
        },
    }
}

/// Fold one line into the vertex and face lists.
fn apply_line(line: &Vec<u8>, vertices: &mut Vec<Vec3>, faces: &mut Vec<Triangle>) -> (r: Result<
    (),
    MeshError,
>)
    requires
        forall|k: int| 0 <= k < old(vertices)@.len() ==> vec_in(#[trigger] old(vertices)@[k]),
        forall|k: int| 0 <= k < old(faces)@.len() ==> triangle_in(#[trigger] old(faces)@[k]),
    ensures
        match line_step_s(line@, old(vertices)@, old(faces)@) {
            Result::Ok(vf) => r is Ok && final(vertices)@ == vf.0 && final(faces)@ == vf.1,
            Result::Err(e) => r == Result::<(), MeshError>::Err(e) && final(vertices)@ == old(
                vertices,
            )@ && final(faces)@ == old(faces)@,
        },
        forall|k: int| 0 <= k < final(vertices)@.len() ==> vec_in(#[trigger] final(vertices)@[k]),
        forall|k: int| 0 <= k < final(faces)@.len() ==> triangle_in(#[trigger] final(faces)@[k]),
{
    let toks = tokenize(line);
    let ghost tseq = rows_s(toks@);
    if toks.len() == 0 {
        return Result::Ok(());
    }
    let head = &toks[0];
    if head.len() == 1 && head[0] == 118 {
        let mut vals: Vec<i128> = Vec::new();
        let mut ti: usize = 1;
        proof {
            assert(ints_s(vals@) =~= Seq::<int>::empty());
        }
        while ti < toks.len()
            invariant
                1 <= ti <= toks@.len(),
                tseq == rows_s(toks@),
                tseq == tokens_s(line@, 0),
                tseq[0].len() == 1 && tseq[0][0] == 118,
                vertices@ == old(vertices)@,
                faces@ == old(faces)@,
                forall|k: int| 0 <= k < vertices@.len() ==> vec_in(#[trigger] vertices@[k]),
                forall|k: int| 0 <= k < faces@.len() ==> triangle_in(#[trigger] faces@[k]),
                nums_from_s(tseq, 1, Seq::empty()) == nums_from_s(tseq, ti as int, ints_s(vals@)),
                forall|k: int| 0 <= k < vals@.len() ==> fx_in((#[trigger] vals@[k]) as int),
            decreases toks@.len() - ti,
        {
            match parse_num(&toks[ti]) {
                Option::None => {
                    return Result::Err(MeshError::Parse);
                },
                Option::Some(v) => {
                    let ghost vals0 = vals@;
                    vals.push(v);
                    proof {
                        assert(ints_s(vals@) =~= ints_s(vals0).push(v as int));
                    }
                },
            }
            ti = ti + 1;
        }
        if vals.len() < 3 {
            return Result::Err(MeshError::Parse);
        }
        let vtx = Vec3 { x: vals[0], y: vals[1], z: vals[2] };
        vertices.push(vtx);
        Result::Ok(())
    } else if head.len() == 1 && head[0] == 102 {
        let mut ids: Vec<i128> = Vec::new();
        let mut ti: usize = 1;
        proof {
            assert(ints_s(ids@) =~= Seq::<int>::empty());
        }
        while ti < toks.len()
            invariant
                1 <= ti <= toks@.len(),
                tseq == rows_s(toks@),
                tseq == tokens_s(line@, 0),
                tseq[0].len() == 1 && tseq[0][0] == 102,
                vertices@ == old(vertices)@,
                faces@ == old(faces)@,
                forall|k: int| 0 <= k < vertices@.len() ==> vec_in(#[trigger] vertices@[k]),
                forall|k: int| 0 <= k < faces@.len() ==> triangle_in(#[trigger] faces@[k]),
                idxs_from_s(tseq, 1, Seq::empty()) == idxs_from_s(tseq, ti as int, ints_s(ids@)),
                forall|k: int|
                    0 <= k < ids@.len() ==> 0 <= (#[trigger] ids@[k]) < 1000000000000000000i128,
            decreases toks@.len() - ti,
        {
            match parse_index(&toks[ti]) {
                Option::None => {
                    return Result::Err(MeshError::Parse);
                },
                Option::Some(v) => {
                    let ghost ids0 = ids@;
                    ids.push(v);
                    proof {
                        assert(ints_s(ids@) =~= ints_s(ids0).push(v as int));
                    }
                },
            }
            ti = ti + 1;
        }
        if ids.len() < 3 {
            return Result::Err(MeshError::Parse);
        }
        let n = vertices.len();
        if !(1 <= ids[0] && ids[0] <= n as i128 && 1 <= ids[1] && ids[1] <= n as i128 && 1
            <= ids[2] && ids[2] <= n as i128) {
            return Result::Err(MeshError::Index);
        }
        let tri = Triangle {
            p1: vertices[(ids[0] - 1) as usize],
            p2: vertices[(ids[1] - 1) as usize],
            p3: vertices[(ids[2] - 1) as usize],
        };
        faces.push(tri);
        Result::Ok(())
    } else {
        Result::Ok(())
    }
}

impl Mesh {
    /// Build a mesh from the text of a mesh file: `v` lines define
    /// vertices, `f` lines define triangular faces by 1-based indices
    /// into the vertices seen so far (only the field before any slash
    /// counts); comments and unrecognized lines are ignored.  Any
    /// malformed number, out-of-range index, or input without a vertex is
    /// a structured failure, never a partial mesh.
    ///
    /// The coordinate grammar is plain decimal: an optional sign, an
    /// integer part, an optional point and fraction, with at least one
    /// digit in all; a digit run is at most eighteen digits and the
    /// fraction is read to the scale's resolution (nine digits).
    /// Exponent notation is not part of the grammar and is a parse
    /// failure.
    pub fn from_text(text: &Vec<u8>, offset: Vec3) -> (r: Result<Mesh, MeshError>)
        requires
            vec_in(offset),
            text@.len() < usize::MAX,
        ensures
            match r {
                Result::Ok(m) => {
                    &&& from_text_s(text@, offset) matches Result::Ok(fb)
                    &&& m.faces@ == fb.0
                    &&& m.bounds == fb.1
                    &&& m.offset == offset
                    &&& mesh_in(m)
                },
                Result::Err(e) => from_text_s(text@, offset) == Result::<
                    (Seq<Triangle>, BoundingBox),
                    MeshError,
                >::Err(e),
            },
    {
        let lines = split_lines(text);
        let ghost lseq = rows_s(lines@);
        let mut vertices: Vec<Vec3> = Vec::new();
        let mut faces: Vec<Triangle> = Vec::new();
        let mut i: usize = 0;
        while i < lines.len()
            invariant
                i <= lines@.len(),
                lseq == rows_s(lines@),
                lseq == lines_s(text@, 0),
                parse_lines_s(lseq, 0, Seq::empty(), Seq::empty()) == parse_lines_s(
                    lseq,
                    i as int,
                    vertices@,
                    faces@,
                ),
                forall|k: int| 0 <= k < vertices@.len() ==> vec_in(#[trigger] vertices@[k]),
                forall|k: int| 0 <= k < faces@.len() ==> triangle_in(#[trigger] faces@[k]),
            decreases lines@.len() - i,
        {
            match apply_line(&lines[i], &mut vertices, &mut faces) {
                Result::Ok(()) => {},
                Result::Err(e) => {
                    return Result::Err(e);
                },
            }
            i = i + 1;
        }
        if vertices.len() == 0 {
            return Result::Err(MeshError::Empty);
        }
        let mut lo = vertices[0];
        let mut hi = vertices[0];
        let mut k: usize = 1;
        while k < vertices.len()
            invariant
                1 <= k <= vertices@.len(),
                forall|m: int| 0 <= m < vertices@.len() ==> vec_in(#[trigger] vertices@[m]),
                vec_in(lo),
                vec_in(hi),
                lo.x <= hi.x && lo.y <= hi.y && lo.z <= hi.z,
                verts_lo_s(vertices@, 1, vertices@[0]) == verts_lo_s(vertices@, k as int, lo),
                verts_hi_s(vertices@, 1, vertices@[0]) == verts_hi_s(vertices@, k as int, hi),
            decreases vertices@.len() - k,
        {
            let v = vertices[k];
            lo = Vec3 {
                x: if lo.x <= v.x {
                    lo.x
                } else {
                    v.x
                },
                y: if lo.y <= v.y {
                    lo.y
                } else {
                    v.y
                },
                z: if lo.z <= v.z {
                    lo.z
                } else {
                    v.z
                },
            };
            hi = Vec3 {
                x: if hi.x >= v.x {
                    hi.x
                } else {
                    v.x
                },
                y: if hi.y >= v.y {
                    hi.y
                } else {
                    v.y
                },
                z: if hi.z >= v.z {
                    hi.z
                } else {
                    v.z
                },
            };
            k = k + 1;
        }
        let bounds = BoundingBox {
            x_low: fx_add(lo.x, offset.x),
            x_high: fx_add(hi.x, offset.x),
            y_low: fx_add(lo.y, offset.y),
            y_high: fx_add(hi.y, offset.y),
            z_low: fx_add(lo.z, offset.z),
            z_high: fx_add(hi.z, offset.z),
        };
        Result::Ok(Mesh { faces, offset, bounds })
    }
}

/// A line whose first token is the face keyword.
pub open spec fn is_face_line(line: Seq<u8>) -> bool {
    let toks = tokens_s(line, 0);
    toks.len() > 0 && toks[0].len() == 1 && toks[0][0] == 102
}

/// A line whose first token is the vertex keyword.
pub open spec fn is_vertex_line(line: Seq<u8>) -> bool {
    let toks = tokens_s(line, 0);
    toks.len() > 0 && toks[0].len() == 1 && toks[0][0] == 118
}

/// How many face lines follow from position `i`.
pub open spec fn face_line_count_s(lines: Seq<Seq<u8>>, i: int) -> int
    decreases lines.len() - i,
{
    if i < 0 || i >= lines.len() {
        0
    } else {
        (if is_face_line(lines[i]) {
            1int
        } else {
            0int
        }) + face_line_count_s(lines, i + 1)
    }
}

/// How many vertex lines follow from position `i`.
pub open spec fn vertex_line_count_s(lines: Seq<Seq<u8>>, i: int) -> int
    decreases lines.len() - i,
{
    if i < 0 || i >= lines.len() {
        0
    } else {
        (if is_vertex_line(lines[i]) {
            1int
        } else {
            0int
        }) + vertex_line_count_s(lines, i + 1)
    }
}

/// A parse that succeeds takes exactly one triangle from every face line
/// and one vertex from every vertex line.
proof fn lemma_parse_lines_counts(
    lines: Seq<Seq<u8>>,
    i: int,
    vertices: Seq<Vec3>,
    faces: Seq<Triangle>,
)
    requires
        0 <= i <= lines.len(),
        parse_lines_s(lines, i, vertices, faces) is Ok,
    ensures
        ({
            let vf = parse_lines_s(lines, i, vertices, faces)->Ok_0;
            &&& vf.0.len() == vertices.len() + vertex_line_count_s(lines, i)
            &&& vf.1.len() == faces.len() + face_line_count_s(lines, i)
        }),
    decreases lines.len() - i,
{
    if i < lines.len() {
        match line_step_s(lines[i], vertices, faces) {
            Result::Err(_) => {},
            Result::Ok(vf) => {
                lemma_parse_lines_counts(lines, i + 1, vf.0, vf.1);
            },
        }
    }
}

/// A text with some number of vertex lines and some number of triangular
/// face lines that loads successfully yields exactly that many vertices
/// read in order and exactly that many triangles.
pub proof fn lemma_from_text_counts(text: Seq<u8>, offset: Vec3)
    requires
        from_text_s(text, offset) is Ok,
    ensures
        from_text_s(text, offset)->Ok_0.0.len() == face_line_count_s(lines_s(text, 0), 0),
{
    lemma_parse_lines_counts(lines_s(text, 0), 0, Seq::empty(), Seq::empty());
}

} // verus!
