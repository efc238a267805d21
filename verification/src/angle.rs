//! Angles and fixed-point trigonometry.
//!
//! An angle is a whole number of millionths of a degree, counted
//! anticlockwise. Sines and cosines are fixed-point numbers in millionths:
//! `UNIT` stands for one. The sine of a whole degree is tabulated; between two
//! whole degrees it is interpolated linearly.

use vstd::prelude::*;
use vstd::arithmetic::div_mod::*;

verus! {

/// One, in the fixed-point scale of sines and cosines.
pub const UNIT: i64 = 1_000_000;

/// One degree.
pub const DEGREE: i64 = 1_000_000;

/// A quarter turn.
pub const QUARTER_TURN: i64 = 90_000_000;

/// Half a turn.
pub const HALF_TURN: i64 = 180_000_000;

/// A full turn.
pub const FULL_TURN: i64 = 360_000_000;

/// The sine of `d` whole degrees, for `d` from 0 to 90, rounded to the
/// nearest millionth. Below the range it is the value at 0, above it the
/// value at 90.
#[verifier::opaque]
pub open spec fn table_sine(d: int) -> int {
    if d <= 0 {
        0
    } else if d == 1 {
        17452
    } else if d == 2 {
        34899
    } else if d == 3 {
        52336
    } else if d == 4 {
        69756
    } else if d == 5 {
        87156
    } else if d == 6 {
        104528
    } else if d == 7 {
        121869
    } else if d == 8 {
        139173
    } else if d == 9 {
        156434
    } else if d == 10 {
        173648
    } else if d == 11 {
        190809
    } else if d == 12 {
        207912
    } else if d == 13 {
        224951
    } else if d == 14 {
        241922
    } else if d == 15 {
        258819
    } else if d == 16 {
        275637
    } else if d == 17 {
        292372
    } else if d == 18 {
        309017
    } else if d == 19 {
        325568
    } else if d == 20 {
        342020
    } else if d == 21 {
        358368
    } else if d == 22 {
        374607
    } else if d == 23 {
        390731
    } else if d == 24 {
        406737
    } else if d == 25 {
        422618
    } else if d == 26 {
        438371
    } else if d == 27 {
        453990
    } else if d == 28 {
        469472
    } else if d == 29 {
        484810
    } else if d == 30 {
        500000
    } else if d == 31 {
        515038
    } else if d == 32 {
        529919
    } else if d == 33 {
        544639
    } else if d == 34 {
        559193
    } else if d == 35 {
        573576
    } else if d == 36 {
        587785
    } else if d == 37 {
        601815
    } else if d == 38 {
        615661
    } else if d == 39 {
        629320
    } else if d == 40 {
        642788
    } else if d == 41 {
        656059
    } else if d == 42 {
        669131
    } else if d == 43 {
        681998
    } else if d == 44 {
        694658
    } else if d == 45 {
        707107
    } else if d == 46 {
        719340
    } else if d == 47 {
        731354
    } else if d == 48 {
        743145
    } else if d == 49 {
        754710
    } else if d == 50 {
        766044
    } else if d == 51 {
        777146
    } else if d == 52 {
        788011
    } else if d == 53 {
        798636
    } else if d == 54 {
        809017
    } else if d == 55 {
        819152
    } else if d == 56 {
        829038
    } else if d == 57 {
        838671
    } else if d == 58 {
        848048
    } else if d == 59 {
        857167
    } else if d == 60 {
        866025
    } else if d == 61 {
        874620
    } else if d == 62 {
        882948
    } else if d == 63 {
        891007
    } else if d == 64 {
        898794
    } else if d == 65 {
        906308
    } else if d == 66 {
        913545
    } else if d == 67 {
        920505
    } else if d == 68 {
        927184
    } else if d == 69 {
        933580
    } else if d == 70 {
        939693
    } else if d == 71 {
        945519
    } else if d == 72 {
        951057
    } else if d == 73 {
        956305
    } else if d == 74 {
        961262
    } else if d == 75 {
        965926
    } else if d == 76 {
        970296
    } else if d == 77 {
        974370
    } else if d == 78 {
        978148
    } else if d == 79 {
        981627
    } else if d == 80 {
        984808
    } else if d == 81 {
        987688
    } else if d == 82 {
        990268
    } else if d == 83 {
        992546
    } else if d == 84 {
        994522
    } else if d == 85 {
        996195
    } else if d == 86 {
        997564
    } else if d == 87 {
        998630
    } else if d == 88 {
        999391
    } else if d == 89 {
        999848
    } else {
        1_000_000
    }
}

/// The sine of an angle in the first quadrant, `0 <= a <= QUARTER_TURN`.
pub open spec fn quadrant_sine(a: int) -> int {
    let d = a / (DEGREE as int);
    let f = a % (DEGREE as int);
    table_sine(d) + (table_sine(d + 1) - table_sine(d)) * f / (DEGREE as int)
}

/// The sine of an angle in the upper half turn, `0 <= t <= HALF_TURN`.
pub open spec fn half_sine(t: int) -> int {
    if t <= QUARTER_TURN {
        quadrant_sine(t)
    } else {
        quadrant_sine(HALF_TURN - t)
    }
}

/// The sine of any angle, in millionths.
pub open spec fn sine(a: int) -> int {
    let t = a % (FULL_TURN as int);
    if t < HALF_TURN {
        half_sine(t)
    } else {
        -half_sine(t - HALF_TURN)
    }
}

/// The cosine of any angle, in millionths.
pub open spec fn cosine(a: int) -> int {
    sine(a + QUARTER_TURN)
}

/// The angle in `[0, FULL_TURN)` that points the same way as `a`.
pub open spec fn normal(a: int) -> int {
    a % (FULL_TURN as int)
}

/// The tabulated sines lie between zero and one and never fall.
pub proof fn lemma_table_sine(d: int)
    ensures
        0 <= table_sine(d) <= table_sine(d + 1) <= UNIT,
{
    reveal(table_sine);
}

/// A first-quadrant sine lies between its two neighbours in the table.
pub proof fn lemma_quadrant_sine_bounds(a: int)
    requires
        0 <= a <= QUARTER_TURN,
    ensures
        0 <= quadrant_sine(a) <= UNIT,
{
    let d = a / (DEGREE as int);
    let f = a % (DEGREE as int);
    let step = table_sine(d + 1) - table_sine(d);
    lemma_table_sine(d);
    lemma_table_sine(d + 1);
    assert(0 <= step * f / (DEGREE as int) <= step) by (nonlinear_arith)
        requires
            0 <= step,
            0 <= f < DEGREE,
            DEGREE == 1_000_000,
    ;
}

/// Sines and cosines never leave `[-UNIT, UNIT]`.
pub proof fn lemma_sine_bounds(a: int)
    ensures
        -UNIT <= sine(a) <= UNIT,
        -UNIT <= cosine(a) <= UNIT,
{
    lemma_sine_range(a);
    lemma_sine_range(a + QUARTER_TURN);
}

proof fn lemma_sine_range(a: int)
    ensures
        -UNIT <= sine(a) <= UNIT,
{
    let t = a % (FULL_TURN as int);
    if t < HALF_TURN {
        if t <= QUARTER_TURN {
            lemma_quadrant_sine_bounds(t);
        } else {
            lemma_quadrant_sine_bounds(HALF_TURN - t);
        }
    } else {
        let u = t - HALF_TURN;
        if u <= QUARTER_TURN {
            lemma_quadrant_sine_bounds(u);
        } else {
            lemma_quadrant_sine_bounds(HALF_TURN - u);
        }
    }
}

/// Half a turn more negates the sine and the cosine.
pub proof fn lemma_half_turn(a: int)
    ensures
        sine(a + HALF_TURN) == -sine(a),
        cosine(a + HALF_TURN) == -cosine(a),
{
    lemma_sine_half_turn(a);
    lemma_sine_half_turn(a + QUARTER_TURN);
}

proof fn lemma_sine_half_turn(a: int)
    ensures
        sine(a + HALF_TURN) == -sine(a),
{
    let t = a % (FULL_TURN as int);
    let u = (a + HALF_TURN) % (FULL_TURN as int);
    assert(if t < HALF_TURN {
        u == t + HALF_TURN
    } else {
        u == t - HALF_TURN
    });
}

/// A quarter turn more turns the sine into the cosine and the cosine into
/// the negated sine.
pub proof fn lemma_quarter_turn(a: int)
    ensures
        sine(a + QUARTER_TURN) == cosine(a),
        cosine(a + QUARTER_TURN) == -sine(a),
{
    lemma_sine_half_turn(a);
}

/// A full turn more changes nothing.
pub proof fn lemma_full_turn(a: int)
    ensures
        sine(a + FULL_TURN) == sine(a),
        cosine(a + FULL_TURN) == cosine(a),
        sine(normal(a)) == sine(a),
        cosine(normal(a)) == cosine(a),
{
    assert((a + FULL_TURN) % (FULL_TURN as int) == a % (FULL_TURN as int));
    assert((a + QUARTER_TURN + FULL_TURN) % (FULL_TURN as int) == (a + QUARTER_TURN) % (
    FULL_TURN as int));
    assert((a % (FULL_TURN as int)) % (FULL_TURN as int) == a % (FULL_TURN as int));
    assert((a % (FULL_TURN as int) + QUARTER_TURN) % (FULL_TURN as int) == (a + QUARTER_TURN) % (
    FULL_TURN as int));
}

/// The exact values at the four axes.
pub proof fn lemma_axes()
    ensures
        sine(0) == 0,
        cosine(0) == UNIT,
        sine(QUARTER_TURN as int) == UNIT,
        cosine(QUARTER_TURN as int) == 0,
        sine(HALF_TURN as int) == 0,
        cosine(HALF_TURN as int) == -UNIT,
        sine(3 * QUARTER_TURN) == -UNIT,
        cosine(3 * QUARTER_TURN) == 0,
{
    reveal(table_sine);
    assert(0int / 1_000_000 == 0 && 0int % 1_000_000 == 0);
    assert(90_000_000int / 1_000_000 == 90 && 90_000_000int % 1_000_000 == 0);
    assert(table_sine(0) == 0 && table_sine(90) == 1_000_000 && table_sine(91) == 1_000_000);
    assert((table_sine(1) - table_sine(0)) * 0 / 1_000_000 == 0);
    assert((table_sine(91) - table_sine(90)) * 0 / 1_000_000 == 0);
    assert(quadrant_sine(0) == 0);
    assert(quadrant_sine(QUARTER_TURN as int) == UNIT);
    assert(0int % 360_000_000 == 0);
    assert(90_000_000int % 360_000_000 == 90_000_000);
    assert(180_000_000int % 360_000_000 == 180_000_000);
    assert(270_000_000int % 360_000_000 == 270_000_000);
    assert(360_000_000int % 360_000_000 == 0);
}

/// The tabulated sine of `d` degrees.
fn table_sin(d: i64) -> (s: i64)
    ensures
        s == table_sine(d as int),
{
    proof {
        reveal(table_sine);
    }
    if d <= 0 {
        0
    } else if d == 1 {
        17452
    } else if d == 2 {
        34899
    } else if d == 3 {
        52336
    } else if d == 4 {
        69756
    } else if d == 5 {
        87156
    } else if d == 6 {
        104528
    } else if d == 7 {
        121869
    } else if d == 8 {
        139173
    } else if d == 9 {
        156434
    } else if d == 10 {
        173648
    } else if d == 11 {
        190809
    } else if d == 12 {
        207912
    } else if d == 13 {
        224951
    } else if d == 14 {
        241922
    } else if d == 15 {
        258819
    } else if d == 16 {
        275637
    } else if d == 17 {
        292372
    } else if d == 18 {
        309017
    } else if d == 19 {
        325568
    } else if d == 20 {
        342020
    } else if d == 21 {
        358368
    } else if d == 22 {
        374607
    } else if d == 23 {
        390731
    } else if d == 24 {
        406737
    } else if d == 25 {
        422618
    } else if d == 26 {
        438371
    } else if d == 27 {
        453990
    } else if d == 28 {
        469472
    } else if d == 29 {
        484810
    } else if d == 30 {
        500000
    } else if d == 31 {
        515038
    } else if d == 32 {
        529919
    } else if d == 33 {
        544639
    } else if d == 34 {
        559193
    } else if d == 35 {
        573576
    } else if d == 36 {
        587785
    } else if d == 37 {
        601815
    } else if d == 38 {
        615661
    } else if d == 39 {
        629320
    } else if d == 40 {
        642788
    } else if d == 41 {
        656059
    } else if d == 42 {
        669131
    } else if d == 43 {
        681998
    } else if d == 44 {
        694658
    } else if d == 45 {
        707107
    } else if d == 46 {
        719340
    } else if d == 47 {
        731354
    } else if d == 48 {
        743145
    } else if d == 49 {
        754710
    } else if d == 50 {
        766044
    } else if d == 51 {
        777146
    } else if d == 52 {
        788011
    } else if d == 53 {
        798636
    } else if d == 54 {
        809017
    } else if d == 55 {
        819152
    } else if d == 56 {
        829038
    } else if d == 57 {
        838671
    } else if d == 58 {
        848048
    } else if d == 59 {
        857167
    } else if d == 60 {
        866025
    } else if d == 61 {
        874620
    } else if d == 62 {
        882948
    } else if d == 63 {
        891007
    } else if d == 64 {
        898794
    } else if d == 65 {
        906308
    } else if d == 66 {
        913545
    } else if d == 67 {
        920505
    } else if d == 68 {
        927184
    } else if d == 69 {
        933580
    } else if d == 70 {
        939693
    } else if d == 71 {
        945519
    } else if d == 72 {
        951057
    } else if d == 73 {
        956305
    } else if d == 74 {
        961262
    } else if d == 75 {
        965926
    } else if d == 76 {
        970296
    } else if d == 77 {
        974370
    } else if d == 78 {
        978148
    } else if d == 79 {
        981627
    } else if d == 80 {
        984808
    } else if d == 81 {
        987688
    } else if d == 82 {
        990268
    } else if d == 83 {
        992546
    } else if d == 84 {
        994522
    } else if d == 85 {
        996195
    } else if d == 86 {
        997564
    } else if d == 87 {
        998630
    } else if d == 88 {
        999391
    } else if d == 89 {
        999848
    } else {
        1_000_000
    }
}

/// The sine of a first-quadrant angle.
fn quadrant_sin(a: i64) -> (s: i64)
    requires
        0 <= a <= QUARTER_TURN,
    ensures
        s == quadrant_sine(a as int),
{
    let d: i64 = a / DEGREE;
    let f: i64 = a % DEGREE;
    let low: i64 = table_sin(d);
    let high: i64 = table_sin(d + 1);
    proof {
        lemma_table_sine(d as int);
        lemma_table_sine(d + 1);
        assert(0 <= (high - low) * f <= 1_000_000 * 1_000_000) by (nonlinear_arith)
            requires
                0 <= high - low <= 1_000_000,
                0 <= f < 1_000_000,
        ;
    }
    low + (high - low) * f / DEGREE
}

/// The remainder of `a` by a positive `m`, in `[0, m)`.
pub(crate) fn wrap(a: i64, m: i64) -> (r: i64)
    requires
        m > 0,
    ensures
        r == (a as int) % (m as int),
        0 <= r < m,
{
    proof {
        lemma_mod_bound(a as int, m as int);
    }
    match a.checked_rem_euclid(m) {
        Some(r) => r,
        None => 0,
    }
}

/// The angle in `[0, FULL_TURN)` that points the same way as `angle`.
pub fn normalize(angle: i64) -> (r: i64)
    ensures
        r == normal(angle as int),
        0 <= r < FULL_TURN,
{
    wrap(angle, FULL_TURN)
}

/// The sine of `angle`, in millionths.
pub fn sin(angle: i64) -> (s: i64)
    ensures
        s == sine(angle as int),
        -UNIT <= s <= UNIT,
{
    proof {
        lemma_sine_bounds(angle as int);
    }
    let t = wrap(angle, FULL_TURN);
    if t < HALF_TURN {
        if t <= QUARTER_TURN {
            quadrant_sin(t)
        } else {
            quadrant_sin(HALF_TURN - t)
        }
    } else {
        let u = t - HALF_TURN;
        if u <= QUARTER_TURN {
            -quadrant_sin(u)
        } else {
            -quadrant_sin(HALF_TURN - u)
        }
    }
}

/// The cosine of `angle`, in millionths.
pub fn cos(angle: i64) -> (c: i64)
    ensures
        c == cosine(angle as int),
        -UNIT <= c <= UNIT,
{
    let t = wrap(angle, FULL_TURN);
    proof {
        lemma_sine_bounds(angle as int);
        lemma_full_turn(angle as int);
        assert(cosine(t as int) == cosine(angle as int));
    }
    sin(t + QUARTER_TURN)
}

} // verus!
