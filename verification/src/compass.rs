//! Unit vectors of the whole-degree headings.

use vstd::prelude::*;
use crate::numeric::SCALE;
use crate::vec2::Vec2;

verus! {

/// One whole unit in millionths, the precision at which headings are
/// compared.
pub const FINE: i64 = 1_000_000;

/// Cosine of a whole number of degrees in the first quadrant, in
/// millionths, rounded to the nearest. Outside the quadrant it is zero.
#[verifier::opaque]
pub open spec fn quadrant_cosine_spec(degrees: u32) -> int {
    match degrees {
        0 => 1000000,
        1 => 999848,
        2 => 999391,
        3 => 998630,
        4 => 997564,
        5 => 996195,
        6 => 994522,
        7 => 992546,
        8 => 990268,
        9 => 987688,
        10 => 984808,
        11 => 981627,
        12 => 978148,
        13 => 974370,
        14 => 970296,
        15 => 965926,
        16 => 961262,
        17 => 956305,
        18 => 951057,
        19 => 945519,
        20 => 939693,
        21 => 933580,
        22 => 927184,
        23 => 920505,
        24 => 913545,
        25 => 906308,
        26 => 898794,
        27 => 891007,
        28 => 882948,
        29 => 874620,
        30 => 866025,
        31 => 857167,
        32 => 848048,
        33 => 838671,
        34 => 829038,
        35 => 819152,
        36 => 809017,
        37 => 798636,
        38 => 788011,
        39 => 777146,
        40 => 766044,
        41 => 754710,
        42 => 743145,
        43 => 731354,
        44 => 719340,
        45 => 707107,
        46 => 694658,
        47 => 681998,
        48 => 669131,
        49 => 656059,
        50 => 642788,
        51 => 629320,
        52 => 615661,
        53 => 601815,
        54 => 587785,
        55 => 573576,
        56 => 559193,
        57 => 544639,
        58 => 529919,
        59 => 515038,
        60 => 500000,
        61 => 484810,
        62 => 469472,
        63 => 453990,
        64 => 438371,
        65 => 422618,
        66 => 406737,
        67 => 390731,
        68 => 374607,
        69 => 358368,
        70 => 342020,
        71 => 325568,
        72 => 309017,
        73 => 292372,
        74 => 275637,
        75 => 258819,
        76 => 241922,
        77 => 224951,
        78 => 207912,
        79 => 190809,
        80 => 173648,
        81 => 156434,
        82 => 139173,
        83 => 121869,
        84 => 104528,
        85 => 87156,
        86 => 69756,
        87 => 52336,
        88 => 34899,
        89 => 17452,
        _ => 0,
    }
}

/// Cosine of a whole number of degrees below a full turn, in millionths.
pub open spec fn cosine_spec(degrees: int) -> int
    recommends
        0 <= degrees < 360,
{
    if degrees <= 90 {
        quadrant_cosine_spec(degrees as u32)
    } else if degrees <= 180 {
        -quadrant_cosine_spec((180 - degrees) as u32)
    } else if degrees <= 270 {
        -quadrant_cosine_spec((degrees - 180) as u32)
    } else {
        quadrant_cosine_spec((360 - degrees) as u32)
    }
}

/// Sine of a whole number of degrees below a full turn, in millionths.
pub open spec fn sine_spec(degrees: int) -> int
    recommends
        0 <= degrees < 360,
{
    if degrees >= 90 {
        cosine_spec(degrees - 90)
    } else {
        cosine_spec(degrees + 270)
    }
}

/// The unit vector, in millionths, whose heading is a whole number of
/// degrees below a full turn, counter-clockwise from the x axis.
pub open spec fn fine_heading_spec(degrees: int) -> Vec2
    recommends
        0 <= degrees < 360,
{
    Vec2 { x: cosine_spec(degrees) as i64, y: sine_spec(degrees) as i64 }
}

/// A number of millionths in thousandths, rounded to the nearest, halves
/// away from zero.
pub open spec fn coarsened(millionths: int) -> int {
    if millionths >= 0 {
        (millionths + 500) / 1000
    } else {
        -((-millionths + 500) / 1000)
    }
}

/// The unit vector, in thousandths, of a whole-degree heading below a full
/// turn.
pub open spec fn heading_spec(degrees: int) -> Vec2
    recommends
        0 <= degrees < 360,
{
    Vec2 {
        x: coarsened(cosine_spec(degrees)) as i64,
        y: coarsened(sine_spec(degrees)) as i64,
    }
}

/// Cosine of a whole number of degrees in the first quadrant.
pub fn quadrant_cosine(degrees: u32) -> (c: i64)
    ensures
        c == quadrant_cosine_spec(degrees),
        0 <= c <= FINE,
{
    proof {
        reveal(quadrant_cosine_spec);
    }
    match degrees {
        0 => 1000000,
        1 => 999848,
        2 => 999391,
        3 => 998630,
        4 => 997564,
        5 => 996195,
        6 => 994522,
        7 => 992546,
        8 => 990268,
        9 => 987688,
        10 => 984808,
        11 => 981627,
        12 => 978148,
        13 => 974370,
        14 => 970296,
        15 => 965926,
        16 => 961262,
        17 => 956305,
        18 => 951057,
        19 => 945519,
        20 => 939693,
        21 => 933580,
        22 => 927184,
        23 => 920505,
        24 => 913545,
        25 => 906308,
        26 => 898794,
        27 => 891007,
        28 => 882948,
        29 => 874620,
        30 => 866025,
        31 => 857167,
        32 => 848048,
        33 => 838671,
        34 => 829038,
        35 => 819152,
        36 => 809017,
        37 => 798636,
        38 => 788011,
        39 => 777146,
        40 => 766044,
        41 => 754710,
        42 => 743145,
        43 => 731354,
        44 => 719340,
        45 => 707107,
        46 => 694658,
        47 => 681998,
        48 => 669131,
        49 => 656059,
        50 => 642788,
        51 => 629320,
        52 => 615661,
        53 => 601815,
        54 => 587785,
        55 => 573576,
        56 => 559193,
        57 => 544639,
        58 => 529919,
        59 => 515038,
        60 => 500000,
        61 => 484810,
        62 => 469472,
        63 => 453990,
        64 => 438371,
        65 => 422618,
        66 => 406737,
        67 => 390731,
        68 => 374607,
        69 => 358368,
        70 => 342020,
        71 => 325568,
        72 => 309017,
        73 => 292372,
        74 => 275637,
        75 => 258819,
        76 => 241922,
        77 => 224951,
        78 => 207912,
        79 => 190809,
        80 => 173648,
        81 => 156434,
        82 => 139173,
        83 => 121869,
        84 => 104528,
        85 => 87156,
        86 => 69756,
        87 => 52336,
        88 => 34899,
        89 => 17452,
        _ => 0,
    }
}

/// Cosine of a whole number of degrees below a full turn.
pub fn cosine(degrees: u32) -> (c: i64)
    requires
        degrees < 360,
    ensures
        c == cosine_spec(degrees as int),
        -FINE <= c <= FINE,
{
    if degrees <= 90 {
        quadrant_cosine(degrees)
    } else if degrees <= 180 {
        -quadrant_cosine(180 - degrees)
    } else if degrees <= 270 {
        -quadrant_cosine(degrees - 180)
    } else {
        quadrant_cosine(360 - degrees)
    }
}

/// Sine of a whole number of degrees below a full turn.
pub fn sine(degrees: u32) -> (s: i64)
    requires
        degrees < 360,
    ensures
        s == sine_spec(degrees as int),
        -FINE <= s <= FINE,
{
    if degrees >= 90 {
        cosine(degrees - 90)
    } else {
        cosine(degrees + 270)
    }
}

/// The unit vector, in millionths, of a whole-degree heading below a full
/// turn.
pub fn fine_heading(degrees: u32) -> (v: Vec2)
    requires
        degrees < 360,
    ensures
        v == fine_heading_spec(degrees as int),
        v.within(FINE as int),
{
    Vec2 { x: cosine(degrees), y: sine(degrees) }
}

/// A number of millionths in thousandths, rounded to the nearest.
fn coarsen(millionths: i64) -> (c: i64)
    requires
        -FINE <= millionths <= FINE,
    ensures
        c == coarsened(millionths as int),
        -SCALE <= c <= SCALE,
{
    if millionths >= 0 {
        (millionths + 500) / 1000
    } else {
        -((-millionths + 500) / 1000)
    }
}

/// The unit vector, in thousandths, of a whole-degree heading below a full
/// turn.
pub fn heading(degrees: u32) -> (v: Vec2)
    requires
        degrees < 360,
    ensures
        v == heading_spec(degrees as int),
        v.within(SCALE as int),
        v.is_unit_spec(),
{
    proof {
        lemma_heading_is_unit_coarse(degrees as int);
    }
    Vec2 { x: coarsen(cosine(degrees)), y: coarsen(sine(degrees)) }
}

/// Whether two numbers of millionths are the sides of a right triangle
/// whose hypotenuse is one, within the rounding of each to a millionth.
pub open spec fn near_one(c: int, s: int) -> bool {
    999_998_500_000 <= c * c + s * s <= 1_000_001_500_000
}

/// The entries of the table are cosines: that of an angle and that of its
/// complement are the sides of a right triangle with hypotenuse one.
pub proof fn lemma_quadrant_is_unit(degrees: u32)
    requires
        degrees <= 90,
    ensures
        near_one(quadrant_cosine_spec(degrees), quadrant_cosine_spec((90 - degrees) as u32)),
{
    reveal(quadrant_cosine_spec);
    let c = quadrant_cosine_spec(degrees);
    let s = quadrant_cosine_spec((90 - degrees) as u32);
    if degrees == 0 {
        assert(near_one(c, s)) by (nonlinear_arith)
            requires
                c == 1000000,
                s == 0,
        ;
    } else if degrees == 1 {
        assert(near_one(c, s)) by (nonlinear_arith)
            requires
                c == 999848,
                s == 17452,
        ;
    } else if degrees == 2 {
        assert(near_one(c, s)) by (nonlinear_arith)
            requires
                c == 999391,
                s == 34899,
        ;
    } else if degrees == 3 {
        assert(near_one(c, s)) by (nonlinear_arith)
            requires
                c == 998630,
                s == 52336,
        ;
    } else if degrees == 4 {
        assert(near_one(c, s)) by (nonlinear_arith)
            requires
                c == 997564,
                s == 69756,
        ;
    } else if degrees == 5 {
        assert(near_one(c, s)) by (nonlinear_arith)
            requires
                c == 996195,
                s == 87156,
        ;
    } else if degrees == 6 {
        assert(near_one(c, s)) by (nonlinear_arith)
            requires
                c == 994522,
                s == 104528,
        ;
    } else if degrees == 7 {
        assert(near_one(c, s)) by (nonlinear_arith)
            requires
                c == 992546,
                s == 121869,
        ;
    } else if degrees == 8 {
        assert(near_one(c, s)) by (nonlinear_arith)
            requires
                c == 990268,
                s == 139173,
        ;
    } else if degrees == 9 {
        assert(near_one(c, s)) by (nonlinear_arith)
            requires
                c == 987688,
                s == 156434,
        ;
    } else if degrees == 10 {
        assert(near_one(c, s)) by (nonlinear_arith)
            requires
                c == 984808,
                s == 173648,
        ;
    } else if degrees == 11 {
        assert(near_one(c, s)) by (nonlinear_arith)
            requires
                c == 981627,
                s == 190809,
        ;
    } else if degrees == 12 {
        assert(near_one(c, s)) by (nonlinear_arith)
            requires
                c == 978148,
                s == 207912,
        ;
    } else if degrees == 13 {
        assert(near_one(c, s)) by (nonlinear_arith)
            requires
                c == 974370,
                s == 224951,
        ;
    } else if degrees == 14 {
        assert(near_one(c, s)) by (nonlinear_arith)
            requires
                c == 970296,
                s == 241922,
        ;
    } else if degrees == 15 {
        assert(near_one(c, s)) by (nonlinear_arith)
            requires
                c == 965926,
                s == 258819,
        ;
    } else if degrees == 16 {
        assert(near_one(c, s)) by (nonlinear_arith)
            requires
                c == 961262,
                s == 275637,
        ;
    } else if degrees == 17 {
        assert(near_one(c, s)) by (nonlinear_arith)
            requires
                c == 956305,
                s == 292372,
        ;
    } else if degrees == 18 {
        assert(near_one(c, s)) by (nonlinear_arith)
            requires
                c == 951057,
                s == 309017,
        ;
    } else if degrees == 19 {
        assert(near_one(c, s)) by (nonlinear_arith)
            requires
                c == 945519,
                s == 325568,
        ;
    } else if degrees == 20 {
        assert(near_one(c, s)) by (nonlinear_arith)
            requires
                c == 939693,
                s == 342020,
        ;
    } else if degrees == 21 {
        assert(near_one(c, s)) by (nonlinear_arith)
            requires
                c == 933580,
                s == 358368,
        ;
    } else if degrees == 22 {
        assert(near_one(c, s)) by (nonlinear_arith)
            requires
                c == 927184,
                s == 374607,
        ;
    } else if degrees == 23 {
        assert(near_one(c, s)) by (nonlinear_arith)
            requires
                c == 920505,
                s == 390731,
        ;
    } else if degrees == 24 {
        assert(near_one(c, s)) by (nonlinear_arith)
            requires
                c == 913545,
                s == 406737,
        ;
    } else if degrees == 25 {
        assert(near_one(c, s)) by (nonlinear_arith)
            requires
                c == 906308,
                s == 422618,
        ;
    } else if degrees == 26 {
        assert(near_one(c, s)) by (nonlinear_arith)
            requires
                c == 898794,
                s == 438371,
        ;
    } else if degrees == 27 {
        assert(near_one(c, s)) by (nonlinear_arith)
            requires
                c == 891007,
                s == 453990,
        ;
    } else if degrees == 28 {
        assert(near_one(c, s)) by (nonlinear_arith)
            requires
                c == 882948,
                s == 469472,
        ;
    } else if degrees == 29 {
        assert(near_one(c, s)) by (nonlinear_arith)
            requires
                c == 874620,
                s == 484810,
        ;
    } else if degrees == 30 {
        assert(near_one(c, s)) by (nonlinear_arith)
            requires
                c == 866025,
                s == 500000,
        ;
    } else if degrees == 31 {
        assert(near_one(c, s)) by (nonlinear_arith)
            requires
                c == 857167,
                s == 515038,
        ;
    } else if degrees == 32 {
        assert(near_one(c, s)) by (nonlinear_arith)
            requires
                c == 848048,
                s == 529919,
        ;
    } else if degrees == 33 {
        assert(near_one(c, s)) by (nonlinear_arith)
            requires
                c == 838671,
                s == 544639,
        ;
    } else if degrees == 34 {
        assert(near_one(c, s)) by (nonlinear_arith)
            requires
                c == 829038,
                s == 559193,
        ;
    } else if degrees == 35 {
        assert(near_one(c, s)) by (nonlinear_arith)
            requires
                c == 819152,
                s == 573576,
        ;
    } else if degrees == 36 {
        assert(near_one(c, s)) by (nonlinear_arith)
            requires
                c == 809017,
                s == 587785,
        ;
    } else if degrees == 37 {
        assert(near_one(c, s)) by (nonlinear_arith)
            requires
                c == 798636,
                s == 601815,
        ;
    } else if degrees == 38 {
        assert(near_one(c, s)) by (nonlinear_arith)
            requires
                c == 788011,
                s == 615661,
        ;
    } else if degrees == 39 {
        assert(near_one(c, s)) by (nonlinear_arith)
            requires
                c == 777146,
                s == 629320,
        ;
    } else if degrees == 40 {
        assert(near_one(c, s)) by (nonlinear_arith)
            requires
                c == 766044,
                s == 642788,
        ;
    } else if degrees == 41 {
        assert(near_one(c, s)) by (nonlinear_arith)
            requires
                c == 754710,
                s == 656059,
        ;
    } else if degrees == 42 {
        assert(near_one(c, s)) by (nonlinear_arith)
            requires
                c == 743145,
                s == 669131,
        ;
    } else if degrees == 43 {
        assert(near_one(c, s)) by (nonlinear_arith)
            requires
                c == 731354,
                s == 681998,
        ;
    } else if degrees == 44 {
        assert(near_one(c, s)) by (nonlinear_arith)
            requires
                c == 719340,
                s == 694658,
        ;
    } else if degrees == 45 {
        assert(near_one(c, s)) by (nonlinear_arith)
            requires
                c == 707107,
                s == 707107,
        ;
    } else if degrees == 46 {
        assert(near_one(c, s)) by (nonlinear_arith)
            requires
                c == 694658,
                s == 719340,
        ;
    } else if degrees == 47 {
        assert(near_one(c, s)) by (nonlinear_arith)
            requires
                c == 681998,
                s == 731354,
        ;
    } else if degrees == 48 {
        assert(near_one(c, s)) by (nonlinear_arith)
            requires
                c == 669131,
                s == 743145,
        ;
    } else if degrees == 49 {
        assert(near_one(c, s)) by (nonlinear_arith)
            requires
                c == 656059,
                s == 754710,
        ;
    } else if degrees == 50 {
        assert(near_one(c, s)) by (nonlinear_arith)
            requires
                c == 642788,
                s == 766044,
        ;
    } else if degrees == 51 {
        assert(near_one(c, s)) by (nonlinear_arith)
            requires
                c == 629320,
                s == 777146,
        ;
    } else if degrees == 52 {
        assert(near_one(c, s)) by (nonlinear_arith)
            requires
                c == 615661,
                s == 788011,
        ;
    } else if degrees == 53 {
        assert(near_one(c, s)) by (nonlinear_arith)
            requires
                c == 601815,
                s == 798636,
        ;
    } else if degrees == 54 {
        assert(near_one(c, s)) by (nonlinear_arith)
            requires
                c == 587785,
                s == 809017,
        ;
    } else if degrees == 55 {
        assert(near_one(c, s)) by (nonlinear_arith)
            requires
                c == 573576,
                s == 819152,
        ;
    } else if degrees == 56 {
        assert(near_one(c, s)) by (nonlinear_arith)
            requires
                c == 559193,
                s == 829038,
        ;
    } else if degrees == 57 {
        assert(near_one(c, s)) by (nonlinear_arith)
            requires
                c == 544639,
                s == 838671,
        ;
    } else if degrees == 58 {
        assert(near_one(c, s)) by (nonlinear_arith)
            requires
                c == 529919,
                s == 848048,
        ;
    } else if degrees == 59 {
        assert(near_one(c, s)) by (nonlinear_arith)
            requires
                c == 515038,
                s == 857167,
        ;
    } else if degrees == 60 {
        assert(near_one(c, s)) by (nonlinear_arith)
            requires
                c == 500000,
                s == 866025,
        ;
    } else if degrees == 61 {
        assert(near_one(c, s)) by (nonlinear_arith)
            requires
                c == 484810,
                s == 874620,
        ;
    } else if degrees == 62 {
        assert(near_one(c, s)) by (nonlinear_arith)
            requires
                c == 469472,
                s == 882948,
        ;
    } else if degrees == 63 {
        assert(near_one(c, s)) by (nonlinear_arith)
            requires
                c == 453990,
                s == 891007,
        ;
    } else if degrees == 64 {
        assert(near_one(c, s)) by (nonlinear_arith)
            requires
                c == 438371,
                s == 898794,
        ;
    } else if degrees == 65 {
        assert(near_one(c, s)) by (nonlinear_arith)
            requires
                c == 422618,
                s == 906308,
        ;
    } else if degrees == 66 {
        assert(near_one(c, s)) by (nonlinear_arith)
            requires
                c == 406737,
                s == 913545,
        ;
    } else if degrees == 67 {
        assert(near_one(c, s)) by (nonlinear_arith)
            requires
                c == 390731,
                s == 920505,
        ;
    } else if degrees == 68 {
        assert(near_one(c, s)) by (nonlinear_arith)
            requires
                c == 374607,
                s == 927184,
        ;
    } else if degrees == 69 {
        assert(near_one(c, s)) by (nonlinear_arith)
            requires
                c == 358368,
                s == 933580,
        ;
    } else if degrees == 70 {
        assert(near_one(c, s)) by (nonlinear_arith)
            requires
                c == 342020,
                s == 939693,
        ;
    } else if degrees == 71 {
        assert(near_one(c, s)) by (nonlinear_arith)
            requires
                c == 325568,
                s == 945519,
        ;
    } else if degrees == 72 {
        assert(near_one(c, s)) by (nonlinear_arith)
            requires
                c == 309017,
                s == 951057,
        ;
    } else if degrees == 73 {
        assert(near_one(c, s)) by (nonlinear_arith)
            requires
                c == 292372,
                s == 956305,
        ;
    } else if degrees == 74 {
        assert(near_one(c, s)) by (nonlinear_arith)
            requires
                c == 275637,
                s == 961262,
        ;
    } else if degrees == 75 {
        assert(near_one(c, s)) by (nonlinear_arith)
            requires
                c == 258819,
                s == 965926,
        ;
    } else if degrees == 76 {
        assert(near_one(c, s)) by (nonlinear_arith)
            requires
                c == 241922,
                s == 970296,
        ;
    } else if degrees == 77 {
        assert(near_one(c, s)) by (nonlinear_arith)
            requires
                c == 224951,
                s == 974370,
        ;
    } else if degrees == 78 {
        assert(near_one(c, s)) by (nonlinear_arith)
            requires
                c == 207912,
                s == 978148,
        ;
    } else if degrees == 79 {
        assert(near_one(c, s)) by (nonlinear_arith)
            requires
                c == 190809,
                s == 981627,
        ;
    } else if degrees == 80 {
        assert(near_one(c, s)) by (nonlinear_arith)
            requires
                c == 173648,
                s == 984808,
        ;
    } else if degrees == 81 {
        assert(near_one(c, s)) by (nonlinear_arith)
            requires
                c == 156434,
                s == 987688,
        ;
    } else if degrees == 82 {
        assert(near_one(c, s)) by (nonlinear_arith)
            requires
                c == 139173,
                s == 990268,
        ;
    } else if degrees == 83 {
        assert(near_one(c, s)) by (nonlinear_arith)
            requires
                c == 121869,
                s == 992546,
        ;
    } else if degrees == 84 {
        assert(near_one(c, s)) by (nonlinear_arith)
            requires
                c == 104528,
                s == 994522,
        ;
    } else if degrees == 85 {
        assert(near_one(c, s)) by (nonlinear_arith)
            requires
                c == 87156,
                s == 996195,
        ;
    } else if degrees == 86 {
        assert(near_one(c, s)) by (nonlinear_arith)
            requires
                c == 69756,
                s == 997564,
        ;
    } else if degrees == 87 {
        assert(near_one(c, s)) by (nonlinear_arith)
            requires
                c == 52336,
                s == 998630,
        ;
    } else if degrees == 88 {
        assert(near_one(c, s)) by (nonlinear_arith)
            requires
                c == 34899,
                s == 999391,
        ;
    } else if degrees == 89 {
        assert(near_one(c, s)) by (nonlinear_arith)
            requires
                c == 17452,
                s == 999848,
        ;
    } else if degrees == 90 {
        assert(near_one(c, s)) by (nonlinear_arith)
            requires
                c == 0,
                s == 1000000,
        ;
    }
}

/// The cosine and the sine of every whole degree are the sides of a right
/// triangle with hypotenuse one.
pub proof fn lemma_heading_is_unit(degrees: int)
    requires
        0 <= degrees < 360,
    ensures
        near_one(cosine_spec(degrees), sine_spec(degrees)),
{
    let c = cosine_spec(degrees);
    let s = sine_spec(degrees);
    let (turned, other): (u32, u32) = if degrees <= 90 {
        (degrees as u32, (90 - degrees) as u32)
    } else if degrees <= 180 {
        ((180 - degrees) as u32, (degrees - 90) as u32)
    } else if degrees <= 270 {
        ((degrees - 180) as u32, (270 - degrees) as u32)
    } else {
        ((360 - degrees) as u32, (degrees - 270) as u32)
    };
    lemma_quadrant_is_unit(turned);
    let qc = quadrant_cosine_spec(turned);
    let qs = quadrant_cosine_spec(other);
    assert(c == qc || c == -qc);
    assert(s == qs || s == -qs) by {
        reveal(quadrant_cosine_spec);
    }
    assert(c * c == qc * qc && s * s == qs * qs) by (nonlinear_arith)
        requires
            c == qc || c == -qc,
            s == qs || s == -qs,
    ;
}

/// Rounded to thousandths, the cosine of an angle of the first quadrant
/// and that of its complement are still the components of a unit vector.
pub proof fn lemma_quadrant_is_unit_coarse(degrees: u32)
    requires
        degrees <= 90,
    ensures
        (Vec2 {
            x: coarsened(quadrant_cosine_spec(degrees)) as i64,
            y: coarsened(quadrant_cosine_spec((90 - degrees) as u32)) as i64,
        }).is_unit_spec(),
{
    reveal(quadrant_cosine_spec);
    let c = coarsened(quadrant_cosine_spec(degrees));
    let s = coarsened(quadrant_cosine_spec((90 - degrees) as u32));
    if degrees == 0 {
        assert(c == 1000 && s == 0);
        assert(998_000 <= c * c + s * s <= 1_002_000) by (nonlinear_arith)
            requires
                c == 1000,
                s == 0,
        ;
    } else if degrees == 1 {
        assert(c == 1000 && s == 17);
        assert(998_000 <= c * c + s * s <= 1_002_000) by (nonlinear_arith)
            requires
                c == 1000,
                s == 17,
        ;
    } else if degrees == 2 {
        assert(c == 999 && s == 35);
        assert(998_000 <= c * c + s * s <= 1_002_000) by (nonlinear_arith)
            requires
                c == 999,
                s == 35,
        ;
    } else if degrees == 3 {
        assert(c == 999 && s == 52);
        assert(998_000 <= c * c + s * s <= 1_002_000) by (nonlinear_arith)
            requires
                c == 999,
                s == 52,
        ;
    } else if degrees == 4 {
        assert(c == 998 && s == 70);
        assert(998_000 <= c * c + s * s <= 1_002_000) by (nonlinear_arith)
            requires
                c == 998,
                s == 70,
        ;
    } else if degrees == 5 {
        assert(c == 996 && s == 87);
        assert(998_000 <= c * c + s * s <= 1_002_000) by (nonlinear_arith)
            requires
                c == 996,
                s == 87,
        ;
    } else if degrees == 6 {
        assert(c == 995 && s == 105);
        assert(998_000 <= c * c + s * s <= 1_002_000) by (nonlinear_arith)
            requires
                c == 995,
                s == 105,
        ;
    } else if degrees == 7 {
        assert(c == 993 && s == 122);
        assert(998_000 <= c * c + s * s <= 1_002_000) by (nonlinear_arith)
            requires
                c == 993,
                s == 122,
        ;
    } else if degrees == 8 {
        assert(c == 990 && s == 139);
        assert(998_000 <= c * c + s * s <= 1_002_000) by (nonlinear_arith)
            requires
                c == 990,
                s == 139,
        ;
    } else if degrees == 9 {
        assert(c == 988 && s == 156);
        assert(998_000 <= c * c + s * s <= 1_002_000) by (nonlinear_arith)
            requires
                c == 988,
                s == 156,
        ;
    } else if degrees == 10 {
        assert(c == 985 && s == 174);
        assert(998_000 <= c * c + s * s <= 1_002_000) by (nonlinear_arith)
            requires
                c == 985,
                s == 174,
        ;
    } else if degrees == 11 {
        assert(c == 982 && s == 191);
        assert(998_000 <= c * c + s * s <= 1_002_000) by (nonlinear_arith)
            requires
                c == 982,
                s == 191,
        ;
    } else if degrees == 12 {
        assert(c == 978 && s == 208);
        assert(998_000 <= c * c + s * s <= 1_002_000) by (nonlinear_arith)
            requires
                c == 978,
                s == 208,
        ;
    } else if degrees == 13 {
        assert(c == 974 && s == 225);
        assert(998_000 <= c * c + s * s <= 1_002_000) by (nonlinear_arith)
            requires
                c == 974,
                s == 225,
        ;
    } else if degrees == 14 {
        assert(c == 970 && s == 242);
        assert(998_000 <= c * c + s * s <= 1_002_000) by (nonlinear_arith)
            requires
                c == 970,
                s == 242,
        ;
    } else if degrees == 15 {
        assert(c == 966 && s == 259);
        assert(998_000 <= c * c + s * s <= 1_002_000) by (nonlinear_arith)
            requires
                c == 966,
                s == 259,
        ;
    } else if degrees == 16 {
        assert(c == 961 && s == 276);
        assert(998_000 <= c * c + s * s <= 1_002_000) by (nonlinear_arith)
            requires
                c == 961,
                s == 276,
        ;
    } else if degrees == 17 {
        assert(c == 956 && s == 292);
        assert(998_000 <= c * c + s * s <= 1_002_000) by (nonlinear_arith)
            requires
                c == 956,
                s == 292,
        ;
    } else if degrees == 18 {
        assert(c == 951 && s == 309);
        assert(998_000 <= c * c + s * s <= 1_002_000) by (nonlinear_arith)
            requires
                c == 951,
                s == 309,
        ;
    } else if degrees == 19 {
        assert(c == 946 && s == 326);
        assert(998_000 <= c * c + s * s <= 1_002_000) by (nonlinear_arith)
            requires
                c == 946,
                s == 326,
        ;
    } else if degrees == 20 {
        assert(c == 940 && s == 342);
        assert(998_000 <= c * c + s * s <= 1_002_000) by (nonlinear_arith)
            requires
                c == 940,
                s == 342,
        ;
    } else if degrees == 21 {
        assert(c == 934 && s == 358);
        assert(998_000 <= c * c + s * s <= 1_002_000) by (nonlinear_arith)
            requires
                c == 934,
                s == 358,
        ;
    } else if degrees == 22 {
        assert(c == 927 && s == 375);
        assert(998_000 <= c * c + s * s <= 1_002_000) by (nonlinear_arith)
            requires
                c == 927,
                s == 375,
        ;
    } else if degrees == 23 {
        assert(c == 921 && s == 391);
        assert(998_000 <= c * c + s * s <= 1_002_000) by (nonlinear_arith)
            requires
                c == 921,
                s == 391,
        ;
    } else if degrees == 24 {
        assert(c == 914 && s == 407);
        assert(998_000 <= c * c + s * s <= 1_002_000) by (nonlinear_arith)
            requires
                c == 914,
                s == 407,
        ;
    } else if degrees == 25 {
        assert(c == 906 && s == 423);
        assert(998_000 <= c * c + s * s <= 1_002_000) by (nonlinear_arith)
            requires
                c == 906,
                s == 423,
        ;
    } else if degrees == 26 {
        assert(c == 899 && s == 438);
        assert(998_000 <= c * c + s * s <= 1_002_000) by (nonlinear_arith)
            requires
                c == 899,
                s == 438,
        ;
    } else if degrees == 27 {
        assert(c == 891 && s == 454);
        assert(998_000 <= c * c + s * s <= 1_002_000) by (nonlinear_arith)
            requires
                c == 891,
                s == 454,
        ;
    } else if degrees == 28 {
        assert(c == 883 && s == 469);
        assert(998_000 <= c * c + s * s <= 1_002_000) by (nonlinear_arith)
            requires
                c == 883,
                s == 469,
        ;
    } else if degrees == 29 {
        assert(c == 875 && s == 485);
        assert(998_000 <= c * c + s * s <= 1_002_000) by (nonlinear_arith)
            requires
                c == 875,
                s == 485,
        ;
    } else if degrees == 30 {
        assert(c == 866 && s == 500);
        assert(998_000 <= c * c + s * s <= 1_002_000) by (nonlinear_arith)
            requires
                c == 866,
                s == 500,
        ;
    } else if degrees == 31 {
        assert(c == 857 && s == 515);
        assert(998_000 <= c * c + s * s <= 1_002_000) by (nonlinear_arith)
            requires
                c == 857,
                s == 515,
        ;
    } else if degrees == 32 {
        assert(c == 848 && s == 530);
        assert(998_000 <= c * c + s * s <= 1_002_000) by (nonlinear_arith)
            requires
                c == 848,
                s == 530,
        ;
    } else if degrees == 33 {
        assert(c == 839 && s == 545);
        assert(998_000 <= c * c + s * s <= 1_002_000) by (nonlinear_arith)
            requires
                c == 839,
                s == 545,
        ;
    } else if degrees == 34 {
        assert(c == 829 && s == 559);
        assert(998_000 <= c * c + s * s <= 1_002_000) by (nonlinear_arith)
            requires
                c == 829,
                s == 559,
        ;
    } else if degrees == 35 {
        assert(c == 819 && s == 574);
        assert(998_000 <= c * c + s * s <= 1_002_000) by (nonlinear_arith)
            requires
                c == 819,
                s == 574,
        ;
    } else if degrees == 36 {
        assert(c == 809 && s == 588);
        assert(998_000 <= c * c + s * s <= 1_002_000) by (nonlinear_arith)
            requires
                c == 809,
                s == 588,
        ;
    } else if degrees == 37 {
        assert(c == 799 && s == 602);
        assert(998_000 <= c * c + s * s <= 1_002_000) by (nonlinear_arith)
            requires
                c == 799,
                s == 602,
        ;
    } else if degrees == 38 {
        assert(c == 788 && s == 616);
        assert(998_000 <= c * c + s * s <= 1_002_000) by (nonlinear_arith)
            requires
                c == 788,
                s == 616,
        ;
    } else if degrees == 39 {
        assert(c == 777 && s == 629);
        assert(998_000 <= c * c + s * s <= 1_002_000) by (nonlinear_arith)
            requires
                c == 777,
                s == 629,
        ;
    } else if degrees == 40 {
        assert(c == 766 && s == 643);
        assert(998_000 <= c * c + s * s <= 1_002_000) by (nonlinear_arith)
            requires
                c == 766,
                s == 643,
        ;
    } else if degrees == 41 {
        assert(c == 755 && s == 656);
        assert(998_000 <= c * c + s * s <= 1_002_000) by (nonlinear_arith)
            requires
                c == 755,
                s == 656,
        ;
    } else if degrees == 42 {
        assert(c == 743 && s == 669);
        assert(998_000 <= c * c + s * s <= 1_002_000) by (nonlinear_arith)
            requires
                c == 743,
                s == 669,
        ;
    } else if degrees == 43 {
        assert(c == 731 && s == 682);
        assert(998_000 <= c * c + s * s <= 1_002_000) by (nonlinear_arith)
            requires
                c == 731,
                s == 682,
        ;
    } else if degrees == 44 {
        assert(c == 719 && s == 695);
        assert(998_000 <= c * c + s * s <= 1_002_000) by (nonlinear_arith)
            requires
                c == 719,
                s == 695,
        ;
    } else if degrees == 45 {
        assert(c == 707 && s == 707);
        assert(998_000 <= c * c + s * s <= 1_002_000) by (nonlinear_arith)
            requires
                c == 707,
                s == 707,
        ;
    } else if degrees == 46 {
        assert(c == 695 && s == 719);
        assert(998_000 <= c * c + s * s <= 1_002_000) by (nonlinear_arith)
            requires
                c == 695,
                s == 719,
        ;
    } else if degrees == 47 {
        assert(c == 682 && s == 731);
        assert(998_000 <= c * c + s * s <= 1_002_000) by (nonlinear_arith)
            requires
                c == 682,
                s == 731,
        ;
    } else if degrees == 48 {
        assert(c == 669 && s == 743);
        assert(998_000 <= c * c + s * s <= 1_002_000) by (nonlinear_arith)
            requires
                c == 669,
                s == 743,
        ;
    } else if degrees == 49 {
        assert(c == 656 && s == 755);
        assert(998_000 <= c * c + s * s <= 1_002_000) by (nonlinear_arith)
            requires
                c == 656,
                s == 755,
        ;
    } else if degrees == 50 {
        assert(c == 643 && s == 766);
        assert(998_000 <= c * c + s * s <= 1_002_000) by (nonlinear_arith)
            requires
                c == 643,
                s == 766,
        ;
    } else if degrees == 51 {
        assert(c == 629 && s == 777);
        assert(998_000 <= c * c + s * s <= 1_002_000) by (nonlinear_arith)
            requires
                c == 629,
                s == 777,
        ;
    } else if degrees == 52 {
        assert(c == 616 && s == 788);
        assert(998_000 <= c * c + s * s <= 1_002_000) by (nonlinear_arith)
            requires
                c == 616,
                s == 788,
        ;
    } else if degrees == 53 {
        assert(c == 602 && s == 799);
        assert(998_000 <= c * c + s * s <= 1_002_000) by (nonlinear_arith)
            requires
                c == 602,
                s == 799,
        ;
    } else if degrees == 54 {
        assert(c == 588 && s == 809);
        assert(998_000 <= c * c + s * s <= 1_002_000) by (nonlinear_arith)
            requires
                c == 588,
                s == 809,
        ;
    } else if degrees == 55 {
        assert(c == 574 && s == 819);
        assert(998_000 <= c * c + s * s <= 1_002_000) by (nonlinear_arith)
            requires
                c == 574,
                s == 819,
        ;
    } else if degrees == 56 {
        assert(c == 559 && s == 829);
        assert(998_000 <= c * c + s * s <= 1_002_000) by (nonlinear_arith)
            requires
                c == 559,
                s == 829,
        ;
    } else if degrees == 57 {
        assert(c == 545 && s == 839);
        assert(998_000 <= c * c + s * s <= 1_002_000) by (nonlinear_arith)
            requires
                c == 545,
                s == 839,
        ;
    } else if degrees == 58 {
        assert(c == 530 && s == 848);
        assert(998_000 <= c * c + s * s <= 1_002_000) by (nonlinear_arith)
            requires
                c == 530,
                s == 848,
        ;
    } else if degrees == 59 {
        assert(c == 515 && s == 857);
        assert(998_000 <= c * c + s * s <= 1_002_000) by (nonlinear_arith)
            requires
                c == 515,
                s == 857,
        ;
    } else if degrees == 60 {
        assert(c == 500 && s == 866);
        assert(998_000 <= c * c + s * s <= 1_002_000) by (nonlinear_arith)
            requires
                c == 500,
                s == 866,
        ;
    } else if degrees == 61 {
        assert(c == 485 && s == 875);
        assert(998_000 <= c * c + s * s <= 1_002_000) by (nonlinear_arith)
            requires
                c == 485,
                s == 875,
        ;
    } else if degrees == 62 {
        assert(c == 469 && s == 883);
        assert(998_000 <= c * c + s * s <= 1_002_000) by (nonlinear_arith)
            requires
                c == 469,
                s == 883,
        ;
    } else if degrees == 63 {
        assert(c == 454 && s == 891);
        assert(998_000 <= c * c + s * s <= 1_002_000) by (nonlinear_arith)
            requires
                c == 454,
                s == 891,
        ;
    } else if degrees == 64 {
        assert(c == 438 && s == 899);
        assert(998_000 <= c * c + s * s <= 1_002_000) by (nonlinear_arith)
            requires
                c == 438,
                s == 899,
        ;
    } else if degrees == 65 {
        assert(c == 423 && s == 906);
        assert(998_000 <= c * c + s * s <= 1_002_000) by (nonlinear_arith)
            requires
                c == 423,
                s == 906,
        ;
    } else if degrees == 66 {
        assert(c == 407 && s == 914);
        assert(998_000 <= c * c + s * s <= 1_002_000) by (nonlinear_arith)
            requires
                c == 407,
                s == 914,
        ;
    } else if degrees == 67 {
        assert(c == 391 && s == 921);
        assert(998_000 <= c * c + s * s <= 1_002_000) by (nonlinear_arith)
            requires
                c == 391,
                s == 921,
        ;
    } else if degrees == 68 {
        assert(c == 375 && s == 927);
        assert(998_000 <= c * c + s * s <= 1_002_000) by (nonlinear_arith)
            requires
                c == 375,
                s == 927,
        ;
    } else if degrees == 69 {
        assert(c == 358 && s == 934);
        assert(998_000 <= c * c + s * s <= 1_002_000) by (nonlinear_arith)
            requires
                c == 358,
                s == 934,
        ;
    } else if degrees == 70 {
        assert(c == 342 && s == 940);
        assert(998_000 <= c * c + s * s <= 1_002_000) by (nonlinear_arith)
            requires
                c == 342,
                s == 940,
        ;
    } else if degrees == 71 {
        assert(c == 326 && s == 946);
        assert(998_000 <= c * c + s * s <= 1_002_000) by (nonlinear_arith)
            requires
                c == 326,
                s == 946,
        ;
    } else if degrees == 72 {
        assert(c == 309 && s == 951);
        assert(998_000 <= c * c + s * s <= 1_002_000) by (nonlinear_arith)
            requires
                c == 309,
                s == 951,
        ;
    } else if degrees == 73 {
        assert(c == 292 && s == 956);
        assert(998_000 <= c * c + s * s <= 1_002_000) by (nonlinear_arith)
            requires
                c == 292,
                s == 956,
        ;
    } else if degrees == 74 {
        assert(c == 276 && s == 961);
        assert(998_000 <= c * c + s * s <= 1_002_000) by (nonlinear_arith)
            requires
                c == 276,
                s == 961,
        ;
    } else if degrees == 75 {
        assert(c == 259 && s == 966);
        assert(998_000 <= c * c + s * s <= 1_002_000) by (nonlinear_arith)
            requires
                c == 259,
                s == 966,
        ;
    } else if degrees == 76 {
        assert(c == 242 && s == 970);
        assert(998_000 <= c * c + s * s <= 1_002_000) by (nonlinear_arith)
            requires
                c == 242,
                s == 970,
        ;
    } else if degrees == 77 {
        assert(c == 225 && s == 974);
        assert(998_000 <= c * c + s * s <= 1_002_000) by (nonlinear_arith)
            requires
                c == 225,
                s == 974,
        ;
    } else if degrees == 78 {
        assert(c == 208 && s == 978);
        assert(998_000 <= c * c + s * s <= 1_002_000) by (nonlinear_arith)
            requires
                c == 208,
                s == 978,
        ;
    } else if degrees == 79 {
        assert(c == 191 && s == 982);
        assert(998_000 <= c * c + s * s <= 1_002_000) by (nonlinear_arith)
            requires
                c == 191,
                s == 982,
        ;
    } else if degrees == 80 {
        assert(c == 174 && s == 985);
        assert(998_000 <= c * c + s * s <= 1_002_000) by (nonlinear_arith)
            requires
                c == 174,
                s == 985,
        ;
    } else if degrees == 81 {
        assert(c == 156 && s == 988);
        assert(998_000 <= c * c + s * s <= 1_002_000) by (nonlinear_arith)
            requires
                c == 156,
                s == 988,
        ;
    } else if degrees == 82 {
        assert(c == 139 && s == 990);
        assert(998_000 <= c * c + s * s <= 1_002_000) by (nonlinear_arith)
            requires
                c == 139,
                s == 990,
        ;
    } else if degrees == 83 {
        assert(c == 122 && s == 993);
        assert(998_000 <= c * c + s * s <= 1_002_000) by (nonlinear_arith)
            requires
                c == 122,
                s == 993,
        ;
    } else if degrees == 84 {
        assert(c == 105 && s == 995);
        assert(998_000 <= c * c + s * s <= 1_002_000) by (nonlinear_arith)
            requires
                c == 105,
                s == 995,
        ;
    } else if degrees == 85 {
        assert(c == 87 && s == 996);
        assert(998_000 <= c * c + s * s <= 1_002_000) by (nonlinear_arith)
            requires
                c == 87,
                s == 996,
        ;
    } else if degrees == 86 {
        assert(c == 70 && s == 998);
        assert(998_000 <= c * c + s * s <= 1_002_000) by (nonlinear_arith)
            requires
                c == 70,
                s == 998,
        ;
    } else if degrees == 87 {
        assert(c == 52 && s == 999);
        assert(998_000 <= c * c + s * s <= 1_002_000) by (nonlinear_arith)
            requires
                c == 52,
                s == 999,
        ;
    } else if degrees == 88 {
        assert(c == 35 && s == 999);
        assert(998_000 <= c * c + s * s <= 1_002_000) by (nonlinear_arith)
            requires
                c == 35,
                s == 999,
        ;
    } else if degrees == 89 {
        assert(c == 17 && s == 1000);
        assert(998_000 <= c * c + s * s <= 1_002_000) by (nonlinear_arith)
            requires
                c == 17,
                s == 1000,
        ;
    } else if degrees == 90 {
        assert(c == 0 && s == 1000);
        assert(998_000 <= c * c + s * s <= 1_002_000) by (nonlinear_arith)
            requires
                c == 0,
                s == 1000,
        ;
    }
}

/// The heading of every whole degree is a unit vector.
pub proof fn lemma_heading_is_unit_coarse(degrees: int)
    requires
        0 <= degrees < 360,
    ensures
        heading_spec(degrees).is_unit_spec(),
{
    let c = coarsened(cosine_spec(degrees));
    let s = coarsened(sine_spec(degrees));
    let (turned, other): (u32, u32) = if degrees <= 90 {
        (degrees as u32, (90 - degrees) as u32)
    } else if degrees <= 180 {
        ((180 - degrees) as u32, (degrees - 90) as u32)
    } else if degrees <= 270 {
        ((degrees - 180) as u32, (270 - degrees) as u32)
    } else {
        ((360 - degrees) as u32, (degrees - 270) as u32)
    };
    lemma_quadrant_is_unit_coarse(turned);
    let qc = coarsened(quadrant_cosine_spec(turned));
    let qs = coarsened(quadrant_cosine_spec(other));
    assert(0 <= qc <= 1000 && 0 <= qs <= 1000) by {
        reveal(quadrant_cosine_spec);
    }
    assert(c == qc || c == -qc) by {
        reveal(quadrant_cosine_spec);
    }
    assert(s == qs || s == -qs) by {
        reveal(quadrant_cosine_spec);
    }
    assert(c * c == qc * qc && s * s == qs * qs) by (nonlinear_arith)
        requires
            c == qc || c == -qc,
            s == qs || s == -qs,
    ;
}

} // verus!
