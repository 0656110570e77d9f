use vstd::prelude::*;

verus! {

/// Fixed-point trigonometry on whole degrees.  Values are scaled by
/// `TRIG_ONE`: `sin_q16(30) == TRIG_ONE / 2` up to rounding.
pub const TRIG_ONE: i64 = 65536;

/// The sine of `d` degrees, scaled by `TRIG_ONE`, for `0 <= d <= 90`.
pub open spec fn spec_sin_table(d: int) -> int {
    if d == 0 {
        0
    } else if d == 1 {
        1144
    } else if d == 2 {
        2287
    } else if d == 3 {
        3430
    } else if d == 4 {
        4572
    } else if d == 5 {
        5712
    } else if d == 6 {
        6850
    } else if d == 7 {
        7987
    } else if d == 8 {
        9121
    } else if d == 9 {
        10252
    } else if d == 10 {
        11380
    } else if d == 11 {
        12505
    } else if d == 12 {
        13626
    } else if d == 13 {
        14742
    } else if d == 14 {
        15855
    } else if d == 15 {
        16962
    } else if d == 16 {
        18064
    } else if d == 17 {
        19161
    } else if d == 18 {
        20252
    } else if d == 19 {
        21336
    } else if d == 20 {
        22415
    } else if d == 21 {
        23486
    } else if d == 22 {
        24550
    } else if d == 23 {
        25607
    } else if d == 24 {
        26656
    } else if d == 25 {
        27697
    } else if d == 26 {
        28729
    } else if d == 27 {
        29753
    } else if d == 28 {
        30767
    } else if d == 29 {
        31772
    } else if d == 30 {
        32768
    } else if d == 31 {
        33754
    } else if d == 32 {
        34729
    } else if d == 33 {
        35693
    } else if d == 34 {
        36647
    } else if d == 35 {
        37590
    } else if d == 36 {
        38521
    } else if d == 37 {
        39441
    } else if d == 38 {
        40348
    } else if d == 39 {
        41243
    } else if d == 40 {
        42126
    } else if d == 41 {
        42995
    } else if d == 42 {
        43852
    } else if d == 43 {
        44695
    } else if d == 44 {
        45525
    } else if d == 45 {
        46341
    } else if d == 46 {
        47143
    } else if d == 47 {
        47930
    } else if d == 48 {
        48703
    } else if d == 49 {
        49461
    } else if d == 50 {
        50203
    } else if d == 51 {
        50931
    } else if d == 52 {
        51643
    } else if d == 53 {
        52339
    } else if d == 54 {
        53020
    } else if d == 55 {
        53684
    } else if d == 56 {
        54332
    } else if d == 57 {
        54963
    } else if d == 58 {
        55578
    } else if d == 59 {
        56175
    } else if d == 60 {
        56756
    } else if d == 61 {
        57319
    } else if d == 62 {
        57865
    } else if d == 63 {
        58393
    } else if d == 64 {
        58903
    } else if d == 65 {
        59396
    } else if d == 66 {
        59870
    } else if d == 67 {
        60326
    } else if d == 68 {
        60764
    } else if d == 69 {
        61183
    } else if d == 70 {
        61584
    } else if d == 71 {
        61966
    } else if d == 72 {
        62328
    } else if d == 73 {
        62672
    } else if d == 74 {
        62997
    } else if d == 75 {
        63303
    } else if d == 76 {
        63589
    } else if d == 77 {
        63856
    } else if d == 78 {
        64104
    } else if d == 79 {
        64332
    } else if d == 80 {
        64540
    } else if d == 81 {
        64729
    } else if d == 82 {
        64898
    } else if d == 83 {
        65048
    } else if d == 84 {
        65177
    } else if d == 85 {
        65287
    } else if d == 86 {
        65376
    } else if d == 87 {
        65446
    } else if d == 88 {
        65496
    } else if d == 89 {
        65526
    } else {
        65536
    }
}

/// The sine of `d` degrees over a full turn, scaled by `TRIG_ONE`.
pub open spec fn spec_sin(d: int) -> int {
    if d <= 90 {
        spec_sin_table(d)
    } else if d <= 180 {
        spec_sin_table(180 - d)
    } else if d <= 270 {
        -spec_sin_table(d - 180)
    } else {
        -spec_sin_table(360 - d)
    }
}

/// The cosine of `d` degrees over a full turn, scaled by `TRIG_ONE`.
pub open spec fn spec_cos(d: int) -> int {
    if d <= 90 {
        spec_sin_table(90 - d)
    } else if d <= 180 {
        -spec_sin_table(d - 90)
    } else if d <= 270 {
        -spec_sin_table(270 - d)
    } else {
        spec_sin_table(d - 270)
    }
}

#[verifier::rlimit(60)]
fn sin_table(d: u32) -> (r: i64)
    requires
        d <= 90,
    ensures
        r == spec_sin_table(d as int),
        0 <= r <= TRIG_ONE,
{
    match d {
        0 => 0,
        1 => 1144,
        2 => 2287,
        3 => 3430,
        4 => 4572,
        5 => 5712,
        6 => 6850,
        7 => 7987,
        8 => 9121,
        9 => 10252,
        10 => 11380,
        11 => 12505,
        12 => 13626,
        13 => 14742,
        14 => 15855,
        15 => 16962,
        16 => 18064,
        17 => 19161,
        18 => 20252,
        19 => 21336,
        20 => 22415,
        21 => 23486,
        22 => 24550,
        23 => 25607,
        24 => 26656,
        25 => 27697,
        26 => 28729,
        27 => 29753,
        28 => 30767,
        29 => 31772,
        30 => 32768,
        31 => 33754,
        32 => 34729,
        33 => 35693,
        34 => 36647,
        35 => 37590,
        36 => 38521,
        37 => 39441,
        38 => 40348,
        39 => 41243,
        40 => 42126,
        41 => 42995,
        42 => 43852,
        43 => 44695,
        44 => 45525,
        45 => 46341,
        46 => 47143,
        47 => 47930,
        48 => 48703,
        49 => 49461,
        50 => 50203,
        51 => 50931,
        52 => 51643,
        53 => 52339,
        54 => 53020,
        55 => 53684,
        56 => 54332,
        57 => 54963,
        58 => 55578,
        59 => 56175,
        60 => 56756,
        61 => 57319,
        62 => 57865,
        63 => 58393,
        64 => 58903,
        65 => 59396,
        66 => 59870,
        67 => 60326,
        68 => 60764,
        69 => 61183,
        70 => 61584,
        71 => 61966,
        72 => 62328,
        73 => 62672,
        74 => 62997,
        75 => 63303,
        76 => 63589,
        77 => 63856,
        78 => 64104,
        79 => 64332,
        80 => 64540,
        81 => 64729,
        82 => 64898,
        83 => 65048,
        84 => 65177,
        85 => 65287,
        86 => 65376,
        87 => 65446,
        88 => 65496,
        89 => 65526,
        _ => 65536,
    }
}

/// The sine of `d` degrees, scaled by `TRIG_ONE`, for `d` within one turn.
pub fn sin_q16(d: u32) -> (r: i64)
    requires
        d < 360,
    ensures
        r == spec_sin(d as int),
        -TRIG_ONE <= r <= TRIG_ONE,
{
    if d <= 90 {
        sin_table(d)
    } else if d <= 180 {
        sin_table(180 - d)
    } else if d <= 270 {
        -sin_table(d - 180)
    } else {
        -sin_table(360 - d)
    }
}

/// The cosine of `d` degrees, scaled by `TRIG_ONE`, for `d` within one turn.
pub fn cos_q16(d: u32) -> (r: i64)
    requires
        d < 360,
    ensures
        r == spec_cos(d as int),
        -TRIG_ONE <= r <= TRIG_ONE,
{
    if d <= 90 {
        sin_table(90 - d)
    } else if d <= 180 {
        -sin_table(d - 90)
    } else if d <= 270 {
        -sin_table(270 - d)
    } else {
        sin_table(d - 270)
    }
}

} // verus!
