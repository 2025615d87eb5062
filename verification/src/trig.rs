//! Fixed-point trigonometry: cosine of a latitude (for the projection's
//! scale factors) and a whole-degree arctangent (for headings).
//!
//! The tables hold `cos`, `sin` and `tan` of whole degrees scaled by `1e9`
//! (cosine and sine rounded to nearest, tangent rounded down).  They are the
//! library's definition of its trigonometric approximation: the cosine of an
//! arbitrary angle is a second-order Taylor expansion around the nearest
//! whole degree, and the arctangent of a ratio is the largest whole degree
//! whose tabulated tangent does not exceed it.

use vstd::prelude::*;

verus! {

/// Radians per degree, scaled by `1e9` and rounded to nearest.
pub const RAD_PER_DEGREE_E9: i64 = 17_453_293;

/// Cosine and sine of `d` whole degrees, scaled by `1e9`, rounded to nearest;
/// `(0, 0)` outside [0, 90].
pub open spec fn cos_sin_table_spec(d: int) -> (int, int) {
    if d == 0 {
        (1_000_000_000int, 0int)
    } else if d == 1 {
        (999_847_695int, 17_452_406int)
    } else if d == 2 {
        (999_390_827int, 34_899_497int)
    } else if d == 3 {
        (998_629_535int, 52_335_956int)
    } else if d == 4 {
        (997_564_050int, 69_756_474int)
    } else if d == 5 {
        (996_194_698int, 87_155_743int)
    } else if d == 6 {
        (994_521_895int, 104_528_463int)
    } else if d == 7 {
        (992_546_152int, 121_869_343int)
    } else if d == 8 {
        (990_268_069int, 139_173_101int)
    } else if d == 9 {
        (987_688_341int, 156_434_465int)
    } else if d == 10 {
        (984_807_753int, 173_648_178int)
    } else if d == 11 {
        (981_627_183int, 190_808_995int)
    } else if d == 12 {
        (978_147_601int, 207_911_691int)
    } else if d == 13 {
        (974_370_065int, 224_951_054int)
    } else if d == 14 {
        (970_295_726int, 241_921_896int)
    } else if d == 15 {
        (965_925_826int, 258_819_045int)
    } else if d == 16 {
        (961_261_696int, 275_637_356int)
    } else if d == 17 {
        (956_304_756int, 292_371_705int)
    } else if d == 18 {
        (951_056_516int, 309_016_994int)
    } else if d == 19 {
        (945_518_576int, 325_568_154int)
    } else if d == 20 {
        (939_692_621int, 342_020_143int)
    } else if d == 21 {
        (933_580_426int, 358_367_950int)
    } else if d == 22 {
        (927_183_855int, 374_606_593int)
    } else if d == 23 {
        (920_504_853int, 390_731_128int)
    } else if d == 24 {
        (913_545_458int, 406_736_643int)
    } else if d == 25 {
        (906_307_787int, 422_618_262int)
    } else if d == 26 {
        (898_794_046int, 438_371_147int)
    } else if d == 27 {
        (891_006_524int, 453_990_500int)
    } else if d == 28 {
        (882_947_593int, 469_471_563int)
    } else if d == 29 {
        (874_619_707int, 484_809_620int)
    } else if d == 30 {
        (866_025_404int, 500_000_000int)
    } else if d == 31 {
        (857_167_301int, 515_038_075int)
    } else if d == 32 {
        (848_048_096int, 529_919_264int)
    } else if d == 33 {
        (838_670_568int, 544_639_035int)
    } else if d == 34 {
        (829_037_573int, 559_192_903int)
    } else if d == 35 {
        (819_152_044int, 573_576_436int)
    } else if d == 36 {
        (809_016_994int, 587_785_252int)
    } else if d == 37 {
        (798_635_510int, 601_815_023int)
    } else if d == 38 {
        (788_010_754int, 615_661_475int)
    } else if d == 39 {
        (777_145_961int, 629_320_391int)
    } else if d == 40 {
        (766_044_443int, 642_787_610int)
    } else if d == 41 {
        (754_709_580int, 656_059_029int)
    } else if d == 42 {
        (743_144_825int, 669_130_606int)
    } else if d == 43 {
        (731_353_702int, 681_998_360int)
    } else if d == 44 {
        (719_339_800int, 694_658_370int)
    } else if d == 45 {
        (707_106_781int, 707_106_781int)
    } else if d == 46 {
        (694_658_370int, 719_339_800int)
    } else if d == 47 {
        (681_998_360int, 731_353_702int)
    } else if d == 48 {
        (669_130_606int, 743_144_825int)
    } else if d == 49 {
        (656_059_029int, 754_709_580int)
    } else if d == 50 {
        (642_787_610int, 766_044_443int)
    } else if d == 51 {
        (629_320_391int, 777_145_961int)
    } else if d == 52 {
        (615_661_475int, 788_010_754int)
    } else if d == 53 {
        (601_815_023int, 798_635_510int)
    } else if d == 54 {
        (587_785_252int, 809_016_994int)
    } else if d == 55 {
        (573_576_436int, 819_152_044int)
    } else if d == 56 {
        (559_192_903int, 829_037_573int)
    } else if d == 57 {
        (544_639_035int, 838_670_568int)
    } else if d == 58 {
        (529_919_264int, 848_048_096int)
    } else if d == 59 {
        (515_038_075int, 857_167_301int)
    } else if d == 60 {
        (500_000_000int, 866_025_404int)
    } else if d == 61 {
        (484_809_620int, 874_619_707int)
    } else if d == 62 {
        (469_471_563int, 882_947_593int)
    } else if d == 63 {
        (453_990_500int, 891_006_524int)
    } else if d == 64 {
        (438_371_147int, 898_794_046int)
    } else if d == 65 {
        (422_618_262int, 906_307_787int)
    } else if d == 66 {
        (406_736_643int, 913_545_458int)
    } else if d == 67 {
        (390_731_128int, 920_504_853int)
    } else if d == 68 {
        (374_606_593int, 927_183_855int)
    } else if d == 69 {
        (358_367_950int, 933_580_426int)
    } else if d == 70 {
        (342_020_143int, 939_692_621int)
    } else if d == 71 {
        (325_568_154int, 945_518_576int)
    } else if d == 72 {
        (309_016_994int, 951_056_516int)
    } else if d == 73 {
        (292_371_705int, 956_304_756int)
    } else if d == 74 {
        (275_637_356int, 961_261_696int)
    } else if d == 75 {
        (258_819_045int, 965_925_826int)
    } else if d == 76 {
        (241_921_896int, 970_295_726int)
    } else if d == 77 {
        (224_951_054int, 974_370_065int)
    } else if d == 78 {
        (207_911_691int, 978_147_601int)
    } else if d == 79 {
        (190_808_995int, 981_627_183int)
    } else if d == 80 {
        (173_648_178int, 984_807_753int)
    } else if d == 81 {
        (156_434_465int, 987_688_341int)
    } else if d == 82 {
        (139_173_101int, 990_268_069int)
    } else if d == 83 {
        (121_869_343int, 992_546_152int)
    } else if d == 84 {
        (104_528_463int, 994_521_895int)
    } else if d == 85 {
        (87_155_743int, 996_194_698int)
    } else if d == 86 {
        (69_756_474int, 997_564_050int)
    } else if d == 87 {
        (52_335_956int, 998_629_535int)
    } else if d == 88 {
        (34_899_497int, 999_390_827int)
    } else if d == 89 {
        (17_452_406int, 999_847_695int)
    } else if d == 90 {
        (0int, 1_000_000_000int)
    } else {
        (0int, 0int)
    }
}

/// Tabulated cosine and sine of `d` whole degrees, scaled by `1e9`.
pub fn cos_sin_table(d: u64) -> (r: (u64, u64))
    requires
        d <= 90,
    ensures
        r.0 == cos_sin_table_spec(d as int).0,
        r.1 == cos_sin_table_spec(d as int).1,
        r.0 <= 1_000_000_000,
        r.1 <= 1_000_000_000,
{
    match d {
        0 => (1_000_000_000, 0),
        1 => (999_847_695, 17_452_406),
        2 => (999_390_827, 34_899_497),
        3 => (998_629_535, 52_335_956),
        4 => (997_564_050, 69_756_474),
        5 => (996_194_698, 87_155_743),
        6 => (994_521_895, 104_528_463),
        7 => (992_546_152, 121_869_343),
        8 => (990_268_069, 139_173_101),
        9 => (987_688_341, 156_434_465),
        10 => (984_807_753, 173_648_178),
        11 => (981_627_183, 190_808_995),
        12 => (978_147_601, 207_911_691),
        13 => (974_370_065, 224_951_054),
        14 => (970_295_726, 241_921_896),
        15 => (965_925_826, 258_819_045),
        16 => (961_261_696, 275_637_356),
        17 => (956_304_756, 292_371_705),
        18 => (951_056_516, 309_016_994),
        19 => (945_518_576, 325_568_154),
        20 => (939_692_621, 342_020_143),
        21 => (933_580_426, 358_367_950),
        22 => (927_183_855, 374_606_593),
        23 => (920_504_853, 390_731_128),
        24 => (913_545_458, 406_736_643),
        25 => (906_307_787, 422_618_262),
        26 => (898_794_046, 438_371_147),
        27 => (891_006_524, 453_990_500),
        28 => (882_947_593, 469_471_563),
        29 => (874_619_707, 484_809_620),
        30 => (866_025_404, 500_000_000),
        31 => (857_167_301, 515_038_075),
        32 => (848_048_096, 529_919_264),
        33 => (838_670_568, 544_639_035),
        34 => (829_037_573, 559_192_903),
        35 => (819_152_044, 573_576_436),
        36 => (809_016_994, 587_785_252),
        37 => (798_635_510, 601_815_023),
        38 => (788_010_754, 615_661_475),
        39 => (777_145_961, 629_320_391),
        40 => (766_044_443, 642_787_610),
        41 => (754_709_580, 656_059_029),
        42 => (743_144_825, 669_130_606),
        43 => (731_353_702, 681_998_360),
        44 => (719_339_800, 694_658_370),
        45 => (707_106_781, 707_106_781),
        46 => (694_658_370, 719_339_800),
        47 => (681_998_360, 731_353_702),
        48 => (669_130_606, 743_144_825),
        49 => (656_059_029, 754_709_580),
        50 => (642_787_610, 766_044_443),
        51 => (629_320_391, 777_145_961),
        52 => (615_661_475, 788_010_754),
        53 => (601_815_023, 798_635_510),
        54 => (587_785_252, 809_016_994),
        55 => (573_576_436, 819_152_044),
        56 => (559_192_903, 829_037_573),
        57 => (544_639_035, 838_670_568),
        58 => (529_919_264, 848_048_096),
        59 => (515_038_075, 857_167_301),
        60 => (500_000_000, 866_025_404),
        61 => (484_809_620, 874_619_707),
        62 => (469_471_563, 882_947_593),
        63 => (453_990_500, 891_006_524),
        64 => (438_371_147, 898_794_046),
        65 => (422_618_262, 906_307_787),
        66 => (406_736_643, 913_545_458),
        67 => (390_731_128, 920_504_853),
        68 => (374_606_593, 927_183_855),
        69 => (358_367_950, 933_580_426),
        70 => (342_020_143, 939_692_621),
        71 => (325_568_154, 945_518_576),
        72 => (309_016_994, 951_056_516),
        73 => (292_371_705, 956_304_756),
        74 => (275_637_356, 961_261_696),
        75 => (258_819_045, 965_925_826),
        76 => (241_921_896, 970_295_726),
        77 => (224_951_054, 974_370_065),
        78 => (207_911_691, 978_147_601),
        79 => (190_808_995, 981_627_183),
        80 => (173_648_178, 984_807_753),
        81 => (156_434_465, 987_688_341),
        82 => (139_173_101, 990_268_069),
        83 => (121_869_343, 992_546_152),
        84 => (104_528_463, 994_521_895),
        85 => (87_155_743, 996_194_698),
        86 => (69_756_474, 997_564_050),
        87 => (52_335_956, 998_629_535),
        88 => (34_899_497, 999_390_827),
        89 => (17_452_406, 999_847_695),
        90 => (0, 1_000_000_000),
        _ => (0, 0),
    }
}

/// Tangent of `t` whole degrees, scaled by `1e9` and rounded down; 0
/// outside [0, 89].
pub open spec fn tan_table_spec(t: int) -> int {
    if t == 0 {
        0int
    } else if t == 1 {
        17_455_064int
    } else if t == 2 {
        34_920_769int
    } else if t == 3 {
        52_407_779int
    } else if t == 4 {
        69_926_811int
    } else if t == 5 {
        87_488_663int
    } else if t == 6 {
        105_104_235int
    } else if t == 7 {
        122_784_560int
    } else if t == 8 {
        140_540_834int
    } else if t == 9 {
        158_384_440int
    } else if t == 10 {
        176_326_980int
    } else if t == 11 {
        194_380_309int
    } else if t == 12 {
        212_556_561int
    } else if t == 13 {
        230_868_191int
    } else if t == 14 {
        249_328_002int
    } else if t == 15 {
        267_949_192int
    } else if t == 16 {
        286_745_385int
    } else if t == 17 {
        305_730_681int
    } else if t == 18 {
        324_919_696int
    } else if t == 19 {
        344_327_613int
    } else if t == 20 {
        363_970_234int
    } else if t == 21 {
        383_864_035int
    } else if t == 22 {
        404_026_225int
    } else if t == 23 {
        424_474_816int
    } else if t == 24 {
        445_228_685int
    } else if t == 25 {
        466_307_658int
    } else if t == 26 {
        487_732_588int
    } else if t == 27 {
        509_525_449int
    } else if t == 28 {
        531_709_431int
    } else if t == 29 {
        554_309_051int
    } else if t == 30 {
        577_350_269int
    } else if t == 31 {
        600_860_619int
    } else if t == 32 {
        624_869_351int
    } else if t == 33 {
        649_407_593int
    } else if t == 34 {
        674_508_516int
    } else if t == 35 {
        700_207_538int
    } else if t == 36 {
        726_542_528int
    } else if t == 37 {
        753_554_050int
    } else if t == 38 {
        781_285_626int
    } else if t == 39 {
        809_784_033int
    } else if t == 40 {
        839_099_631int
    } else if t == 41 {
        869_286_737int
    } else if t == 42 {
        900_404_044int
    } else if t == 43 {
        932_515_086int
    } else if t == 44 {
        965_688_774int
    } else if t == 45 {
        1_000_000_000int
    } else if t == 46 {
        1_035_530_313int
    } else if t == 47 {
        1_072_368_710int
    } else if t == 48 {
        1_110_612_514int
    } else if t == 49 {
        1_150_368_407int
    } else if t == 50 {
        1_191_753_592int
    } else if t == 51 {
        1_234_897_156int
    } else if t == 52 {
        1_279_941_632int
    } else if t == 53 {
        1_327_044_821int
    } else if t == 54 {
        1_376_381_920int
    } else if t == 55 {
        1_428_148_006int
    } else if t == 56 {
        1_482_560_968int
    } else if t == 57 {
        1_539_864_963int
    } else if t == 58 {
        1_600_334_529int
    } else if t == 59 {
        1_664_279_482int
    } else if t == 60 {
        1_732_050_807int
    } else if t == 61 {
        1_804_047_755int
    } else if t == 62 {
        1_880_726_465int
    } else if t == 63 {
        1_962_610_505int
    } else if t == 64 {
        2_050_303_841int
    } else if t == 65 {
        2_144_506_920int
    } else if t == 66 {
        2_246_036_773int
    } else if t == 67 {
        2_355_852_365int
    } else if t == 68 {
        2_475_086_853int
    } else if t == 69 {
        2_605_089_064int
    } else if t == 70 {
        2_747_477_419int
    } else if t == 71 {
        2_904_210_877int
    } else if t == 72 {
        3_077_683_537int
    } else if t == 73 {
        3_270_852_618int
    } else if t == 74 {
        3_487_414_443int
    } else if t == 75 {
        3_732_050_807int
    } else if t == 76 {
        4_010_780_933int
    } else if t == 77 {
        4_331_475_874int
    } else if t == 78 {
        4_704_630_109int
    } else if t == 79 {
        5_144_554_015int
    } else if t == 80 {
        5_671_281_819int
    } else if t == 81 {
        6_313_751_514int
    } else if t == 82 {
        7_115_369_722int
    } else if t == 83 {
        8_144_346_427int
    } else if t == 84 {
        9_514_364_454int
    } else if t == 85 {
        11_430_052_302int
    } else if t == 86 {
        14_300_666_256int
    } else if t == 87 {
        19_081_136_687int
    } else if t == 88 {
        28_636_253_282int
    } else if t == 89 {
        57_289_961_630int
    } else {
        0int
    }
}

/// Tabulated tangent of `t` whole degrees, scaled by `1e9`.
pub fn tan_table(t: u64) -> (r: u64)
    requires
        t <= 89,
    ensures
        r == tan_table_spec(t as int),
        r <= 57_289_961_630,
{
    match t {
        0 => 0,
        1 => 17_455_064,
        2 => 34_920_769,
        3 => 52_407_779,
        4 => 69_926_811,
        5 => 87_488_663,
        6 => 105_104_235,
        7 => 122_784_560,
        8 => 140_540_834,
        9 => 158_384_440,
        10 => 176_326_980,
        11 => 194_380_309,
        12 => 212_556_561,
        13 => 230_868_191,
        14 => 249_328_002,
        15 => 267_949_192,
        16 => 286_745_385,
        17 => 305_730_681,
        18 => 324_919_696,
        19 => 344_327_613,
        20 => 363_970_234,
        21 => 383_864_035,
        22 => 404_026_225,
        23 => 424_474_816,
        24 => 445_228_685,
        25 => 466_307_658,
        26 => 487_732_588,
        27 => 509_525_449,
        28 => 531_709_431,
        29 => 554_309_051,
        30 => 577_350_269,
        31 => 600_860_619,
        32 => 624_869_351,
        33 => 649_407_593,
        34 => 674_508_516,
        35 => 700_207_538,
        36 => 726_542_528,
        37 => 753_554_050,
        38 => 781_285_626,
        39 => 809_784_033,
        40 => 839_099_631,
        41 => 869_286_737,
        42 => 900_404_044,
        43 => 932_515_086,
        44 => 965_688_774,
        45 => 1_000_000_000,
        46 => 1_035_530_313,
        47 => 1_072_368_710,
        48 => 1_110_612_514,
        49 => 1_150_368_407,
        50 => 1_191_753_592,
        51 => 1_234_897_156,
        52 => 1_279_941_632,
        53 => 1_327_044_821,
        54 => 1_376_381_920,
        55 => 1_428_148_006,
        56 => 1_482_560_968,
        57 => 1_539_864_963,
        58 => 1_600_334_529,
        59 => 1_664_279_482,
        60 => 1_732_050_807,
        61 => 1_804_047_755,
        62 => 1_880_726_465,
        63 => 1_962_610_505,
        64 => 2_050_303_841,
        65 => 2_144_506_920,
        66 => 2_246_036_773,
        67 => 2_355_852_365,
        68 => 2_475_086_853,
        69 => 2_605_089_064,
        70 => 2_747_477_419,
        71 => 2_904_210_877,
        72 => 3_077_683_537,
        73 => 3_270_852_618,
        74 => 3_487_414_443,
        75 => 3_732_050_807,
        76 => 4_010_780_933,
        77 => 4_331_475_874,
        78 => 4_704_630_109,
        79 => 5_144_554_015,
        80 => 5_671_281_819,
        81 => 6_313_751_514,
        82 => 7_115_369_722,
        83 => 8_144_346_427,
        84 => 9_514_364_454,
        85 => 11_430_052_302,
        86 => 14_300_666_256,
        87 => 19_081_136_687,
        88 => 28_636_253_282,
        89 => 57_289_961_630,
        _ => 0,
    }
}

/// Fixed-point cosine of a nonnegative angle in microdegrees: the tables'
/// second-order Taylor expansion around the nearest whole degree, clamped
/// into [0, 1e9].  Scale: `1e9` units per 1.0.
pub open spec fn cos_e9_spec(alat: int) -> int {
    let dn: int = (alat + 500_000) / 1_000_000;
    let fr: int = alat - dn * 1_000_000;
    let frad: int = crate::arith::tdiv(fr * RAD_PER_DEGREE_E9, 1_000_000);
    let c: int = cos_sin_table_spec(dn).0;
    let s: int = cos_sin_table_spec(dn).1;
    let raw: int = c - crate::arith::tdiv(s * frad, 1_000_000_000) - (c * frad * frad)
        / 2_000_000_000_000_000_000;
    if raw < 0 {
        0
    } else if raw > 1_000_000_000 {
        1_000_000_000
    } else {
        raw
    }
}

/// Cosine of a nonnegative angle of at most 90 degrees, in microdegrees,
/// scaled by `1e9`.
pub fn cos_e9(alat: i64) -> (r: u64)
    requires
        0 <= alat <= 90_000_000,
    ensures
        r == cos_e9_spec(alat as int),
        r <= 1_000_000_000,
{
    let dn: u64 = ((alat as u64) + 500_000) / 1_000_000;
    proof {
        vstd::arithmetic::div_mod::lemma_div_is_ordered(
            alat + 500_000,
            90_500_000,
            1_000_000,
        );
        assert(dn <= 90);
        vstd::arithmetic::div_mod::lemma_fundamental_div_mod(alat + 500_000, 1_000_000);
        assert(0 <= (alat + 500_000) % 1_000_000 < 1_000_000);
    }
    let fr: i64 = alat - (dn as i64) * 1_000_000;
    proof {
        assert(-500_000 <= fr < 500_000);
    }
    let fr_rad: i128 = (fr as i128) * (RAD_PER_DEGREE_E9 as i128);
    proof {
        assert(-8_726_646_500_000 <= fr_rad <= 8_726_646_500_000) by (nonlinear_arith)
            requires
                fr_rad == (fr as int) * 17_453_293,
                -500_000 <= fr <= 500_000,
        ;
    }
    let frad: i128 = crate::arith::div_i128(fr_rad, 1_000_000);
    proof {
        crate::arith::lemma_tdiv_magnitude(fr_rad as int, 1_000_000, 8_726_646_500_000);
        assert(-8_726_647 <= frad <= 8_726_647);
    }
    let table: (u64, u64) = cos_sin_table(dn);
    let c: i128 = table.0 as i128;
    let s: i128 = table.1 as i128;
    proof {
        assert(-8_726_647_000_000_000 <= (s as int) * (frad as int) <= 8_726_647_000_000_000)
            by (nonlinear_arith)
            requires
                0 <= s <= 1_000_000_000,
                -8_726_647 <= frad <= 8_726_647,
        ;
    }
    let t2: i128 = crate::arith::div_i128(s * frad, 1_000_000_000);
    proof {
        crate::arith::lemma_tdiv_magnitude(
            (s * frad) as int,
            1_000_000_000,
            8_726_647_000_000_000,
        );
        assert(-8_726_647 <= t2 <= 8_726_647);
        assert(0 <= (frad as int) * (frad as int) <= 76_154_367_902_640_000
            && 0 <= (c as int) * ((frad as int) * (frad as int))
            && (c as int) * ((frad as int) * (frad as int))
                <= 76_154_367_902_640_000_000_000_000) by (nonlinear_arith)
            requires
                -8_726_647 <= frad <= 8_726_647,
                0 <= c <= 1_000_000_000,
        ;
    }
    let fr2: i128 = frad * frad;
    let t3: i128 = (((c * fr2) as u128) / 2_000_000_000_000_000_000) as i128;
    proof {
        assert((c as int) * ((frad as int) * (frad as int))
            == ((c as int) * (frad as int)) * (frad as int)) by (nonlinear_arith);
        assert(((c * fr2) as u128) / 2_000_000_000_000_000_000
            == ((c * fr2) as int) / 2_000_000_000_000_000_000);
        vstd::arithmetic::div_mod::lemma_div_is_ordered(
            (c * fr2) as int,
            76_154_367_902_640_000_000_000_000,
            2_000_000_000_000_000_000,
        );
        vstd::arithmetic::div_mod::lemma_div_pos_is_pos(
            (c * fr2) as int,
            2_000_000_000_000_000_000,
        );
    }
    let raw: i128 = c - t2 - t3;
    let clamped: i128 = if raw < 0 {
        0
    } else if raw > 1_000_000_000 {
        1_000_000_000
    } else {
        raw
    };
    clamped as u64
}

/// The whole-degree arctangent slot of the ratio `n / d`, searched downward
/// from `t`: the largest degree not above `t` whose tabulated tangent does
/// not exceed the ratio (degree 0 when every one does).
pub open spec fn atan_slot_rec(n: int, d: int, t: int) -> int
    decreases t,
{
    if t <= 0 {
        0
    } else if tan_table_spec(t) * d <= n * 1_000_000_000 {
        t
    } else {
        atan_slot_rec(n, d, t - 1)
    }
}

/// The arctangent of the nonnegative ratio `n / d` rounded down to a whole
/// degree in [0, 89]: the largest whole degree whose tabulated tangent does
/// not exceed the ratio.
pub open spec fn atan_deg_spec(n: int, d: int) -> int {
    atan_slot_rec(n, d, 89)
}

/// Law: the arctangent slot lies in [0, t].
pub proof fn lemma_atan_slot_range(n: int, d: int, t: int)
    requires
        0 <= t,
    ensures
        0 <= atan_slot_rec(n, d, t) <= t,
    decreases t,
{
    if t > 0 && !(tan_table_spec(t) * d <= n * 1_000_000_000) {
        lemma_atan_slot_range(n, d, t - 1);
    }
}

proof fn lemma_atan_slot_zero(d: int, t: int)
    requires
        d >= 1,
        0 <= t <= 89,
    ensures
        atan_slot_rec(0, d, t) == 0,
    decreases t,
{
    if t > 0 {
        assert(tan_table_spec(t) >= 1);
        assert(tan_table_spec(t) * d >= 1) by (nonlinear_arith)
            requires
                tan_table_spec(t) >= 1,
                d >= 1,
        ;
        lemma_atan_slot_zero(d, t - 1);
    }
}

/// Law: the whole-degree arctangent always lies in [0, 89].
pub proof fn lemma_atan_deg_range(n: int, d: int)
    ensures
        0 <= atan_deg_spec(n, d) <= 89,
{
    lemma_atan_slot_range(n, d, 89);
}

/// Law: a zero ratio over any positive denominator has arctangent zero.
pub proof fn lemma_atan_deg_zero(d: int)
    requires
        d >= 1,
    ensures
        atan_deg_spec(0, d) == 0,
{
    lemma_atan_slot_zero(d, 89);
}

/// The arctangent of the ratio `n / d` as a whole degree in [0, 89].
pub fn atan_deg(n: u64, d: u64) -> (r: u64)
    requires
        1 <= d,
    ensures
        r == atan_deg_spec(n as int, d as int),
        r <= 89,
{
    let mut t: u64 = 89;
    while t > 0
        invariant
            t <= 89,
            1 <= d,
            atan_deg_spec(n as int, d as int) == atan_slot_rec(n as int, d as int, t as int),
        decreases t,
    {
        let tt: u64 = tan_table(t);
        proof {
            assert((tt as int) * (d as int) < 0x1_0000_0000_0000_0000_0000_0000_0000_0000
                && (n as int) * 1_000_000_000 < 0x1_0000_0000_0000_0000_0000_0000_0000_0000)
                by (nonlinear_arith)
                requires
                    0 <= tt <= 57_289_961_630,
                    0 <= d <= 0xffff_ffff_ffff_ffffu64,
                    0 <= n <= 0xffff_ffff_ffff_ffffu64,
            ;
        }
        if (tt as u128) * (d as u128) <= (n as u128) * 1_000_000_000 {
            proof {
                lemma_atan_slot_range(n as int, d as int, t as int);
            }
            return t;
        }
        t = t - 1;
    }
    0
}

} // verus!
