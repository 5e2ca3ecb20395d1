//! Atomic data: the periodic table, scattering-factor table selection, and
//! the scanners for the `f0_xop.dat` and `AtomicData.dat` text files.
use vstd::prelude::*;
use std::collections::HashMap;
use crate::error::XrtError;
use crate::text::{
    contains_str, digit_value, digits_value, has_prefix, has_substring, is_digit, lowercase_of, parse_usize,
    lemma_trimmed_words, split_whitespace_str, starts_with_str, str_equal, to_lowercase, trim_str, trimmed,
    unsigned_digits, usize_of, words,
};

verus! {

broadcast use vstd::std_specs::hash::group_hash_axioms;

/// Number of entries of the periodic table, counting the placeholder at 0.
pub const ELEMENT_COUNT: usize = 93;

/// The periodic table, index 0 = "none" (placeholder).
pub const ELEMENTS_LIST: [&'static str; 93] = ["none", "H", "He", "Li", "Be", "B", "C", "N", "O", "F", "Ne", "Na", "Mg", "Al", "Si", "P", "S", "Cl", "Ar", "K", "Ca", "Sc", "Ti", "V", "Cr", "Mn", "Fe", "Co", "Ni", "Cu", "Zn", "Ga", "Ge", "As", "Se", "Br", "Kr", "Rb", "Sr", "Y", "Zr", "Nb", "Mo", "Tc", "Ru", "Rh", "Pd", "Ag", "Cd", "In", "Sn", "Sb", "Te", "I", "Xe", "Cs", "Ba", "La", "Ce", "Pr", "Nd", "Pm", "Sm", "Eu", "Gd", "Tb", "Dy", "Ho", "Er", "Tm", "Yb", "Lu", "Hf", "Ta", "W", "Re", "Os", "Ir", "Pt", "Au", "Hg", "Tl", "Pb", "Bi", "Po", "At", "Rn", "Fr", "Ra", "Ac", "Th", "Pa", "U"];

/// The symbol of the element with atomic number `z` (0 is the placeholder `none`).
pub open spec fn element_symbol(z: int) -> Option<Seq<char>> {
    if z == 0 {
        Some("none"@)
    } else if z == 1 {
        Some("H"@)
    } else if z == 2 {
        Some("He"@)
    } else if z == 3 {
        Some("Li"@)
    } else if z == 4 {
        Some("Be"@)
    } else if z == 5 {
        Some("B"@)
    } else if z == 6 {
        Some("C"@)
    } else if z == 7 {
        Some("N"@)
    } else if z == 8 {
        Some("O"@)
    } else if z == 9 {
        Some("F"@)
    } else if z == 10 {
        Some("Ne"@)
    } else if z == 11 {
        Some("Na"@)
    } else if z == 12 {
        Some("Mg"@)
    } else if z == 13 {
        Some("Al"@)
    } else if z == 14 {
        Some("Si"@)
    } else if z == 15 {
        Some("P"@)
    } else if z == 16 {
        Some("S"@)
    } else if z == 17 {
        Some("Cl"@)
    } else if z == 18 {
        Some("Ar"@)
    } else if z == 19 {
        Some("K"@)
    } else if z == 20 {
        Some("Ca"@)
    } else if z == 21 {
        Some("Sc"@)
    } else if z == 22 {
        Some("Ti"@)
    } else if z == 23 {
        Some("V"@)
    } else if z == 24 {
        Some("Cr"@)
    } else if z == 25 {
        Some("Mn"@)
    } else if z == 26 {
        Some("Fe"@)
    } else if z == 27 {
        Some("Co"@)
    } else if z == 28 {
        Some("Ni"@)
    } else if z == 29 {
        Some("Cu"@)
    } else if z == 30 {
        Some("Zn"@)
    } else if z == 31 {
        Some("Ga"@)
    } else if z == 32 {
        Some("Ge"@)
    } else if z == 33 {
        Some("As"@)
    } else if z == 34 {
        Some("Se"@)
    } else if z == 35 {
        Some("Br"@)
    } else if z == 36 {
        Some("Kr"@)
    } else if z == 37 {
        Some("Rb"@)
    } else if z == 38 {
        Some("Sr"@)
    } else if z == 39 {
        Some("Y"@)
    } else if z == 40 {
        Some("Zr"@)
    } else if z == 41 {
        Some("Nb"@)
    } else if z == 42 {
        Some("Mo"@)
    } else if z == 43 {
        Some("Tc"@)
    } else if z == 44 {
        Some("Ru"@)
    } else if z == 45 {
        Some("Rh"@)
    } else if z == 46 {
        Some("Pd"@)
    } else if z == 47 {
        Some("Ag"@)
    } else if z == 48 {
        Some("Cd"@)
    } else if z == 49 {
        Some("In"@)
    } else if z == 50 {
        Some("Sn"@)
    } else if z == 51 {
        Some("Sb"@)
    } else if z == 52 {
        Some("Te"@)
    } else if z == 53 {
        Some("I"@)
    } else if z == 54 {
        Some("Xe"@)
    } else if z == 55 {
        Some("Cs"@)
    } else if z == 56 {
        Some("Ba"@)
    } else if z == 57 {
        Some("La"@)
    } else if z == 58 {
        Some("Ce"@)
    } else if z == 59 {
        Some("Pr"@)
    } else if z == 60 {
        Some("Nd"@)
    } else if z == 61 {
        Some("Pm"@)
    } else if z == 62 {
        Some("Sm"@)
    } else if z == 63 {
        Some("Eu"@)
    } else if z == 64 {
        Some("Gd"@)
    } else if z == 65 {
        Some("Tb"@)
    } else if z == 66 {
        Some("Dy"@)
    } else if z == 67 {
        Some("Ho"@)
    } else if z == 68 {
        Some("Er"@)
    } else if z == 69 {
        Some("Tm"@)
    } else if z == 70 {
        Some("Yb"@)
    } else if z == 71 {
        Some("Lu"@)
    } else if z == 72 {
        Some("Hf"@)
    } else if z == 73 {
        Some("Ta"@)
    } else if z == 74 {
        Some("W"@)
    } else if z == 75 {
        Some("Re"@)
    } else if z == 76 {
        Some("Os"@)
    } else if z == 77 {
        Some("Ir"@)
    } else if z == 78 {
        Some("Pt"@)
    } else if z == 79 {
        Some("Au"@)
    } else if z == 80 {
        Some("Hg"@)
    } else if z == 81 {
        Some("Tl"@)
    } else if z == 82 {
        Some("Pb"@)
    } else if z == 83 {
        Some("Bi"@)
    } else if z == 84 {
        Some("Po"@)
    } else if z == 85 {
        Some("At"@)
    } else if z == 86 {
        Some("Rn"@)
    } else if z == 87 {
        Some("Fr"@)
    } else if z == 88 {
        Some("Ra"@)
    } else if z == 89 {
        Some("Ac"@)
    } else if z == 90 {
        Some("Th"@)
    } else if z == 91 {
        Some("Pa"@)
    } else if z == 92 {
        Some("U"@)
    } else {
        None
    }
}

/// A number that tells the symbols of the table apart.
spec fn symbol_code(s: Seq<char>) -> int {
    if s.len() == 1 {
        s[0] as int
    } else if s.len() == 2 {
        s[0] as int * 1000 + s[1] as int
    } else {
        0
    }
}

/// The atomic number whose symbol has a given code.
spec fn z_of_code(c: int) -> int {
    if c == 0 {
        0
    } else if c == 72 {
        1
    } else if c == 72101 {
        2
    } else if c == 76105 {
        3
    } else if c == 66101 {
        4
    } else if c == 66 {
        5
    } else if c == 67 {
        6
    } else if c == 78 {
        7
    } else if c == 79 {
        8
    } else if c == 70 {
        9
    } else if c == 78101 {
        10
    } else if c == 78097 {
        11
    } else if c == 77103 {
        12
    } else if c == 65108 {
        13
    } else if c == 83105 {
        14
    } else if c == 80 {
        15
    } else if c == 83 {
        16
    } else if c == 67108 {
        17
    } else if c == 65114 {
        18
    } else if c == 75 {
        19
    } else if c == 67097 {
        20
    } else if c == 83099 {
        21
    } else if c == 84105 {
        22
    } else if c == 86 {
        23
    } else if c == 67114 {
        24
    } else if c == 77110 {
        25
    } else if c == 70101 {
        26
    } else if c == 67111 {
        27
    } else if c == 78105 {
        28
    } else if c == 67117 {
        29
    } else if c == 90110 {
        30
    } else if c == 71097 {
        31
    } else if c == 71101 {
        32
    } else if c == 65115 {
        33
    } else if c == 83101 {
        34
    } else if c == 66114 {
        35
    } else if c == 75114 {
        36
    } else if c == 82098 {
        37
    } else if c == 83114 {
        38
    } else if c == 89 {
        39
    } else if c == 90114 {
        40
    } else if c == 78098 {
        41
    } else if c == 77111 {
        42
    } else if c == 84099 {
        43
    } else if c == 82117 {
        44
    } else if c == 82104 {
        45
    } else if c == 80100 {
        46
    } else if c == 65103 {
        47
    } else if c == 67100 {
        48
    } else if c == 73110 {
        49
    } else if c == 83110 {
        50
    } else if c == 83098 {
        51
    } else if c == 84101 {
        52
    } else if c == 73 {
        53
    } else if c == 88101 {
        54
    } else if c == 67115 {
        55
    } else if c == 66097 {
        56
    } else if c == 76097 {
        57
    } else if c == 67101 {
        58
    } else if c == 80114 {
        59
    } else if c == 78100 {
        60
    } else if c == 80109 {
        61
    } else if c == 83109 {
        62
    } else if c == 69117 {
        63
    } else if c == 71100 {
        64
    } else if c == 84098 {
        65
    } else if c == 68121 {
        66
    } else if c == 72111 {
        67
    } else if c == 69114 {
        68
    } else if c == 84109 {
        69
    } else if c == 89098 {
        70
    } else if c == 76117 {
        71
    } else if c == 72102 {
        72
    } else if c == 84097 {
        73
    } else if c == 87 {
        74
    } else if c == 82101 {
        75
    } else if c == 79115 {
        76
    } else if c == 73114 {
        77
    } else if c == 80116 {
        78
    } else if c == 65117 {
        79
    } else if c == 72103 {
        80
    } else if c == 84108 {
        81
    } else if c == 80098 {
        82
    } else if c == 66105 {
        83
    } else if c == 80111 {
        84
    } else if c == 65116 {
        85
    } else if c == 82110 {
        86
    } else if c == 70114 {
        87
    } else if c == 82097 {
        88
    } else if c == 65099 {
        89
    } else if c == 84104 {
        90
    } else if c == 80097 {
        91
    } else if c == 85 {
        92
    } else {
        -1
    }
}

/// No two elements share a symbol.
pub proof fn lemma_symbols_distinct()
    ensures
        forall|i: int, j: int|
            0 <= i < ELEMENT_COUNT && 0 <= j < ELEMENT_COUNT && #[trigger] element_symbol(i) == #[trigger] element_symbol(j) ==> i == j,
{
    reveal_strlit("Ac");
    reveal_strlit("Ag");
    reveal_strlit("Al");
    reveal_strlit("Ar");
    reveal_strlit("As");
    reveal_strlit("At");
    reveal_strlit("Au");
    reveal_strlit("B");
    reveal_strlit("Ba");
    reveal_strlit("Be");
    reveal_strlit("Bi");
    reveal_strlit("Br");
    reveal_strlit("C");
    reveal_strlit("Ca");
    reveal_strlit("Cd");
    reveal_strlit("Ce");
    reveal_strlit("Cl");
    reveal_strlit("Co");
    reveal_strlit("Cr");
    reveal_strlit("Cs");
    reveal_strlit("Cu");
    reveal_strlit("Dy");
    reveal_strlit("Er");
    reveal_strlit("Eu");
    reveal_strlit("F");
    reveal_strlit("Fe");
    reveal_strlit("Fr");
    reveal_strlit("Ga");
    reveal_strlit("Gd");
    reveal_strlit("Ge");
    reveal_strlit("H");
    reveal_strlit("He");
    reveal_strlit("Hf");
    reveal_strlit("Hg");
    reveal_strlit("Ho");
    reveal_strlit("I");
    reveal_strlit("In");
    reveal_strlit("Ir");
    reveal_strlit("K");
    reveal_strlit("Kr");
    reveal_strlit("La");
    reveal_strlit("Li");
    reveal_strlit("Lu");
    reveal_strlit("Mg");
    reveal_strlit("Mn");
    reveal_strlit("Mo");
    reveal_strlit("N");
    reveal_strlit("Na");
    reveal_strlit("Nb");
    reveal_strlit("Nd");
    reveal_strlit("Ne");
    reveal_strlit("Ni");
    reveal_strlit("O");
    reveal_strlit("Os");
    reveal_strlit("P");
    reveal_strlit("Pa");
    reveal_strlit("Pb");
    reveal_strlit("Pd");
    reveal_strlit("Pm");
    reveal_strlit("Po");
    reveal_strlit("Pr");
    reveal_strlit("Pt");
    reveal_strlit("Ra");
    reveal_strlit("Rb");
    reveal_strlit("Re");
    reveal_strlit("Rh");
    reveal_strlit("Rn");
    reveal_strlit("Ru");
    reveal_strlit("S");
    reveal_strlit("Sb");
    reveal_strlit("Sc");
    reveal_strlit("Se");
    reveal_strlit("Si");
    reveal_strlit("Sm");
    reveal_strlit("Sn");
    reveal_strlit("Sr");
    reveal_strlit("Ta");
    reveal_strlit("Tb");
    reveal_strlit("Tc");
    reveal_strlit("Te");
    reveal_strlit("Th");
    reveal_strlit("Ti");
    reveal_strlit("Tl");
    reveal_strlit("Tm");
    reveal_strlit("U");
    reveal_strlit("V");
    reveal_strlit("W");
    reveal_strlit("Xe");
    reveal_strlit("Y");
    reveal_strlit("Yb");
    reveal_strlit("Zn");
    reveal_strlit("Zr");
    reveal_strlit("none");
    assert forall|z: int| 0 <= z < ELEMENT_COUNT implies z_of_code(symbol_code(#[trigger] element_symbol(z)->0)) == z by {
        if z == 0 {
            assert(z_of_code(symbol_code(element_symbol(0)->0)) == 0);
        } else if z == 1 {
            assert(z_of_code(symbol_code(element_symbol(1)->0)) == 1);
        } else if z == 2 {
            assert(z_of_code(symbol_code(element_symbol(2)->0)) == 2);
        } else if z == 3 {
            assert(z_of_code(symbol_code(element_symbol(3)->0)) == 3);
        } else if z == 4 {
            assert(z_of_code(symbol_code(element_symbol(4)->0)) == 4);
        } else if z == 5 {
            assert(z_of_code(symbol_code(element_symbol(5)->0)) == 5);
        } else if z == 6 {
            assert(z_of_code(symbol_code(element_symbol(6)->0)) == 6);
        } else if z == 7 {
            assert(z_of_code(symbol_code(element_symbol(7)->0)) == 7);
        } else if z == 8 {
            assert(z_of_code(symbol_code(element_symbol(8)->0)) == 8);
        } else if z == 9 {
            assert(z_of_code(symbol_code(element_symbol(9)->0)) == 9);
        } else if z == 10 {
            assert(z_of_code(symbol_code(element_symbol(10)->0)) == 10);
        } else if z == 11 {
            assert(z_of_code(symbol_code(element_symbol(11)->0)) == 11);
        } else if z == 12 {
            assert(z_of_code(symbol_code(element_symbol(12)->0)) == 12);
        } else if z == 13 {
            assert(z_of_code(symbol_code(element_symbol(13)->0)) == 13);
        } else if z == 14 {
            assert(z_of_code(symbol_code(element_symbol(14)->0)) == 14);
        } else if z == 15 {
            assert(z_of_code(symbol_code(element_symbol(15)->0)) == 15);
        } else if z == 16 {
            assert(z_of_code(symbol_code(element_symbol(16)->0)) == 16);
        } else if z == 17 {
            assert(z_of_code(symbol_code(element_symbol(17)->0)) == 17);
        } else if z == 18 {
            assert(z_of_code(symbol_code(element_symbol(18)->0)) == 18);
        } else if z == 19 {
            assert(z_of_code(symbol_code(element_symbol(19)->0)) == 19);
        } else if z == 20 {
            assert(z_of_code(symbol_code(element_symbol(20)->0)) == 20);
        } else if z == 21 {
            assert(z_of_code(symbol_code(element_symbol(21)->0)) == 21);
        } else if z == 22 {
            assert(z_of_code(symbol_code(element_symbol(22)->0)) == 22);
        } else if z == 23 {
            assert(z_of_code(symbol_code(element_symbol(23)->0)) == 23);
        } else if z == 24 {
            assert(z_of_code(symbol_code(element_symbol(24)->0)) == 24);
        } else if z == 25 {
            assert(z_of_code(symbol_code(element_symbol(25)->0)) == 25);
        } else if z == 26 {
            assert(z_of_code(symbol_code(element_symbol(26)->0)) == 26);
        } else if z == 27 {
            assert(z_of_code(symbol_code(element_symbol(27)->0)) == 27);
        } else if z == 28 {
            assert(z_of_code(symbol_code(element_symbol(28)->0)) == 28);
        } else if z == 29 {
            assert(z_of_code(symbol_code(element_symbol(29)->0)) == 29);
        } else if z == 30 {
            assert(z_of_code(symbol_code(element_symbol(30)->0)) == 30);
        } else if z == 31 {
            assert(z_of_code(symbol_code(element_symbol(31)->0)) == 31);
        } else if z == 32 {
            assert(z_of_code(symbol_code(element_symbol(32)->0)) == 32);
        } else if z == 33 {
            assert(z_of_code(symbol_code(element_symbol(33)->0)) == 33);
        } else if z == 34 {
            assert(z_of_code(symbol_code(element_symbol(34)->0)) == 34);
        } else if z == 35 {
            assert(z_of_code(symbol_code(element_symbol(35)->0)) == 35);
        } else if z == 36 {
            assert(z_of_code(symbol_code(element_symbol(36)->0)) == 36);
        } else if z == 37 {
            assert(z_of_code(symbol_code(element_symbol(37)->0)) == 37);
        } else if z == 38 {
            assert(z_of_code(symbol_code(element_symbol(38)->0)) == 38);
        } else if z == 39 {
            assert(z_of_code(symbol_code(element_symbol(39)->0)) == 39);
        } else if z == 40 {
            assert(z_of_code(symbol_code(element_symbol(40)->0)) == 40);
        } else if z == 41 {
            assert(z_of_code(symbol_code(element_symbol(41)->0)) == 41);
        } else if z == 42 {
            assert(z_of_code(symbol_code(element_symbol(42)->0)) == 42);
        } else if z == 43 {
            assert(z_of_code(symbol_code(element_symbol(43)->0)) == 43);
        } else if z == 44 {
            assert(z_of_code(symbol_code(element_symbol(44)->0)) == 44);
        } else if z == 45 {
            assert(z_of_code(symbol_code(element_symbol(45)->0)) == 45);
        } else if z == 46 {
            assert(z_of_code(symbol_code(element_symbol(46)->0)) == 46);
        } else if z == 47 {
            assert(z_of_code(symbol_code(element_symbol(47)->0)) == 47);
        } else if z == 48 {
            assert(z_of_code(symbol_code(element_symbol(48)->0)) == 48);
        } else if z == 49 {
            assert(z_of_code(symbol_code(element_symbol(49)->0)) == 49);
        } else if z == 50 {
            assert(z_of_code(symbol_code(element_symbol(50)->0)) == 50);
        } else if z == 51 {
            assert(z_of_code(symbol_code(element_symbol(51)->0)) == 51);
        } else if z == 52 {
            assert(z_of_code(symbol_code(element_symbol(52)->0)) == 52);
        } else if z == 53 {
            assert(z_of_code(symbol_code(element_symbol(53)->0)) == 53);
        } else if z == 54 {
            assert(z_of_code(symbol_code(element_symbol(54)->0)) == 54);
        } else if z == 55 {
            assert(z_of_code(symbol_code(element_symbol(55)->0)) == 55);
        } else if z == 56 {
            assert(z_of_code(symbol_code(element_symbol(56)->0)) == 56);
        } else if z == 57 {
            assert(z_of_code(symbol_code(element_symbol(57)->0)) == 57);
        } else if z == 58 {
            assert(z_of_code(symbol_code(element_symbol(58)->0)) == 58);
        } else if z == 59 {
            assert(z_of_code(symbol_code(element_symbol(59)->0)) == 59);
        } else if z == 60 {
            assert(z_of_code(symbol_code(element_symbol(60)->0)) == 60);
        } else if z == 61 {
            assert(z_of_code(symbol_code(element_symbol(61)->0)) == 61);
        } else if z == 62 {
            assert(z_of_code(symbol_code(element_symbol(62)->0)) == 62);
        } else if z == 63 {
            assert(z_of_code(symbol_code(element_symbol(63)->0)) == 63);
        } else if z == 64 {
            assert(z_of_code(symbol_code(element_symbol(64)->0)) == 64);
        } else if z == 65 {
            assert(z_of_code(symbol_code(element_symbol(65)->0)) == 65);
        } else if z == 66 {
            assert(z_of_code(symbol_code(element_symbol(66)->0)) == 66);
        } else if z == 67 {
            assert(z_of_code(symbol_code(element_symbol(67)->0)) == 67);
        } else if z == 68 {
            assert(z_of_code(symbol_code(element_symbol(68)->0)) == 68);
        } else if z == 69 {
            assert(z_of_code(symbol_code(element_symbol(69)->0)) == 69);
        } else if z == 70 {
            assert(z_of_code(symbol_code(element_symbol(70)->0)) == 70);
        } else if z == 71 {
            assert(z_of_code(symbol_code(element_symbol(71)->0)) == 71);
        } else if z == 72 {
            assert(z_of_code(symbol_code(element_symbol(72)->0)) == 72);
        } else if z == 73 {
            assert(z_of_code(symbol_code(element_symbol(73)->0)) == 73);
        } else if z == 74 {
            assert(z_of_code(symbol_code(element_symbol(74)->0)) == 74);
        } else if z == 75 {
            assert(z_of_code(symbol_code(element_symbol(75)->0)) == 75);
        } else if z == 76 {
            assert(z_of_code(symbol_code(element_symbol(76)->0)) == 76);
        } else if z == 77 {
            assert(z_of_code(symbol_code(element_symbol(77)->0)) == 77);
        } else if z == 78 {
            assert(z_of_code(symbol_code(element_symbol(78)->0)) == 78);
        } else if z == 79 {
            assert(z_of_code(symbol_code(element_symbol(79)->0)) == 79);
        } else if z == 80 {
            assert(z_of_code(symbol_code(element_symbol(80)->0)) == 80);
        } else if z == 81 {
            assert(z_of_code(symbol_code(element_symbol(81)->0)) == 81);
        } else if z == 82 {
            assert(z_of_code(symbol_code(element_symbol(82)->0)) == 82);
        } else if z == 83 {
            assert(z_of_code(symbol_code(element_symbol(83)->0)) == 83);
        } else if z == 84 {
            assert(z_of_code(symbol_code(element_symbol(84)->0)) == 84);
        } else if z == 85 {
            assert(z_of_code(symbol_code(element_symbol(85)->0)) == 85);
        } else if z == 86 {
            assert(z_of_code(symbol_code(element_symbol(86)->0)) == 86);
        } else if z == 87 {
            assert(z_of_code(symbol_code(element_symbol(87)->0)) == 87);
        } else if z == 88 {
            assert(z_of_code(symbol_code(element_symbol(88)->0)) == 88);
        } else if z == 89 {
            assert(z_of_code(symbol_code(element_symbol(89)->0)) == 89);
        } else if z == 90 {
            assert(z_of_code(symbol_code(element_symbol(90)->0)) == 90);
        } else if z == 91 {
            assert(z_of_code(symbol_code(element_symbol(91)->0)) == 91);
        } else if z == 92 {
            assert(z_of_code(symbol_code(element_symbol(92)->0)) == 92);
        }
    }
    assert forall|i: int, j: int| 0 <= i < ELEMENT_COUNT && 0 <= j < ELEMENT_COUNT && #[trigger] element_symbol(i) == #[trigger] element_symbol(j) implies i == j by {
        assert(z_of_code(symbol_code(element_symbol(i)->0)) == i);
        assert(z_of_code(symbol_code(element_symbol(j)->0)) == j);
    }
}

/// Look up element name from Z.
pub fn element_name(z: usize) -> (r: Option<&'static str>)
    ensures
        match r {
            Some(s) => element_symbol(z as int) == Some(s@),
            None => element_symbol(z as int) is None,
        },
{
    match z {
        0 => Some("none"),
        1 => Some("H"),
        2 => Some("He"),
        3 => Some("Li"),
        4 => Some("Be"),
        5 => Some("B"),
        6 => Some("C"),
        7 => Some("N"),
        8 => Some("O"),
        9 => Some("F"),
        10 => Some("Ne"),
        11 => Some("Na"),
        12 => Some("Mg"),
        13 => Some("Al"),
        14 => Some("Si"),
        15 => Some("P"),
        16 => Some("S"),
        17 => Some("Cl"),
        18 => Some("Ar"),
        19 => Some("K"),
        20 => Some("Ca"),
        21 => Some("Sc"),
        22 => Some("Ti"),
        23 => Some("V"),
        24 => Some("Cr"),
        25 => Some("Mn"),
        26 => Some("Fe"),
        27 => Some("Co"),
        28 => Some("Ni"),
        29 => Some("Cu"),
        30 => Some("Zn"),
        31 => Some("Ga"),
        32 => Some("Ge"),
        33 => Some("As"),
        34 => Some("Se"),
        35 => Some("Br"),
        36 => Some("Kr"),
        37 => Some("Rb"),
        38 => Some("Sr"),
        39 => Some("Y"),
        40 => Some("Zr"),
        41 => Some("Nb"),
        42 => Some("Mo"),
        43 => Some("Tc"),
        44 => Some("Ru"),
        45 => Some("Rh"),
        46 => Some("Pd"),
        47 => Some("Ag"),
        48 => Some("Cd"),
        49 => Some("In"),
        50 => Some("Sn"),
        51 => Some("Sb"),
        52 => Some("Te"),
        53 => Some("I"),
        54 => Some("Xe"),
        55 => Some("Cs"),
        56 => Some("Ba"),
        57 => Some("La"),
        58 => Some("Ce"),
        59 => Some("Pr"),
        60 => Some("Nd"),
        61 => Some("Pm"),
        62 => Some("Sm"),
        63 => Some("Eu"),
        64 => Some("Gd"),
        65 => Some("Tb"),
        66 => Some("Dy"),
        67 => Some("Ho"),
        68 => Some("Er"),
        69 => Some("Tm"),
        70 => Some("Yb"),
        71 => Some("Lu"),
        72 => Some("Hf"),
        73 => Some("Ta"),
        74 => Some("W"),
        75 => Some("Re"),
        76 => Some("Os"),
        77 => Some("Ir"),
        78 => Some("Pt"),
        79 => Some("Au"),
        80 => Some("Hg"),
        81 => Some("Tl"),
        82 => Some("Pb"),
        83 => Some("Bi"),
        84 => Some("Po"),
        85 => Some("At"),
        86 => Some("Rn"),
        87 => Some("Fr"),
        88 => Some("Ra"),
        89 => Some("Ac"),
        90 => Some("Th"),
        91 => Some("Pa"),
        92 => Some("U"),
        _ => None,
    }
}


/// Look up element Z (atomic number) from its symbol: the first position of
/// the table that holds `name`.
pub fn element_z(name: &str) -> (r: Option<usize>)
    ensures
        match r {
            Some(z) => element_symbol(z as int) == Some(name@) && forall|j: int|
                0 <= j < z ==> element_symbol(j) != Some(name@),
            None => forall|j: int| element_symbol(j) != Some(name@),
        },
{
    let mut z: usize = 0;
    while z < ELEMENT_COUNT
        invariant
            z <= ELEMENT_COUNT,
            forall|j: int| 0 <= j < z ==> element_symbol(j) != Some(name@),
        decreases ELEMENT_COUNT - z,
    {
        match element_name(z) {
            Some(symbol) => {
                if str_equal(symbol, name) {
                    return Some(z);
                }
            },
            None => {},
        }
        z = z + 1;
    }
    assert forall|j: int| element_symbol(j) != Some(name@) by {
        if 0 <= j < ELEMENT_COUNT {
            assert(j < z);
        }
    }
    None
}

/// The symbol of an element, looked up again, gives back its atomic number;
/// and a symbol that is found names the element it was found at.
pub proof fn lemma_element_roundtrip(z: int, name: Seq<char>)
    ensures
        0 <= z < ELEMENT_COUNT ==> element_symbol(z) is Some,
        element_symbol(z) == Some(name) ==> forall|j: int|
            0 <= j < ELEMENT_COUNT && #[trigger] element_symbol(j) == Some(name) ==> j == z,
{
    lemma_symbols_distinct();
}

/// How an element is named: by its atomic number written in decimal (which
/// must be in the table; otherwise the error text is `Z=<z>`), or else by its
/// symbol (which must be in the table; otherwise the error text is the name).
/// Gives the atomic number and the symbol.
pub open spec fn element_resolves(elem: Seq<char>, r: Result<(usize, Seq<char>), Seq<char>>) -> bool {
    match usize_of(elem) {
        Some(z) => match element_symbol(z as int) {
            Some(symbol) => r == Ok::<(usize, Seq<char>), Seq<char>>((z, symbol)),
            None => r == Err::<(usize, Seq<char>), Seq<char>>("Z="@ + decimal(z as nat)),
        },
        None => match r {
            Ok((z, symbol)) => symbol == elem && element_symbol(z as int) == Some(elem),
            Err(msg) => msg == elem && forall|j: int| element_symbol(j) != Some(elem),
        },
    }
}

/// Resolve an element given by symbol (e.g. "Si") or by atomic number as
/// text (e.g. "14") to its atomic number and symbol.
pub fn resolve_element(elem: &str) -> (r: Result<(usize, String), XrtError>)
    ensures
        element_resolves(
            elem@,
            match r {
                Ok((z, name)) => Ok((z, name@)),
                Err(XrtError::ElementNotFound(msg)) => Err(msg@),
                Err(_) => Err(Seq::<char>::empty()),
            },
        ),
        r is Err ==> r matches Err(XrtError::ElementNotFound(_)),
{
    match parse_usize(elem) {
        Some(z) => match element_name(z) {
            Some(symbol) => Ok((z, symbol.to_string())),
            None => {
                let mut msg = "Z=".to_string();
                let digits = decimal_text(z);
                msg.append(digits.as_str());
                Err(XrtError::ElementNotFound(msg))
            },
        },
        None => match element_z(elem) {
            Some(z) => Ok((z, elem.to_string())),
            None => Err(XrtError::ElementNotFound(elem.to_string())),
        },
    }
}

/// An element named by symbol resolves to the one atomic number that has it.
pub proof fn lemma_symbol_resolution_unique(elem: Seq<char>, z1: usize, z2: usize)
    requires
        element_symbol(z1 as int) == Some(elem),
        element_symbol(z2 as int) == Some(elem),
    ensures
        z1 == z2,
{
    lemma_symbols_distinct();
    assert(0 <= z1 < ELEMENT_COUNT);
    assert(0 <= z2 < ELEMENT_COUNT);
}

// ── Scattering tables ───────────────────────────────────────────────────────

/// Scattering factor table selection.
#[derive(Debug, Clone, Copy, PartialEq, Eq, Structural)]
pub enum ScatteringTable {
    /// Chantler (photoelectric only), 11 eV < E < 405 keV
    Chantler,
    /// Chantler with total absorption cross-sections
    ChantlerTotal,
    /// Henke, 10 eV < E < 30 keV
    Henke,
    /// Brennan & Cowan, 30 eV < E < 509 keV
    BrCo,
}

/// The table that a lower-cased name selects: `henke` anywhere gives Henke,
/// else `brco` or `brennan` gives Brennan & Cowan, else `total` gives Chantler
/// total, and anything else Chantler.
pub open spec fn table_named(lower: Seq<char>) -> ScatteringTable {
    if has_substring(lower, "henke"@) {
        ScatteringTable::Henke
    } else if has_substring(lower, "brco"@) || has_substring(lower, "brennan"@) {
        ScatteringTable::BrCo
    } else if has_substring(lower, "total"@) {
        ScatteringTable::ChantlerTotal
    } else {
        ScatteringTable::Chantler
    }
}

/// The NPZ file that holds a table.
pub open spec fn table_file(t: ScatteringTable) -> Seq<char> {
    match t {
        ScatteringTable::Chantler | ScatteringTable::ChantlerTotal => "Chantler.npz"@,
        ScatteringTable::Henke => "Henke.npz"@,
        ScatteringTable::BrCo => "BrCo.npz"@,
    }
}

/// The suffix of the f2 entry of a table.
pub open spec fn table_f2_suffix(t: ScatteringTable) -> Seq<char> {
    match t {
        ScatteringTable::ChantlerTotal => "_f2tot"@,
        _ => "_f2"@,
    }
}

impl ScatteringTable {
    /// Returns the NPZ filename (without path) for this table.
    pub fn filename(&self) -> (r: &'static str)
        ensures
            r@ == table_file(*self),
    {
        match self {
            ScatteringTable::Chantler | ScatteringTable::ChantlerTotal => "Chantler.npz",
            ScatteringTable::Henke => "Henke.npz",
            ScatteringTable::BrCo => "BrCo.npz",
        }
    }

    /// Returns the f2 key suffix for this table.
    pub fn f2_key_suffix(&self) -> (r: &'static str)
        ensures
            r@ == table_f2_suffix(*self),
    {
        match self {
            ScatteringTable::ChantlerTotal => "_f2tot",
            _ => "_f2",
        }
    }

    /// The table that an already lower-cased name selects.
    pub fn from_lowercase(lower: &str) -> (r: Self)
        ensures
            r == table_named(lower@),
    {
        if contains_str(lower, "henke") {
            ScatteringTable::Henke
        } else if contains_str(lower, "brco") || contains_str(lower, "brennan") {
            ScatteringTable::BrCo
        } else if contains_str(lower, "total") {
            ScatteringTable::ChantlerTotal
        } else {
            ScatteringTable::Chantler
        }
    }

    /// Parse from string (matching Python XRT conventions): the name is
    /// lower-cased, then read as [`ScatteringTable::from_lowercase`].
    pub fn from_str_xrt(s: &str) -> (r: Self)
        ensures
            r == table_named(lowercase_of(s@)),
    {
        let lower = to_lowercase(s);
        Self::from_lowercase(lower.as_str())
    }
}

/// The two Chantler tables share one file and differ only in the f2 entry.
pub proof fn lemma_chantler_tables_share_file()
    ensures
        table_file(ScatteringTable::Chantler) == table_file(ScatteringTable::ChantlerTotal),
        table_f2_suffix(ScatteringTable::Chantler) != table_f2_suffix(ScatteringTable::ChantlerTotal),
{
    reveal_strlit("_f2");
    reveal_strlit("_f2tot");
    assert("_f2"@.len() != "_f2tot"@.len());
}

/// The names of the energy, f1 and f2 arrays of an element inside a table's NPZ
/// file: `<element>_E.npy`, `<element>_f1.npy` and `<element><f2 suffix>.npy`.
pub fn f1f2_keys(element_name: &str, table: ScatteringTable) -> (r: (String, String, String))
    ensures
        r.0@ == element_name@ + "_E.npy"@,
        r.1@ == element_name@ + "_f1.npy"@,
        r.2@ == element_name@ + table_f2_suffix(table) + ".npy"@,
{
    let mut e_key = element_name.to_string();
    e_key.append("_E.npy");
    let mut f1_key = element_name.to_string();
    f1_key.append("_f1.npy");
    let mut f2_key = element_name.to_string();
    f2_key.append(table.f2_key_suffix());
    f2_key.append(".npy");
    (e_key, f1_key, f2_key)
}

// ── Numbers in messages ─────────────────────────────────────────────────────

/// The decimal digits of `n`, most significant first, without sign or padding.
pub open spec fn decimal(n: nat) -> Seq<char>
    decreases n,
{
    if n < 10 {
        seq![digit_char(n)]
    } else {
        decimal(n / 10).push(digit_char(n % 10))
    }
}

/// The ASCII character of a decimal digit.
pub open spec fn digit_char(d: nat) -> char {
    if d == 0 {
        '0'
    } else if d == 1 {
        '1'
    } else if d == 2 {
        '2'
    } else if d == 3 {
        '3'
    } else if d == 4 {
        '4'
    } else if d == 5 {
        '5'
    } else if d == 6 {
        '6'
    } else if d == 7 {
        '7'
    } else if d == 8 {
        '8'
    } else {
        '9'
    }
}

/// Reading back the decimal text of a number gives the number.
pub proof fn lemma_decimal_roundtrip(n: usize)
    ensures
        usize_of(decimal(n as nat)) == Some(n),
{
    lemma_decimal_digits(n as nat);
    let d = decimal(n as nat);
    assert(unsigned_digits(d) == d);
}

proof fn lemma_decimal_digits(n: nat)
    ensures
        decimal(n).len() > 0,
        decimal(n)[0] != '+',
        forall|i: int| 0 <= i < decimal(n).len() ==> is_digit(#[trigger] decimal(n)[i]),
        digits_value(decimal(n)) == n,
    decreases n,
{
    if n < 10 {
        assert(decimal(n).drop_last() =~= Seq::<char>::empty());
        assert(digit_value(digit_char(n)) == n);
        assert(digits_value(decimal(n)) == digits_value(Seq::<char>::empty()) * 10 + digit_value(digit_char(n)));
    } else {
        lemma_decimal_digits(n / 10);
        let d = decimal(n);
        assert(d.drop_last() =~= decimal(n / 10));
        assert(digit_value(digit_char(n % 10)) == n % 10);
        assert(d.last() == digit_char(n % 10));
        assert((n / 10) * 10 + n % 10 == n);
        assert(digits_value(d) == digits_value(d.drop_last()) * 10 + digit_value(d.last()));
        assert forall|i: int| 0 <= i < d.len() implies is_digit(#[trigger] d[i]) by {
            if i < d.len() - 1 {
                assert(d[i] == decimal(n / 10)[i]);
            }
        }
    }
}

/// The text of `n` as `ToString::to_string` writes it (`Display` of an
/// integer). Claimed: the decimal digits of `n`, most significant first, no
/// sign, no padding.
#[verifier::external_body]
fn decimal_text(n: usize) -> (r: String)
    ensures
        r@ == decimal(n as nat),
{
    n.to_string()
}

// ── Per-element tables ──────────────────────────────────────────────────────

/// The table filled from `entries` in order, a later entry for an atomic
/// number replacing an earlier one.
pub open spec fn table_of<T>(entries: Seq<(usize, T)>) -> Map<usize, T>
    decreases entries.len(),
{
    if entries.len() == 0 {
        Map::empty()
    } else {
        table_of(entries.drop_last()).insert(entries.last().0, entries.last().1)
    }
}

/// Collect per-element values by atomic number; a later entry for the same
/// atomic number replaces an earlier one.
pub fn build_element_table<T: Copy>(entries: &Vec<(usize, T)>) -> (r: HashMap<usize, T>)
    ensures
        r@ == table_of(entries@),
{
    let mut table: HashMap<usize, T> = HashMap::new();
    let mut i: usize = 0;
    while i < entries.len()
        invariant
            i <= entries@.len(),
            table@ == table_of(entries@.subrange(0, i as int)),
        decreases entries@.len() - i,
    {
        let (z, v) = entries[i];
        assert(entries@.subrange(0, i + 1).drop_last() =~= entries@.subrange(0, i as int));
        table.insert(z, v);
        i = i + 1;
    }
    assert(entries@.subrange(0, entries@.len() as int) =~= entries@);
    table
}

/// The value of an element in a table, or an `ElementNotFound` error naming
/// what is missing (`<what> not found for Z=<z>`).
fn lookup_element<T: Copy>(table: &HashMap<usize, T>, z: usize, what: &str) -> (r: Result<T, XrtError>)
    ensures
        match r {
            Ok(v) => table@.contains_key(z) && v == table@[z],
            Err(e) => !table@.contains_key(z) && (e matches XrtError::ElementNotFound(m) && m@
                == what@ + " not found for Z="@ + decimal(z as nat)),
        },
{
    match table.get(&z) {
        Some(v) => Ok(*v),
        None => {
            let mut msg = what.to_string();
            msg.append(" not found for Z=");
            let digits = decimal_text(z);
            msg.append(digits.as_str());
            Err(XrtError::ElementNotFound(msg))
        },
    }
}

/// Read the f0 coefficients for the element with atomic number `z` from the
/// table of parsed coefficients.
pub fn read_f0_coeffs<T: Copy>(table: &HashMap<usize, T>, z: usize) -> (r: Result<T, XrtError>)
    ensures
        match r {
            Ok(v) => table@.contains_key(z) && v == table@[z],
            Err(e) => !table@.contains_key(z) && (e matches XrtError::ElementNotFound(m) && m@
                == "f0 coefficients not found for Z="@ + decimal(z as nat)),
        },
{
    proof {
        reveal_strlit("f0 coefficients");
        reveal_strlit(" not found for Z=");
        reveal_strlit("f0 coefficients not found for Z=");
        assert("f0 coefficients"@ + " not found for Z="@ =~= "f0 coefficients not found for Z="@);
    }
    lookup_element(table, z, "f0 coefficients")
}

/// Read the atomic mass of the element with atomic number `z` from the table
/// of parsed masses.
pub fn read_atomic_mass<T: Copy>(table: &HashMap<usize, T>, z: usize) -> (r: Result<T, XrtError>)
    ensures
        match r {
            Ok(v) => table@.contains_key(z) && v == table@[z],
            Err(e) => !table@.contains_key(z) && (e matches XrtError::ElementNotFound(m) && m@
                == "atomic mass not found for Z="@ + decimal(z as nat)),
        },
{
    proof {
        reveal_strlit("atomic mass");
        reveal_strlit(" not found for Z=");
        reveal_strlit("atomic mass not found for Z=");
        assert("atomic mass"@ + " not found for Z="@ =~= "atomic mass not found for Z="@);
    }
    lookup_element(table, z, "atomic mass")
}

/// What a table built from entries gives back for an atomic number: the value
/// of the last entry for it, or nothing if there is none.
pub proof fn lemma_table_read_back<T>(entries: Seq<(usize, T)>, z: usize)
    ensures
        table_of(entries).contains_key(z) <==> exists|k: int| 0 <= k < entries.len() && #[trigger] entries[k].0 == z,
        forall|k: int| 0 <= k < entries.len() && entries[k].0 == z && (forall|l: int| k < l < entries.len() ==> #[trigger] entries[l].0 != z)
            ==> table_of(entries)[z] == #[trigger] entries[k].1,
    decreases entries.len(),
{
    if entries.len() > 0 {
        let t = entries.drop_last();
        lemma_table_read_back(t, z);
        if table_of(t).contains_key(z) {
            let k = choose|k: int| 0 <= k < t.len() && #[trigger] t[k].0 == z;
            assert(entries[k].0 == z);
        }
        if exists|k: int| 0 <= k < entries.len() && #[trigger] entries[k].0 == z {
            let k = choose|k: int| 0 <= k < entries.len() && #[trigger] entries[k].0 == z;
            if k < t.len() {
                assert(t[k].0 == z);
            }
        }
        assert forall|k: int| 0 <= k < entries.len() && entries[k].0 == z && (forall|l: int| k < l < entries.len() ==> #[trigger] entries[l].0 != z)
            implies table_of(entries)[z] == #[trigger] entries[k].1 by {
            if k < t.len() {
                assert(entries[k] == t[k]);
                assert forall|l: int| k < l < t.len() implies #[trigger] t[l].0 != z by {
                    assert(t[l] == entries[l]);
                }
            }
        }
    }
}

// ── f0_xop.dat ──────────────────────────────────────────────────────────────

/// Where the scan of `f0_xop.dat` stands: the atomic number of the current
/// section, if any, and whether its `#UP` line is still to come.
#[derive(Debug, Clone, Copy, PartialEq, Eq, Structural)]
pub struct F0ScanState {
    pub current_z: Option<usize>,
    pub looking_for_up: bool,
}

/// One line of the scan. A `#S <z> ...` line opens the section of element
/// `z`; the `#UP` line that follows it closes the header; after that the
/// first line that does not start with `#` and holds 11 numbers (`n_numbers`:
/// how many of its words read as floating-point numbers) holds the
/// coefficients of `z`, which is reported, and the section is done.
pub open spec fn f0_step(st: F0ScanState, line: Seq<char>, n_numbers: nat) -> (F0ScanState, Option<usize>) {
    if has_prefix(line, "#S"@) {
        let f = words(line);
        if f.len() >= 2 && usize_of(f[1]) is Some {
            (F0ScanState { current_z: usize_of(f[1]), looking_for_up: true }, None)
        } else {
            (st, None)
        }
    } else if st.looking_for_up && has_prefix(line, "#UP"@) {
        (F0ScanState { current_z: st.current_z, looking_for_up: false }, None)
    } else if st.current_z is Some && !st.looking_for_up && !has_prefix(line, "#"@) && n_numbers == 11 {
        (F0ScanState { current_z: None, looking_for_up: false }, st.current_z)
    } else {
        (st, None)
    }
}

/// The state after scanning `lines`, and the coefficient lines found, each
/// as (atomic number, line position), in file order.
pub open spec fn f0_scan(lines: Seq<Seq<char>>, n_numbers: Seq<usize>) -> (F0ScanState, Seq<(usize, usize)>)
    decreases lines.len(),
{
    if lines.len() == 0 {
        (F0ScanState { current_z: None, looking_for_up: false }, Seq::empty())
    } else {
        let (st, found) = f0_scan(lines.drop_last(), n_numbers.drop_last());
        let (next, hit) = f0_step(st, lines.last(), n_numbers[lines.len() - 1] as nat);
        match hit {
            Some(z) => (next, found.push((z, (lines.len() - 1) as usize))),
            None => (next, found),
        }
    }
}

impl F0ScanState {
    /// The state before the first line.
    pub fn new() -> (r: Self)
        ensures
            r == (F0ScanState { current_z: None, looking_for_up: false }),
    {
        F0ScanState { current_z: None, looking_for_up: false }
    }

    /// Scan one line (see [`f0_step`]); `n_numbers` is how many of the line's
    /// words read as floating-point numbers. Returns the atomic number whose
    /// coefficients the line holds, if it holds some.
    pub fn step(&mut self, line: &str, n_numbers: usize) -> (r: Option<usize>)
        ensures
            (*final(self), r) == f0_step(*old(self), line@, n_numbers as nat),
    {
        if starts_with_str(line, "#S") {
            let fields = split_whitespace_str(line);
            proof {
                assert(fields@.map_values(|w: &str| w@).len() == fields@.len());
            }
            if fields.len() >= 2 {
                proof {
                    assert(fields@.map_values(|w: &str| w@)[1] == fields@[1]@);
                }
                match parse_usize(fields[1]) {
                    Some(z) => {
                        self.current_z = Some(z);
                        self.looking_for_up = true;
                    },
                    None => {},
                }
            }
            None
        } else if self.looking_for_up && starts_with_str(line, "#UP") {
            self.looking_for_up = false;
            None
        } else {
            match self.current_z {
                Some(z) => {
                    if !self.looking_for_up && !starts_with_str(line, "#") && n_numbers == 11 {
                        self.current_z = None;
                        Some(z)
                    } else {
                        None
                    }
                },
                None => None,
            }
        }
    }
}

/// Scan the lines of `f0_xop.dat` for coefficient lines; `n_numbers[i]` is how
/// many words of line `i` read as floating-point numbers. Returns each
/// coefficient line as (atomic number, line position), in file order.
pub fn parse_f0_data(lines: &Vec<&str>, n_numbers: &Vec<usize>) -> (r: Vec<(usize, usize)>)
    requires
        lines@.len() == n_numbers@.len(),
    ensures
        r@ == f0_scan(lines@.map_values(|l: &str| l@), n_numbers@).1,
        forall|k: int| 0 <= k < r@.len() ==> (#[trigger] r@[k]).1 < lines@.len() && n_numbers@[r@[k].1 as int] == 11
            && !has_prefix(lines@[r@[k].1 as int]@, "#"@),
{
    let mut st = F0ScanState::new();
    let mut found: Vec<(usize, usize)> = Vec::new();
    let mut i: usize = 0;
    let ghost views = lines@.map_values(|l: &str| l@);
    while i < lines.len()
        invariant
            i <= lines@.len(),
            lines@.len() == n_numbers@.len(),
            views == lines@.map_values(|l: &str| l@),
            (st, found@) == f0_scan(views.subrange(0, i as int), n_numbers@.subrange(0, i as int)),
            forall|k: int| 0 <= k < found@.len() ==> (#[trigger] found@[k]).1 < i && n_numbers@[found@[k].1 as int] == 11
                && !has_prefix(lines@[found@[k].1 as int]@, "#"@),
        decreases lines@.len() - i,
    {
        proof {
            assert(views.subrange(0, i + 1).drop_last() =~= views.subrange(0, i as int));
            assert(n_numbers@.subrange(0, i + 1).drop_last() =~= n_numbers@.subrange(0, i as int));
            assert(views.subrange(0, i + 1).last() == lines@[i as int]@);
        }
        match st.step(lines[i], n_numbers[i]) {
            Some(z) => {
                found.push((z, i));
            },
            None => {},
        }
        i = i + 1;
    }
    assert(views.subrange(0, lines@.len() as int) =~= views);
    assert(n_numbers@.subrange(0, lines@.len() as int) =~= n_numbers@);
    found
}

// ── AtomicData.dat ──────────────────────────────────────────────────────────

/// The record that a line of `AtomicData.dat` holds, if any: after trimming,
/// empty lines, comments (`#`) and the header row (`0 `) hold none; a line of
/// at least four words whose first word is an atomic number holds that number
/// and its fourth word, the atomic mass.
pub open spec fn atomic_record(line: Seq<char>) -> Option<(usize, Seq<char>)> {
    let t = trimmed(line);
    if t.len() == 0 || has_prefix(t, "#"@) || has_prefix(t, "0 "@) {
        None
    } else {
        let f = words(t);
        if f.len() >= 4 && usize_of(f[0]) is Some {
            Some((usize_of(f[0])->0, f[3]))
        } else {
            None
        }
    }
}

/// The atomic number and the text of the atomic mass that a line of
/// `AtomicData.dat` holds, if it holds a record.
pub fn atomic_data_record(line: &str) -> (r: Option<(usize, &str)>)
    ensures
        match r {
            Some((z, mass)) => atomic_record(line@) == Some((z, mass@)),
            None => atomic_record(line@) is None,
        },
{
    let t = trim_str(line);
    if t.unicode_len() == 0 || starts_with_str(t, "#") || starts_with_str(t, "0 ") {
        return None;
    }
    let fields = split_whitespace_str(t);
    proof {
        assert(fields@.map_values(|w: &str| w@).len() == fields@.len());
    }
    if fields.len() >= 4 {
        proof {
            assert(fields@.map_values(|w: &str| w@)[0] == fields@[0]@);
            assert(fields@.map_values(|w: &str| w@)[3] == fields@[3]@);
        }
        match parse_usize(fields[0]) {
            Some(z) => Some((z, fields[3])),
            None => None,
        }
    } else {
        None
    }
}

/// The record of a line of `AtomicData.dat` is read from the words of the
/// line itself: its atomic number is the first word and its mass the fourth,
/// however many words follow; and a line of at least four words whose first
/// word is an atomic number, and that is not empty, a comment or the header,
/// always holds that record.
pub proof fn lemma_atomic_record_words(line: Seq<char>)
    ensures
        atomic_record(line) matches Some((z, mass)) ==> {
            &&& words(line).len() >= 4
            &&& usize_of(words(line)[0]) == Some(z)
            &&& mass == words(line)[3]
        },
        ({
            let t = trimmed(line);
            let w = words(line);
            t.len() > 0 && !has_prefix(t, "#"@) && !has_prefix(t, "0 "@) && w.len() >= 4
                && usize_of(w[0]) is Some
        }) ==> atomic_record(line) == Some((usize_of(words(line)[0])->0, words(line)[3])),
{
    lemma_trimmed_words(line);
}

/// Every table other than Chantler with total cross-sections names its f2
/// array with the suffix `_f2`; Chantler-total uses `_f2tot`.
pub proof fn lemma_f2_suffixes(t: ScatteringTable)
    ensures
        t != ScatteringTable::ChantlerTotal ==> table_f2_suffix(t) == seq!['_', 'f', '2'],
        table_f2_suffix(ScatteringTable::ChantlerTotal) == seq!['_', 'f', '2', 't', 'o', 't'],
        table_file(ScatteringTable::Chantler) == seq!['C', 'h', 'a', 'n', 't', 'l', 'e', 'r', '.', 'n', 'p', 'z'],
        table_file(ScatteringTable::ChantlerTotal) == table_file(ScatteringTable::Chantler),
        table_file(ScatteringTable::Henke) == seq!['H', 'e', 'n', 'k', 'e', '.', 'n', 'p', 'z'],
        table_file(ScatteringTable::BrCo) == seq!['B', 'r', 'C', 'o', '.', 'n', 'p', 'z'],
{
    reveal_strlit("_f2");
    reveal_strlit("_f2tot");
    reveal_strlit("Chantler.npz");
    reveal_strlit("Henke.npz");
    reveal_strlit("BrCo.npz");
    assert("_f2"@ =~= seq!['_', 'f', '2']);
    assert("_f2tot"@ =~= seq!['_', 'f', '2', 't', 'o', 't']);
    assert("Chantler.npz"@ =~= seq!['C', 'h', 'a', 'n', 't', 'l', 'e', 'r', '.', 'n', 'p', 'z']);
    assert("Henke.npz"@ =~= seq!['H', 'e', 'n', 'k', 'e', '.', 'n', 'p', 'z']);
    assert("BrCo.npz"@ =~= seq!['B', 'r', 'C', 'o', '.', 'n', 'p', 'z']);
}

/// Every atomic number of the table, written in decimal, resolves to that
/// element: its number and its symbol in the table. The table holds the 92
/// elements from hydrogen (1) to uranium (92) after the placeholder at 0.
pub proof fn lemma_numbers_resolve(z: usize)
    requires
        z < ELEMENT_COUNT,
    ensures
        element_symbol(z as int) is Some,
        element_resolves(decimal(z as nat), Ok((z, element_symbol(z as int)->0))),
        element_symbol(1) == Some(seq!['H']),
        element_symbol(14) == Some(seq!['S', 'i']),
        element_symbol(92) == Some(seq!['U']),
        element_symbol(ELEMENT_COUNT as int) is None,
{
    lemma_element_roundtrip(z as int, seq![]);
    lemma_decimal_roundtrip(z);
    reveal_strlit("H");
    reveal_strlit("Si");
    reveal_strlit("U");
    assert("H"@ =~= seq!['H']);
    assert("Si"@ =~= seq!['S', 'i']);
    assert("U"@ =~= seq!['U']);
}

} // verus!
