//! The phonemes of ARPABET: consonants, vowels with their stress, and the
//! tokens that name them.
//!
//! Every symbol has one upper-case token. A consonant's token is its name; a
//! vowel's token is its name followed by the digit of its stress, or by
//! nothing where the stress is unknown.

use vstd::prelude::*;

verus! {

/// Consonants in ARPABET.
#[derive(Copy, Clone, Debug, PartialEq, Eq, Structural)]
pub enum Consonant {
    /// B, as in _b_uy.
    B,
    /// CH, as in _Ch_ina.
    CH,
    /// D, as in _d_ie.
    D,
    /// DH, as in _th_y.
    DH,
    /// DX, as in bu_tt_er.
    DX,
    /// EL, as in bott_le_.
    EL,
    /// EM, as in rhyth_m_.
    EM,
    /// EN, as in butt_on_.
    EN,
    /// F, as in _f_ight.
    F,
    /// G, as in _g_uy.
    G,
    /// HH, as in _h_igh.
    HH,
    /// JH, as in _j_ive.
    JH,
    /// K, as in _k_ite.
    K,
    /// L, as in _l_ie.
    L,
    /// M, as in _m_y.
    M,
    /// N, as in _n_igh.
    N,
    /// NG, as in si_ng_.
    NG,
    /// NX, as in wi_nn_er.
    NX,
    /// P, as in _p_ie.
    P,
    /// Q, the glottal stop, as in _uh-oh_.
    Q,
    /// R, as in _r_ye.
    R,
    /// S, as in _s_igh.
    S,
    /// SH, as in _sh_y.
    SH,
    /// T, as in _t_ie.
    T,
    /// TH, as in _th_igh.
    TH,
    /// V, as in _v_ie.
    V,
    /// W, as in _w_ise.
    W,
    /// WH, as in _wh_y.
    WH,
    /// Y, as in _y_acht.
    Y,
    /// Z, as in _z_oo.
    Z,
    /// ZH, as in plea_s_ure.
    ZH,
}

impl Consonant {
    /// The token of a consonant, as a sequence of characters.
    pub open spec fn token(self) -> Seq<char> {
        match self {
            Consonant::B => seq!['B'],
            Consonant::CH => seq!['C', 'H'],
            Consonant::D => seq!['D'],
            Consonant::DH => seq!['D', 'H'],
            Consonant::DX => seq!['D', 'X'],
            Consonant::EL => seq!['E', 'L'],
            Consonant::EM => seq!['E', 'M'],
            Consonant::EN => seq!['E', 'N'],
            Consonant::F => seq!['F'],
            Consonant::G => seq!['G'],
            Consonant::HH => seq!['H', 'H'],
            Consonant::JH => seq!['J', 'H'],
            Consonant::K => seq!['K'],
            Consonant::L => seq!['L'],
            Consonant::M => seq!['M'],
            Consonant::N => seq!['N'],
            Consonant::NG => seq!['N', 'G'],
            Consonant::NX => seq!['N', 'X'],
            Consonant::P => seq!['P'],
            Consonant::Q => seq!['Q'],
            Consonant::R => seq!['R'],
            Consonant::S => seq!['S'],
            Consonant::SH => seq!['S', 'H'],
            Consonant::T => seq!['T'],
            Consonant::TH => seq!['T', 'H'],
            Consonant::V => seq!['V'],
            Consonant::W => seq!['W'],
            Consonant::WH => seq!['W', 'H'],
            Consonant::Y => seq!['Y'],
            Consonant::Z => seq!['Z'],
            Consonant::ZH => seq!['Z', 'H'],
        }
    }

    /// The place of a consonant in the alphabetical list of consonants,
    /// counted from zero.
    pub open spec fn rank(self) -> int {
        match self {
            Consonant::B => 0,
            Consonant::CH => 1,
            Consonant::D => 2,
            Consonant::DH => 3,
            Consonant::DX => 4,
            Consonant::EL => 5,
            Consonant::EM => 6,
            Consonant::EN => 7,
            Consonant::F => 8,
            Consonant::G => 9,
            Consonant::HH => 10,
            Consonant::JH => 11,
            Consonant::K => 12,
            Consonant::L => 13,
            Consonant::M => 14,
            Consonant::N => 15,
            Consonant::NG => 16,
            Consonant::NX => 17,
            Consonant::P => 18,
            Consonant::Q => 19,
            Consonant::R => 20,
            Consonant::S => 21,
            Consonant::SH => 22,
            Consonant::T => 23,
            Consonant::TH => 24,
            Consonant::V => 25,
            Consonant::W => 26,
            Consonant::WH => 27,
            Consonant::Y => 28,
            Consonant::Z => 29,
            Consonant::ZH => 30,
        }
    }

    /// The consonant at a place in the alphabetical list of consonants.
    /// Places run from 0 to 30.
    pub open spec fn at(rank: int) -> Consonant {
        if rank == 0 {
            Consonant::B
        } else if rank == 1 {
            Consonant::CH
        } else if rank == 2 {
            Consonant::D
        } else if rank == 3 {
            Consonant::DH
        } else if rank == 4 {
            Consonant::DX
        } else if rank == 5 {
            Consonant::EL
        } else if rank == 6 {
            Consonant::EM
        } else if rank == 7 {
            Consonant::EN
        } else if rank == 8 {
            Consonant::F
        } else if rank == 9 {
            Consonant::G
        } else if rank == 10 {
            Consonant::HH
        } else if rank == 11 {
            Consonant::JH
        } else if rank == 12 {
            Consonant::K
        } else if rank == 13 {
            Consonant::L
        } else if rank == 14 {
            Consonant::M
        } else if rank == 15 {
            Consonant::N
        } else if rank == 16 {
            Consonant::NG
        } else if rank == 17 {
            Consonant::NX
        } else if rank == 18 {
            Consonant::P
        } else if rank == 19 {
            Consonant::Q
        } else if rank == 20 {
            Consonant::R
        } else if rank == 21 {
            Consonant::S
        } else if rank == 22 {
            Consonant::SH
        } else if rank == 23 {
            Consonant::T
        } else if rank == 24 {
            Consonant::TH
        } else if rank == 25 {
            Consonant::V
        } else if rank == 26 {
            Consonant::W
        } else if rank == 27 {
            Consonant::WH
        } else if rank == 28 {
            Consonant::Y
        } else if rank == 29 {
            Consonant::Z
        } else {
            Consonant::ZH
        }
    }

    /// Represent a consonant as a string.
    pub fn to_str(&self) -> (s: &'static str)
        ensures
            s@ == self.token(),
    {
        match self {
            Consonant::B => {
                assert("B"@ =~= seq!['B']) by {
                    reveal_strlit("B");
                }
                "B"
            },
            Consonant::CH => {
                assert("CH"@ =~= seq!['C', 'H']) by {
                    reveal_strlit("CH");
                }
                "CH"
            },
            Consonant::D => {
                assert("D"@ =~= seq!['D']) by {
                    reveal_strlit("D");
                }
                "D"
            },
            Consonant::DH => {
                assert("DH"@ =~= seq!['D', 'H']) by {
                    reveal_strlit("DH");
                }
                "DH"
            },
            Consonant::DX => {
                assert("DX"@ =~= seq!['D', 'X']) by {
                    reveal_strlit("DX");
                }
                "DX"
            },
            Consonant::EL => {
                assert("EL"@ =~= seq!['E', 'L']) by {
                    reveal_strlit("EL");
                }
                "EL"
            },
            Consonant::EM => {
                assert("EM"@ =~= seq!['E', 'M']) by {
                    reveal_strlit("EM");
                }
                "EM"
            },
            Consonant::EN => {
                assert("EN"@ =~= seq!['E', 'N']) by {
                    reveal_strlit("EN");
                }
                "EN"
            },
            Consonant::F => {
                assert("F"@ =~= seq!['F']) by {
                    reveal_strlit("F");
                }
                "F"
            },
            Consonant::G => {
                assert("G"@ =~= seq!['G']) by {
                    reveal_strlit("G");
                }
                "G"
            },
            Consonant::HH => {
                assert("HH"@ =~= seq!['H', 'H']) by {
                    reveal_strlit("HH");
                }
                "HH"
            },
            Consonant::JH => {
                assert("JH"@ =~= seq!['J', 'H']) by {
                    reveal_strlit("JH");
                }
                "JH"
            },
            Consonant::K => {
                assert("K"@ =~= seq!['K']) by {
                    reveal_strlit("K");
                }
                "K"
            },
            Consonant::L => {
                assert("L"@ =~= seq!['L']) by {
                    reveal_strlit("L");
                }
                "L"
            },
            Consonant::M => {
                assert("M"@ =~= seq!['M']) by {
                    reveal_strlit("M");
                }
                "M"
            },
            Consonant::N => {
                assert("N"@ =~= seq!['N']) by {
                    reveal_strlit("N");
                }
                "N"
            },
            Consonant::NG => {
                assert("NG"@ =~= seq!['N', 'G']) by {
                    reveal_strlit("NG");
                }
                "NG"
            },
            Consonant::NX => {
                assert("NX"@ =~= seq!['N', 'X']) by {
                    reveal_strlit("NX");
                }
                "NX"
            },
            Consonant::P => {
                assert("P"@ =~= seq!['P']) by {
                    reveal_strlit("P");
                }
                "P"
            },
            Consonant::Q => {
                assert("Q"@ =~= seq!['Q']) by {
                    reveal_strlit("Q");
                }
                "Q"
            },
            Consonant::R => {
                assert("R"@ =~= seq!['R']) by {
                    reveal_strlit("R");
                }
                "R"
            },
            Consonant::S => {
                assert("S"@ =~= seq!['S']) by {
                    reveal_strlit("S");
                }
                "S"
            },
            Consonant::SH => {
                assert("SH"@ =~= seq!['S', 'H']) by {
                    reveal_strlit("SH");
                }
                "SH"
            },
            Consonant::T => {
                assert("T"@ =~= seq!['T']) by {
                    reveal_strlit("T");
                }
                "T"
            },
            Consonant::TH => {
                assert("TH"@ =~= seq!['T', 'H']) by {
                    reveal_strlit("TH");
                }
                "TH"
            },
            Consonant::V => {
                assert("V"@ =~= seq!['V']) by {
                    reveal_strlit("V");
                }
                "V"
            },
            Consonant::W => {
                assert("W"@ =~= seq!['W']) by {
                    reveal_strlit("W");
                }
                "W"
            },
            Consonant::WH => {
                assert("WH"@ =~= seq!['W', 'H']) by {
                    reveal_strlit("WH");
                }
                "WH"
            },
            Consonant::Y => {
                assert("Y"@ =~= seq!['Y']) by {
                    reveal_strlit("Y");
                }
                "Y"
            },
            Consonant::Z => {
                assert("Z"@ =~= seq!['Z']) by {
                    reveal_strlit("Z");
                }
                "Z"
            },
            Consonant::ZH => {
                assert("ZH"@ =~= seq!['Z', 'H']) by {
                    reveal_strlit("ZH");
                }
                "ZH"
            },
        }
    }
}

/// A stress value for a single vowel.
#[derive(Copy, Clone, Debug, PartialEq, Eq, Structural)]
pub enum VowelStress {
    /// An unknown amount of stress, perhaps due to omission.
    /// ARPABET has no such value; it stands for a vowel written without a digit.
    UnknownStress,
    /// Denotes a vowel with no stress.
    NoStress,
    /// Denotes a vowel with the primary stress.
    PrimaryStress,
    /// Denotes a vowel with secondary stress.
    SecondaryStress,
}

impl VowelStress {
    /// The number that stands for a stress: -1 where it is unknown.
    pub open spec fn number(self) -> int {
        match self {
            VowelStress::UnknownStress => -1,
            VowelStress::NoStress => 0,
            VowelStress::PrimaryStress => 1,
            VowelStress::SecondaryStress => 2,
        }
    }

    /// The stress that a number stands for. The numbers run from -1 to 2.
    pub open spec fn of_number(number: int) -> VowelStress {
        if number == -1 {
            VowelStress::UnknownStress
        } else if number == 0 {
            VowelStress::NoStress
        } else if number == 1 {
            VowelStress::PrimaryStress
        } else {
            VowelStress::SecondaryStress
        }
    }

    /// What a stress adds to the name of a vowel: its digit, or nothing where
    /// it is unknown.
    pub open spec fn suffix(self) -> Seq<char> {
        match self {
            VowelStress::UnknownStress => Seq::empty(),
            VowelStress::NoStress => seq!['0'],
            VowelStress::PrimaryStress => seq!['1'],
            VowelStress::SecondaryStress => seq!['2'],
        }
    }

    /// Get the numeric value for vowel stress. (Unknown stress is -1.)
    pub fn to_i(&self) -> (n: i8)
        ensures
            n == self.number(),
    {
        match self {
            VowelStress::UnknownStress => -1,
            VowelStress::NoStress => 0,
            VowelStress::PrimaryStress => 1,
            VowelStress::SecondaryStress => 2,
        }
    }
}

/// Vowels in ARPABET.
#[derive(Copy, Clone, Debug, PartialEq, Eq, Structural)]
pub enum Vowel {
    /// AA, as in b_al_m or b_o_t.
    AA(VowelStress),
    /// AE, as in b_a_t.
    AE(VowelStress),
    /// AH, as in b_u_tt.
    AH(VowelStress),
    /// AO, as in st_o_ry.
    AO(VowelStress),
    /// AW, as in b_ou_t.
    AW(VowelStress),
    /// AX, as in comm_a_.
    AX(VowelStress),
    /// AXR, as in lett_er_.
    AXR(VowelStress),
    /// AY, as in b_i_te.
    AY(VowelStress),
    /// EH, as in b_e_t.
    EH(VowelStress),
    /// ER, as in b_i_rd.
    ER(VowelStress),
    /// EY, as in b_ai_t.
    EY(VowelStress),
    /// IH, as in b_i_t.
    IH(VowelStress),
    /// IX, as in ros_e_s or rabb_i_t.
    IX(VowelStress),
    /// IY, as in b_ea_t.
    IY(VowelStress),
    /// OW, as in b_oa_t.
    OW(VowelStress),
    /// OY, as in b_oy_.
    OY(VowelStress),
    /// UH, as in b_oo_k.
    UH(VowelStress),
    /// UW, as in b_oo_t.
    UW(VowelStress),
    /// UX, as in d_u_de.
    UX(VowelStress),
}

impl Vowel {
    /// The stress that a vowel carries.
    pub open spec fn stress(self) -> VowelStress {
        match self {
            Vowel::AA(stress) => stress,
            Vowel::AE(stress) => stress,
            Vowel::AH(stress) => stress,
            Vowel::AO(stress) => stress,
            Vowel::AW(stress) => stress,
            Vowel::AX(stress) => stress,
            Vowel::AXR(stress) => stress,
            Vowel::AY(stress) => stress,
            Vowel::EH(stress) => stress,
            Vowel::ER(stress) => stress,
            Vowel::EY(stress) => stress,
            Vowel::IH(stress) => stress,
            Vowel::IX(stress) => stress,
            Vowel::IY(stress) => stress,
            Vowel::OW(stress) => stress,
            Vowel::OY(stress) => stress,
            Vowel::UH(stress) => stress,
            Vowel::UW(stress) => stress,
            Vowel::UX(stress) => stress,
        }
    }

    /// The name of a vowel, without its stress.
    pub open spec fn base_token(self) -> Seq<char> {
        match self {
            Vowel::AA(_) => seq!['A', 'A'],
            Vowel::AE(_) => seq!['A', 'E'],
            Vowel::AH(_) => seq!['A', 'H'],
            Vowel::AO(_) => seq!['A', 'O'],
            Vowel::AW(_) => seq!['A', 'W'],
            Vowel::AX(_) => seq!['A', 'X'],
            Vowel::AXR(_) => seq!['A', 'X', 'R'],
            Vowel::AY(_) => seq!['A', 'Y'],
            Vowel::EH(_) => seq!['E', 'H'],
            Vowel::ER(_) => seq!['E', 'R'],
            Vowel::EY(_) => seq!['E', 'Y'],
            Vowel::IH(_) => seq!['I', 'H'],
            Vowel::IX(_) => seq!['I', 'X'],
            Vowel::IY(_) => seq!['I', 'Y'],
            Vowel::OW(_) => seq!['O', 'W'],
            Vowel::OY(_) => seq!['O', 'Y'],
            Vowel::UH(_) => seq!['U', 'H'],
            Vowel::UW(_) => seq!['U', 'W'],
            Vowel::UX(_) => seq!['U', 'X'],
        }
    }

    /// The place of a vowel's name in the alphabetical list of vowel names,
    /// counted from zero.
    pub open spec fn rank(self) -> int {
        match self {
            Vowel::AA(_) => 0,
            Vowel::AE(_) => 1,
            Vowel::AH(_) => 2,
            Vowel::AO(_) => 3,
            Vowel::AW(_) => 4,
            Vowel::AX(_) => 5,
            Vowel::AXR(_) => 6,
            Vowel::AY(_) => 7,
            Vowel::EH(_) => 8,
            Vowel::ER(_) => 9,
            Vowel::EY(_) => 10,
            Vowel::IH(_) => 11,
            Vowel::IX(_) => 12,
            Vowel::IY(_) => 13,
            Vowel::OW(_) => 14,
            Vowel::OY(_) => 15,
            Vowel::UH(_) => 16,
            Vowel::UW(_) => 17,
            Vowel::UX(_) => 18,
        }
    }

    /// The vowel whose name is at a place in the alphabetical list of vowel
    /// names, with a given stress. Places run from 0 to 18.
    pub open spec fn at(rank: int, stress: VowelStress) -> Vowel {
        if rank == 0 {
            Vowel::AA(stress)
        } else if rank == 1 {
            Vowel::AE(stress)
        } else if rank == 2 {
            Vowel::AH(stress)
        } else if rank == 3 {
            Vowel::AO(stress)
        } else if rank == 4 {
            Vowel::AW(stress)
        } else if rank == 5 {
            Vowel::AX(stress)
        } else if rank == 6 {
            Vowel::AXR(stress)
        } else if rank == 7 {
            Vowel::AY(stress)
        } else if rank == 8 {
            Vowel::EH(stress)
        } else if rank == 9 {
            Vowel::ER(stress)
        } else if rank == 10 {
            Vowel::EY(stress)
        } else if rank == 11 {
            Vowel::IH(stress)
        } else if rank == 12 {
            Vowel::IX(stress)
        } else if rank == 13 {
            Vowel::IY(stress)
        } else if rank == 14 {
            Vowel::OW(stress)
        } else if rank == 15 {
            Vowel::OY(stress)
        } else if rank == 16 {
            Vowel::UH(stress)
        } else if rank == 17 {
            Vowel::UW(stress)
        } else {
            Vowel::UX(stress)
        }
    }

    /// The token of a vowel: its name, then the digit of its stress.
    pub open spec fn token(self) -> Seq<char> {
        self.base_token() + self.stress().suffix()
    }

    /// Get the stress level of the vowel.
    pub fn get_stress(&self) -> (stress: &VowelStress)
        ensures
            *stress == self.stress(),
    {
        match self {
            Vowel::AA(stress) => stress,
            Vowel::AE(stress) => stress,
            Vowel::AH(stress) => stress,
            Vowel::AO(stress) => stress,
            Vowel::AW(stress) => stress,
            Vowel::AX(stress) => stress,
            Vowel::AXR(stress) => stress,
            Vowel::AY(stress) => stress,
            Vowel::EH(stress) => stress,
            Vowel::ER(stress) => stress,
            Vowel::EY(stress) => stress,
            Vowel::IH(stress) => stress,
            Vowel::IX(stress) => stress,
            Vowel::IY(stress) => stress,
            Vowel::OW(stress) => stress,
            Vowel::OY(stress) => stress,
            Vowel::UH(stress) => stress,
            Vowel::UW(stress) => stress,
            Vowel::UX(stress) => stress,
        }
    }

    /// Get the string representation of the vowel phoneme, without the stress.
    pub fn to_str_stressless(&self) -> (s: &'static str)
        ensures
            s@ == self.base_token(),
    {
        match self {
            Vowel::AA(_) => {
                assert("AA"@ =~= seq!['A', 'A']) by {
                    reveal_strlit("AA");
                }
                "AA"
            },
            Vowel::AE(_) => {
                assert("AE"@ =~= seq!['A', 'E']) by {
                    reveal_strlit("AE");
                }
                "AE"
            },
            Vowel::AH(_) => {
                assert("AH"@ =~= seq!['A', 'H']) by {
                    reveal_strlit("AH");
                }
                "AH"
            },
            Vowel::AO(_) => {
                assert("AO"@ =~= seq!['A', 'O']) by {
                    reveal_strlit("AO");
                }
                "AO"
            },
            Vowel::AW(_) => {
                assert("AW"@ =~= seq!['A', 'W']) by {
                    reveal_strlit("AW");
                }
                "AW"
            },
            Vowel::AX(_) => {
                assert("AX"@ =~= seq!['A', 'X']) by {
                    reveal_strlit("AX");
                }
                "AX"
            },
            Vowel::AXR(_) => {
                assert("AXR"@ =~= seq!['A', 'X', 'R']) by {
                    reveal_strlit("AXR");
                }
                "AXR"
            },
            Vowel::AY(_) => {
                assert("AY"@ =~= seq!['A', 'Y']) by {
                    reveal_strlit("AY");
                }
                "AY"
            },
            Vowel::EH(_) => {
                assert("EH"@ =~= seq!['E', 'H']) by {
                    reveal_strlit("EH");
                }
                "EH"
            },
            Vowel::ER(_) => {
                assert("ER"@ =~= seq!['E', 'R']) by {
                    reveal_strlit("ER");
                }
                "ER"
            },
            Vowel::EY(_) => {
                assert("EY"@ =~= seq!['E', 'Y']) by {
                    reveal_strlit("EY");
                }
                "EY"
            },
            Vowel::IH(_) => {
                assert("IH"@ =~= seq!['I', 'H']) by {
                    reveal_strlit("IH");
                }
                "IH"
            },
            Vowel::IX(_) => {
                assert("IX"@ =~= seq!['I', 'X']) by {
                    reveal_strlit("IX");
                }
                "IX"
            },
            Vowel::IY(_) => {
                assert("IY"@ =~= seq!['I', 'Y']) by {
                    reveal_strlit("IY");
                }
                "IY"
            },
            Vowel::OW(_) => {
                assert("OW"@ =~= seq!['O', 'W']) by {
                    reveal_strlit("OW");
                }
                "OW"
            },
            Vowel::OY(_) => {
                assert("OY"@ =~= seq!['O', 'Y']) by {
                    reveal_strlit("OY");
                }
                "OY"
            },
            Vowel::UH(_) => {
                assert("UH"@ =~= seq!['U', 'H']) by {
                    reveal_strlit("UH");
                }
                "UH"
            },
            Vowel::UW(_) => {
                assert("UW"@ =~= seq!['U', 'W']) by {
                    reveal_strlit("UW");
                }
                "UW"
            },
            Vowel::UX(_) => {
                assert("UX"@ =~= seq!['U', 'X']) by {
                    reveal_strlit("UX");
                }
                "UX"
            },
        }
    }

    /// Get the string representation of the vowel phoneme.
    pub fn to_str(&self) -> (s: &'static str)
        ensures
            s@ == self.token(),
    {
        match self.get_stress() {
            VowelStress::UnknownStress => {
                assert(self.base_token() + Seq::<char>::empty() =~= self.base_token());
                self.to_str_stressless()
            },
            VowelStress::NoStress => self.to_str_unstressed(),
            VowelStress::PrimaryStress => self.to_str_primary(),
            VowelStress::SecondaryStress => self.to_str_secondary(),
        }
    }


    /// The string representation of the vowel's name with the digit of no stress.
    fn to_str_unstressed(&self) -> (s: &'static str)
        ensures
            s@ == self.base_token() + seq!['0'],
    {
        match self {
            Vowel::AA(_) => {
                assert("AA0"@ =~= seq!['A', 'A'] + seq!['0']) by {
                    reveal_strlit("AA0");
                }
                "AA0"
            },
            Vowel::AE(_) => {
                assert("AE0"@ =~= seq!['A', 'E'] + seq!['0']) by {
                    reveal_strlit("AE0");
                }
                "AE0"
            },
            Vowel::AH(_) => {
                assert("AH0"@ =~= seq!['A', 'H'] + seq!['0']) by {
                    reveal_strlit("AH0");
                }
                "AH0"
            },
            Vowel::AO(_) => {
                assert("AO0"@ =~= seq!['A', 'O'] + seq!['0']) by {
                    reveal_strlit("AO0");
                }
                "AO0"
            },
            Vowel::AW(_) => {
                assert("AW0"@ =~= seq!['A', 'W'] + seq!['0']) by {
                    reveal_strlit("AW0");
                }
                "AW0"
            },
            Vowel::AX(_) => {
                assert("AX0"@ =~= seq!['A', 'X'] + seq!['0']) by {
                    reveal_strlit("AX0");
                }
                "AX0"
            },
            Vowel::AXR(_) => {
                assert("AXR0"@ =~= seq!['A', 'X', 'R'] + seq!['0']) by {
                    reveal_strlit("AXR0");
                }
                "AXR0"
            },
            Vowel::AY(_) => {
                assert("AY0"@ =~= seq!['A', 'Y'] + seq!['0']) by {
                    reveal_strlit("AY0");
                }
                "AY0"
            },
            Vowel::EH(_) => {
                assert("EH0"@ =~= seq!['E', 'H'] + seq!['0']) by {
                    reveal_strlit("EH0");
                }
                "EH0"
            },
            Vowel::ER(_) => {
                assert("ER0"@ =~= seq!['E', 'R'] + seq!['0']) by {
                    reveal_strlit("ER0");
                }
                "ER0"
            },
            Vowel::EY(_) => {
                assert("EY0"@ =~= seq!['E', 'Y'] + seq!['0']) by {
                    reveal_strlit("EY0");
                }
                "EY0"
            },
            Vowel::IH(_) => {
                assert("IH0"@ =~= seq!['I', 'H'] + seq!['0']) by {
                    reveal_strlit("IH0");
                }
                "IH0"
            },
            Vowel::IX(_) => {
                assert("IX0"@ =~= seq!['I', 'X'] + seq!['0']) by {
                    reveal_strlit("IX0");
                }
                "IX0"
            },
            Vowel::IY(_) => {
                assert("IY0"@ =~= seq!['I', 'Y'] + seq!['0']) by {
                    reveal_strlit("IY0");
                }
                "IY0"
            },
            Vowel::OW(_) => {
                assert("OW0"@ =~= seq!['O', 'W'] + seq!['0']) by {
                    reveal_strlit("OW0");
                }
                "OW0"
            },
            Vowel::OY(_) => {
                assert("OY0"@ =~= seq!['O', 'Y'] + seq!['0']) by {
                    reveal_strlit("OY0");
                }
                "OY0"
            },
            Vowel::UH(_) => {
                assert("UH0"@ =~= seq!['U', 'H'] + seq!['0']) by {
                    reveal_strlit("UH0");
                }
                "UH0"
            },
            Vowel::UW(_) => {
                assert("UW0"@ =~= seq!['U', 'W'] + seq!['0']) by {
                    reveal_strlit("UW0");
                }
                "UW0"
            },
            Vowel::UX(_) => {
                assert("UX0"@ =~= seq!['U', 'X'] + seq!['0']) by {
                    reveal_strlit("UX0");
                }
                "UX0"
            },
        }
    }

    /// The string representation of the vowel's name with the digit of the primary stress.
    fn to_str_primary(&self) -> (s: &'static str)
        ensures
            s@ == self.base_token() + seq!['1'],
    {
        match self {
            Vowel::AA(_) => {
                assert("AA1"@ =~= seq!['A', 'A'] + seq!['1']) by {
                    reveal_strlit("AA1");
                }
                "AA1"
            },
            Vowel::AE(_) => {
                assert("AE1"@ =~= seq!['A', 'E'] + seq!['1']) by {
                    reveal_strlit("AE1");
                }
                "AE1"
            },
            Vowel::AH(_) => {
                assert("AH1"@ =~= seq!['A', 'H'] + seq!['1']) by {
                    reveal_strlit("AH1");
                }
                "AH1"
            },
            Vowel::AO(_) => {
                assert("AO1"@ =~= seq!['A', 'O'] + seq!['1']) by {
                    reveal_strlit("AO1");
                }
                "AO1"
            },
            Vowel::AW(_) => {
                assert("AW1"@ =~= seq!['A', 'W'] + seq!['1']) by {
                    reveal_strlit("AW1");
                }
                "AW1"
            },
            Vowel::AX(_) => {
                assert("AX1"@ =~= seq!['A', 'X'] + seq!['1']) by {
                    reveal_strlit("AX1");
                }
                "AX1"
            },
            Vowel::AXR(_) => {
                assert("AXR1"@ =~= seq!['A', 'X', 'R'] + seq!['1']) by {
                    reveal_strlit("AXR1");
                }
                "AXR1"
            },
            Vowel::AY(_) => {
                assert("AY1"@ =~= seq!['A', 'Y'] + seq!['1']) by {
                    reveal_strlit("AY1");
                }
                "AY1"
            },
            Vowel::EH(_) => {
                assert("EH1"@ =~= seq!['E', 'H'] + seq!['1']) by {
                    reveal_strlit("EH1");
                }
                "EH1"
            },
            Vowel::ER(_) => {
                assert("ER1"@ =~= seq!['E', 'R'] + seq!['1']) by {
                    reveal_strlit("ER1");
                }
                "ER1"
            },
            Vowel::EY(_) => {
                assert("EY1"@ =~= seq!['E', 'Y'] + seq!['1']) by {
                    reveal_strlit("EY1");
                }
                "EY1"
            },
            Vowel::IH(_) => {
                assert("IH1"@ =~= seq!['I', 'H'] + seq!['1']) by {
                    reveal_strlit("IH1");
                }
                "IH1"
            },
            Vowel::IX(_) => {
                assert("IX1"@ =~= seq!['I', 'X'] + seq!['1']) by {
                    reveal_strlit("IX1");
                }
                "IX1"
            },
            Vowel::IY(_) => {
                assert("IY1"@ =~= seq!['I', 'Y'] + seq!['1']) by {
                    reveal_strlit("IY1");
                }
                "IY1"
            },
            Vowel::OW(_) => {
                assert("OW1"@ =~= seq!['O', 'W'] + seq!['1']) by {
                    reveal_strlit("OW1");
                }
                "OW1"
            },
            Vowel::OY(_) => {
                assert("OY1"@ =~= seq!['O', 'Y'] + seq!['1']) by {
                    reveal_strlit("OY1");
                }
                "OY1"
            },
            Vowel::UH(_) => {
                assert("UH1"@ =~= seq!['U', 'H'] + seq!['1']) by {
                    reveal_strlit("UH1");
                }
                "UH1"
            },
            Vowel::UW(_) => {
                assert("UW1"@ =~= seq!['U', 'W'] + seq!['1']) by {
                    reveal_strlit("UW1");
                }
                "UW1"
            },
            Vowel::UX(_) => {
                assert("UX1"@ =~= seq!['U', 'X'] + seq!['1']) by {
                    reveal_strlit("UX1");
                }
                "UX1"
            },
        }
    }

    /// The string representation of the vowel's name with the digit of secondary stress.
    fn to_str_secondary(&self) -> (s: &'static str)
        ensures
            s@ == self.base_token() + seq!['2'],
    {
        match self {
            Vowel::AA(_) => {
                assert("AA2"@ =~= seq!['A', 'A'] + seq!['2']) by {
                    reveal_strlit("AA2");
                }
                "AA2"
            },
            Vowel::AE(_) => {
                assert("AE2"@ =~= seq!['A', 'E'] + seq!['2']) by {
                    reveal_strlit("AE2");
                }
                "AE2"
            },
            Vowel::AH(_) => {
                assert("AH2"@ =~= seq!['A', 'H'] + seq!['2']) by {
                    reveal_strlit("AH2");
                }
                "AH2"
            },
            Vowel::AO(_) => {
                assert("AO2"@ =~= seq!['A', 'O'] + seq!['2']) by {
                    reveal_strlit("AO2");
                }
                "AO2"
            },
            Vowel::AW(_) => {
                assert("AW2"@ =~= seq!['A', 'W'] + seq!['2']) by {
                    reveal_strlit("AW2");
                }
                "AW2"
            },
            Vowel::AX(_) => {
                assert("AX2"@ =~= seq!['A', 'X'] + seq!['2']) by {
                    reveal_strlit("AX2");
                }
                "AX2"
            },
            Vowel::AXR(_) => {
                assert("AXR2"@ =~= seq!['A', 'X', 'R'] + seq!['2']) by {
                    reveal_strlit("AXR2");
                }
                "AXR2"
            },
            Vowel::AY(_) => {
                assert("AY2"@ =~= seq!['A', 'Y'] + seq!['2']) by {
                    reveal_strlit("AY2");
                }
                "AY2"
            },
            Vowel::EH(_) => {
                assert("EH2"@ =~= seq!['E', 'H'] + seq!['2']) by {
                    reveal_strlit("EH2");
                }
                "EH2"
            },
            Vowel::ER(_) => {
                assert("ER2"@ =~= seq!['E', 'R'] + seq!['2']) by {
                    reveal_strlit("ER2");
                }
                "ER2"
            },
            Vowel::EY(_) => {
                assert("EY2"@ =~= seq!['E', 'Y'] + seq!['2']) by {
                    reveal_strlit("EY2");
                }
                "EY2"
            },
            Vowel::IH(_) => {
                assert("IH2"@ =~= seq!['I', 'H'] + seq!['2']) by {
                    reveal_strlit("IH2");
                }
                "IH2"
            },
            Vowel::IX(_) => {
                assert("IX2"@ =~= seq!['I', 'X'] + seq!['2']) by {
                    reveal_strlit("IX2");
                }
                "IX2"
            },
            Vowel::IY(_) => {
                assert("IY2"@ =~= seq!['I', 'Y'] + seq!['2']) by {
                    reveal_strlit("IY2");
                }
                "IY2"
            },
            Vowel::OW(_) => {
                assert("OW2"@ =~= seq!['O', 'W'] + seq!['2']) by {
                    reveal_strlit("OW2");
                }
                "OW2"
            },
            Vowel::OY(_) => {
                assert("OY2"@ =~= seq!['O', 'Y'] + seq!['2']) by {
                    reveal_strlit("OY2");
                }
                "OY2"
            },
            Vowel::UH(_) => {
                assert("UH2"@ =~= seq!['U', 'H'] + seq!['2']) by {
                    reveal_strlit("UH2");
                }
                "UH2"
            },
            Vowel::UW(_) => {
                assert("UW2"@ =~= seq!['U', 'W'] + seq!['2']) by {
                    reveal_strlit("UW2");
                }
                "UW2"
            },
            Vowel::UX(_) => {
                assert("UX2"@ =~= seq!['U', 'X'] + seq!['2']) by {
                    reveal_strlit("UX2");
                }
                "UX2"
            },
        }
    }
}

/// All of the phonemes in ARPABET.
#[derive(Copy, Clone, Debug, PartialEq, Eq, Structural)]
pub enum Phoneme {
    /// ARPABET consonants
    Consonant(Consonant),
    /// ARPABET vowels
    Vowel(Vowel),
}

impl Phoneme {
    /// The token of a phoneme: that of the consonant or vowel it holds.
    pub open spec fn token(self) -> Seq<char> {
        match self {
            Phoneme::Consonant(consonant) => consonant.token(),
            Phoneme::Vowel(vowel) => vowel.token(),
        }
    }

    /// Get the string representation for a phoneme.
    pub fn to_str(&self) -> (s: &'static str)
        ensures
            s@ == self.token(),
    {
        match self {
            Phoneme::Consonant(consonant) => consonant.to_str(),
            Phoneme::Vowel(vowel) => vowel.to_str(),
        }
    }
}

} // verus!
