//! Domain vocabulary shared by the detector and the data layer.
use vstd::prelude::*;
use vstd::string::*;
use crate::text::str_eq;

verus! {

/// Button mode of a chart (4, 5, 6 or 8 buttons).
#[derive(Clone, Copy, Debug, PartialEq, Eq, Structural, Hash)]
pub enum Mode {
    B4,
    B5,
    B6,
    B8,
}

/// Difficulty tab of a chart.
#[derive(Clone, Copy, Debug, PartialEq, Eq, Structural, Hash)]
pub enum Difficulty {
    NM,
    HD,
    MX,
    SC,
}

/// Game screen in which a region of interest is looked up.
#[derive(Clone, Copy, Debug, PartialEq, Eq, Structural, Hash)]
pub enum SceneType {
    Freestyle,
    OpenMatch,
    LadderMatch,
    Online,
    ResultFreestyle,
    ResultOpen2,
    ResultOpen3,
}

/// Wire label of a mode: "4B", "5B", "6B", "8B".
pub open spec fn mode_label(m: Mode) -> Seq<char> {
    match m {
        Mode::B4 => seq!['4', 'B'],
        Mode::B5 => seq!['5', 'B'],
        Mode::B6 => seq!['6', 'B'],
        Mode::B8 => seq!['8', 'B'],
    }
}

/// Wire label of a difficulty: "NM", "HD", "MX", "SC".
pub open spec fn difficulty_label(d: Difficulty) -> Seq<char> {
    match d {
        Difficulty::NM => seq!['N', 'M'],
        Difficulty::HD => seq!['H', 'D'],
        Difficulty::MX => seq!['M', 'X'],
        Difficulty::SC => seq!['S', 'C'],
    }
}

/// The mode whose label is `s`, if any.
pub open spec fn mode_from_label(s: Seq<char>) -> Option<Mode> {
    if s == mode_label(Mode::B4) {
        Some(Mode::B4)
    } else if s == mode_label(Mode::B5) {
        Some(Mode::B5)
    } else if s == mode_label(Mode::B6) {
        Some(Mode::B6)
    } else if s == mode_label(Mode::B8) {
        Some(Mode::B8)
    } else {
        None
    }
}

/// The difficulty whose label is `s`, if any.
pub open spec fn difficulty_from_label(s: Seq<char>) -> Option<Difficulty> {
    if s == difficulty_label(Difficulty::NM) {
        Some(Difficulty::NM)
    } else if s == difficulty_label(Difficulty::HD) {
        Some(Difficulty::HD)
    } else if s == difficulty_label(Difficulty::MX) {
        Some(Difficulty::MX)
    } else if s == difficulty_label(Difficulty::SC) {
        Some(Difficulty::SC)
    } else {
        None
    }
}

/// Number of buttons of mode `m`.
pub open spec fn spec_button_count(m: Mode) -> u8 {
    match m {
        Mode::B4 => 4,
        Mode::B5 => 5,
        Mode::B6 => 6,
        Mode::B8 => 8,
    }
}

/// The mode played with `buttons` buttons, if any.
pub open spec fn mode_from_buttons(buttons: int) -> Option<Mode> {
    if buttons == 4 {
        Some(Mode::B4)
    } else if buttons == 5 {
        Some(Mode::B5)
    } else if buttons == 6 {
        Some(Mode::B6)
    } else if buttons == 8 {
        Some(Mode::B8)
    } else {
        None
    }
}

impl Mode {
    /// All modes in display order.
    pub fn all() -> (r: [Mode; 4])
        ensures
            r@ == seq![Mode::B4, Mode::B5, Mode::B6, Mode::B8],
    {
        [Mode::B4, Mode::B5, Mode::B6, Mode::B8]
    }

    /// The wire label.
    pub fn as_str(&self) -> (r: &'static str)
        ensures
            r@ == mode_label(*self),
    {
        match self {
            Mode::B4 => {
                proof {
                    reveal_strlit("4B");
                }
                "4B"
            },
            Mode::B5 => {
                proof {
                    reveal_strlit("5B");
                }
                "5B"
            },
            Mode::B6 => {
                proof {
                    reveal_strlit("6B");
                }
                "6B"
            },
            Mode::B8 => {
                proof {
                    reveal_strlit("8B");
                }
                "8B"
            },
        }
    }

    /// The mode with wire label `s`.
    pub fn from_str(s: &str) -> (r: Option<Mode>)
        ensures
            r == mode_from_label(s@),
    {
        let b4 = Mode::B4.as_str();
        let b5 = Mode::B5.as_str();
        let b6 = Mode::B6.as_str();
        let b8 = Mode::B8.as_str();
        if str_eq(s, b4) {
            Some(Mode::B4)
        } else if str_eq(s, b5) {
            Some(Mode::B5)
        } else if str_eq(s, b6) {
            Some(Mode::B6)
        } else if str_eq(s, b8) {
            Some(Mode::B8)
        } else {
            None
        }
    }

    /// Number of buttons.
    pub fn button_count(&self) -> (r: u8)
        ensures
            r == spec_button_count(*self),
    {
        match self {
            Mode::B4 => 4,
            Mode::B5 => 5,
            Mode::B6 => 6,
            Mode::B8 => 8,
        }
    }

    /// The mode played with `buttons` buttons.
    pub fn from_button_count(buttons: i32) -> (r: Option<Mode>)
        ensures
            r == mode_from_buttons(buttons as int),
    {
        if buttons == 4 {
            Some(Mode::B4)
        } else if buttons == 5 {
            Some(Mode::B5)
        } else if buttons == 6 {
            Some(Mode::B6)
        } else if buttons == 8 {
            Some(Mode::B8)
        } else {
            None
        }
    }
}

impl Difficulty {
    /// All difficulties in tab order.
    pub fn all() -> (r: [Difficulty; 4])
        ensures
            r@ == seq![Difficulty::NM, Difficulty::HD, Difficulty::MX, Difficulty::SC],
    {
        [Difficulty::NM, Difficulty::HD, Difficulty::MX, Difficulty::SC]
    }

    /// The wire label.
    pub fn as_str(&self) -> (r: &'static str)
        ensures
            r@ == difficulty_label(*self),
    {
        match self {
            Difficulty::NM => {
                proof {
                    reveal_strlit("NM");
                }
                "NM"
            },
            Difficulty::HD => {
                proof {
                    reveal_strlit("HD");
                }
                "HD"
            },
            Difficulty::MX => {
                proof {
                    reveal_strlit("MX");
                }
                "MX"
            },
            Difficulty::SC => {
                proof {
                    reveal_strlit("SC");
                }
                "SC"
            },
        }
    }

    /// The difficulty with wire label `s`.
    pub fn from_str(s: &str) -> (r: Option<Difficulty>)
        ensures
            r == difficulty_from_label(s@),
    {
        let nm = Difficulty::NM.as_str();
        let hd = Difficulty::HD.as_str();
        let mx = Difficulty::MX.as_str();
        let sc = Difficulty::SC.as_str();
        if str_eq(s, nm) {
            Some(Difficulty::NM)
        } else if str_eq(s, hd) {
            Some(Difficulty::HD)
        } else if str_eq(s, mx) {
            Some(Difficulty::MX)
        } else if str_eq(s, sc) {
            Some(Difficulty::SC)
        } else {
            None
        }
    }

    /// Whether this is the SC tab.
    pub fn is_sc(&self) -> (r: bool)
        ensures
            r == (*self == Difficulty::SC),
    {
        matches!(self, Difficulty::SC)
    }
}

impl SceneType {
    /// Whether the scene is one of the result screens.
    pub fn is_result(&self) -> (r: bool)
        ensures
            r == (*self == SceneType::ResultFreestyle || *self == SceneType::ResultOpen2 || *self
                == SceneType::ResultOpen3),
    {
        match self {
            SceneType::ResultFreestyle | SceneType::ResultOpen2 | SceneType::ResultOpen3 => true,
            _ => false,
        }
    }
}

/// Reading a mode back from its label gives the mode, and only labels of modes are read.
pub proof fn lemma_mode_label_round_trip(m: Mode, s: Seq<char>)
    ensures
        mode_from_label(mode_label(m)) == Some(m),
        mode_from_label(s) == Some(m) ==> s == mode_label(m),
{
}

/// Reading a difficulty back from its label gives the difficulty, and only its label reads as it.
pub proof fn lemma_difficulty_label_round_trip(d: Difficulty, s: Seq<char>)
    ensures
        difficulty_from_label(difficulty_label(d)) == Some(d),
        difficulty_from_label(s) == Some(d) ==> s == difficulty_label(d),
{
}

/// The button count identifies the mode.
pub proof fn lemma_button_count_round_trip(m: Mode)
    ensures
        mode_from_buttons(spec_button_count(m) as int) == Some(m),
{
}

} // verus!
