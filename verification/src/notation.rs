//! The set of pinyin notations that a query may be typed in.

use vstd::prelude::*;

verus! {

/// The bit that the matching engine assigns to initials-only pinyin.
pub const ASCII_FIRST_LETTER_BIT: u32 = 0x1;

/// The bit that the matching engine assigns to full pinyin without tones.
pub const ASCII_BIT: u32 = 0x2;

/// The bit that the matching engine assigns to the ABC double-pinyin scheme.
pub const DILETTER_ABC_BIT: u32 = 0x10;

/// The bit that the matching engine assigns to the Jiajia double-pinyin scheme.
pub const DILETTER_JIAJIA_BIT: u32 = 0x20;

/// The bit that the matching engine assigns to the Microsoft double-pinyin scheme.
pub const DILETTER_MICROSOFT_BIT: u32 = 0x40;

/// The bit that the matching engine assigns to the Thunisoft double-pinyin scheme.
pub const DILETTER_THUNISOFT_BIT: u32 = 0x80;

/// The bit that the matching engine assigns to the Xiaohe double-pinyin scheme.
pub const DILETTER_XIAOHE_BIT: u32 = 0x100;

/// The bit that the matching engine assigns to the Ziranma double-pinyin scheme.
pub const DILETTER_ZRM_BIT: u32 = 0x200;

/// Every bit that the matching engine assigns to a notation: the ten lowest.
/// Besides the eight above these are pinyin with tone digits and pinyin with
/// tone marks, which no mode value selects.
pub const NOTATION_MASK: u32 = 0x3ff;

/// A double-pinyin (shuangpin) scheme: a table that maps each syllable to two
/// keystrokes.
#[derive(Clone, Copy, Debug, PartialEq, Eq)]
pub enum ShuangpinScheme {
    Abc,
    Jiajia,
    Microsoft,
    Thunisoft,
    Xiaohe,
    Zrm,
}

impl ShuangpinScheme {
    /// The engine's bit for this scheme.
    pub open spec fn bit(self) -> u32 {
        match self {
            ShuangpinScheme::Abc => DILETTER_ABC_BIT,
            ShuangpinScheme::Jiajia => DILETTER_JIAJIA_BIT,
            ShuangpinScheme::Microsoft => DILETTER_MICROSOFT_BIT,
            ShuangpinScheme::Thunisoft => DILETTER_THUNISOFT_BIT,
            ShuangpinScheme::Xiaohe => DILETTER_XIAOHE_BIT,
            ShuangpinScheme::Zrm => DILETTER_ZRM_BIT,
        }
    }

    /// The engine's bit for this scheme.
    pub fn to_bit(self) -> (b: u32)
        ensures
            b == self.bit(),
    {
        match self {
            ShuangpinScheme::Abc => DILETTER_ABC_BIT,
            ShuangpinScheme::Jiajia => DILETTER_JIAJIA_BIT,
            ShuangpinScheme::Microsoft => DILETTER_MICROSOFT_BIT,
            ShuangpinScheme::Thunisoft => DILETTER_THUNISOFT_BIT,
            ShuangpinScheme::Xiaohe => DILETTER_XIAOHE_BIT,
            ShuangpinScheme::Zrm => DILETTER_ZRM_BIT,
        }
    }
}

/// The notations accepted when a query is matched against Chinese text: full
/// pinyin, initials only, and at most one double-pinyin scheme.
#[derive(Clone, Copy, Debug, PartialEq, Eq)]
pub struct PinyinNotationSet {
    /// Full pinyin ("quanpin"), such as `zhong`.
    pub ascii: bool,
    /// The first letter of each syllable, such as `z`.
    pub ascii_first_letter: bool,
    /// The double-pinyin scheme, if one is active.
    pub shuangpin: Option<ShuangpinScheme>,
}

impl PinyinNotationSet {
    /// The set without any notation.
    pub open spec fn spec_empty() -> PinyinNotationSet {
        PinyinNotationSet { ascii: false, ascii_first_letter: false, shuangpin: None }
    }

    /// Whether no notation is in the set.
    pub open spec fn spec_is_empty(self) -> bool {
        !self.ascii && !self.ascii_first_letter && self.shuangpin is None
    }

    /// Whether full pinyin is in the set and nothing else is.
    pub open spec fn spec_is_ascii_only(self) -> bool {
        self.ascii && !self.ascii_first_letter && self.shuangpin is None
    }

    /// Whether the set can be handed to the matcher: it is not empty, and full
    /// pinyin does not stand alone in it.
    pub open spec fn is_complete(self) -> bool {
        !self.spec_is_empty() && !self.spec_is_ascii_only()
    }

    /// The set as the engine's bit mask: the sum of the bits of its members,
    /// which are distinct powers of two.
    pub open spec fn spec_bits(self) -> u32 {
        ((if self.ascii {
            ASCII_BIT as int
        } else {
            0
        }) + (if self.ascii_first_letter {
            ASCII_FIRST_LETTER_BIT as int
        } else {
            0
        }) + (match self.shuangpin {
            Some(scheme) => scheme.bit() as int,
            None => 0,
        })) as u32
    }

    /// The set without any notation.
    pub fn empty() -> (r: PinyinNotationSet)
        ensures
            r == Self::spec_empty(),
    {
        PinyinNotationSet { ascii: false, ascii_first_letter: false, shuangpin: None }
    }

    /// Whether no notation is in the set.
    pub fn is_empty(&self) -> (r: bool)
        ensures
            r == self.spec_is_empty(),
    {
        !self.ascii && !self.ascii_first_letter && self.shuangpin.is_none()
    }

    /// Whether full pinyin is in the set and nothing else is.
    pub fn is_ascii_only(&self) -> (r: bool)
        ensures
            r == self.spec_is_ascii_only(),
    {
        self.ascii && !self.ascii_first_letter && self.shuangpin.is_none()
    }

    /// The set as the engine's bit mask.
    pub fn bits(&self) -> (b: u32)
        ensures
            b == self.spec_bits(),
            b <= NOTATION_MASK,
    {
        let mut b: u32 = 0;
        if self.ascii {
            b = b + ASCII_BIT;
        }
        if self.ascii_first_letter {
            b = b + ASCII_FIRST_LETTER_BIT;
        }
        match self.shuangpin {
            Some(scheme) => {
                b = b + scheme.to_bit();
            },
            None => {},
        }
        b
    }
}

/// The bit mask tells the sets apart: two sets with the same mask are the
/// same set.
pub proof fn lemma_bits_injective(a: PinyinNotationSet, b: PinyinNotationSet)
    requires
        a.spec_bits() == b.spec_bits(),
    ensures
        a == b,
{
}

/// The mask of a set is zero exactly when the set is empty.
pub proof fn lemma_bits_zero(a: PinyinNotationSet)
    ensures
        a.spec_bits() == 0 <==> a.spec_is_empty(),
{
}

} // verus!
