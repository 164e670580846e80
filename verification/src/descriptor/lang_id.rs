use vstd::prelude::*;

verus! {

/// A USB language identifier (LANGID) for string descriptors.
#[allow(non_camel_case_types)]
#[derive(Copy, Clone, Eq, PartialEq, Structural, Debug)]
pub enum LangID {
    /// English
    EN,
    /// English (United States)
    EN_US,
    /// English (United Kingdom)
    EN_GB,
    /// English (Australia)
    EN_AU,
    /// English (Canada)
    EN_CA,
    /// German
    DE,
    /// German (Germany)
    DE_DE,
    /// French
    FR,
    /// French (France)
    FR_FR,
    /// Spanish
    ES,
    /// Spanish (Spain, modern sort)
    ES_ES,
    /// Italian (Italy)
    IT_IT,
    /// Dutch (Netherlands)
    NL_NL,
    /// Portuguese (Brazil)
    PT_BR,
    /// Russian
    RU_RU,
    /// Swedish
    SV_SE,
    /// Finnish
    FI_FI,
    /// Polish
    PL_PL,
    /// Japanese
    JA_JP,
    /// Korean
    KO_KR,
    /// Chinese (PRC)
    ZH_CN,
    /// Chinese (Taiwan)
    ZH_TW,
}

/// The numeric LANGID code of a language.
pub open spec fn lang_code(l: LangID) -> u16 {
    match l {
        LangID::EN => 0x0009u16,
        LangID::EN_US => 0x0409u16,
        LangID::EN_GB => 0x0809u16,
        LangID::EN_AU => 0x0C09u16,
        LangID::EN_CA => 0x1009u16,
        LangID::DE => 0x0007u16,
        LangID::DE_DE => 0x0407u16,
        LangID::FR => 0x000Cu16,
        LangID::FR_FR => 0x040Cu16,
        LangID::ES => 0x000Au16,
        LangID::ES_ES => 0x0C0Au16,
        LangID::IT_IT => 0x0410u16,
        LangID::NL_NL => 0x0413u16,
        LangID::PT_BR => 0x0416u16,
        LangID::RU_RU => 0x0419u16,
        LangID::SV_SE => 0x041Du16,
        LangID::FI_FI => 0x040Bu16,
        LangID::PL_PL => 0x0415u16,
        LangID::JA_JP => 0x0411u16,
        LangID::KO_KR => 0x0412u16,
        LangID::ZH_CN => 0x0804u16,
        LangID::ZH_TW => 0x0404u16,
    }
}

/// The language with a numeric LANGID code; codes of no known language give `EN_US`.
pub open spec fn lang_of_code(code: u16) -> LangID {
        if code == 0x0009 {
            LangID::EN
        } else if code == 0x0409 {
            LangID::EN_US
        } else if code == 0x0809 {
            LangID::EN_GB
        } else if code == 0x0C09 {
            LangID::EN_AU
        } else if code == 0x1009 {
            LangID::EN_CA
        } else if code == 0x0007 {
            LangID::DE
        } else if code == 0x0407 {
            LangID::DE_DE
        } else if code == 0x000C {
            LangID::FR
        } else if code == 0x040C {
            LangID::FR_FR
        } else if code == 0x000A {
            LangID::ES
        } else if code == 0x0C0A {
            LangID::ES_ES
        } else if code == 0x0410 {
            LangID::IT_IT
        } else if code == 0x0413 {
            LangID::NL_NL
        } else if code == 0x0416 {
            LangID::PT_BR
        } else if code == 0x0419 {
            LangID::RU_RU
        } else if code == 0x041D {
            LangID::SV_SE
        } else if code == 0x040B {
            LangID::FI_FI
        } else if code == 0x0415 {
            LangID::PL_PL
        } else if code == 0x0411 {
            LangID::JA_JP
        } else if code == 0x0412 {
            LangID::KO_KR
        } else if code == 0x0804 {
            LangID::ZH_CN
        } else if code == 0x0404 {
            LangID::ZH_TW
        } else {
            LangID::EN_US
        }
}

impl LangID {
    /// The numeric code of this LANGID.
    pub fn code(&self) -> (r: u16)
        ensures
            r == lang_code(*self),
    {
        match self {
            LangID::EN => 0x0009,
            LangID::EN_US => 0x0409,
            LangID::EN_GB => 0x0809,
            LangID::EN_AU => 0x0C09,
            LangID::EN_CA => 0x1009,
            LangID::DE => 0x0007,
            LangID::DE_DE => 0x0407,
            LangID::FR => 0x000C,
            LangID::FR_FR => 0x040C,
            LangID::ES => 0x000A,
            LangID::ES_ES => 0x0C0A,
            LangID::IT_IT => 0x0410,
            LangID::NL_NL => 0x0413,
            LangID::PT_BR => 0x0416,
            LangID::RU_RU => 0x0419,
            LangID::SV_SE => 0x041D,
            LangID::FI_FI => 0x040B,
            LangID::PL_PL => 0x0415,
            LangID::JA_JP => 0x0411,
            LangID::KO_KR => 0x0412,
            LangID::ZH_CN => 0x0804,
            LangID::ZH_TW => 0x0404,
        }
    }
}

impl From<u16> for LangID {
    /// The language with the given code; a code of no known language gives `EN_US`.
    fn from(code: u16) -> (r: LangID)
        ensures
            r == lang_of_code(code),
    {
        if code == 0x0009 {
            LangID::EN
        } else if code == 0x0409 {
            LangID::EN_US
        } else if code == 0x0809 {
            LangID::EN_GB
        } else if code == 0x0C09 {
            LangID::EN_AU
        } else if code == 0x1009 {
            LangID::EN_CA
        } else if code == 0x0007 {
            LangID::DE
        } else if code == 0x0407 {
            LangID::DE_DE
        } else if code == 0x000C {
            LangID::FR
        } else if code == 0x040C {
            LangID::FR_FR
        } else if code == 0x000A {
            LangID::ES
        } else if code == 0x0C0A {
            LangID::ES_ES
        } else if code == 0x0410 {
            LangID::IT_IT
        } else if code == 0x0413 {
            LangID::NL_NL
        } else if code == 0x0416 {
            LangID::PT_BR
        } else if code == 0x0419 {
            LangID::RU_RU
        } else if code == 0x041D {
            LangID::SV_SE
        } else if code == 0x040B {
            LangID::FI_FI
        } else if code == 0x0415 {
            LangID::PL_PL
        } else if code == 0x0411 {
            LangID::JA_JP
        } else if code == 0x0412 {
            LangID::KO_KR
        } else if code == 0x0804 {
            LangID::ZH_CN
        } else if code == 0x0404 {
            LangID::ZH_TW
        } else {
            LangID::EN_US
        }
    }
}

impl vstd::std_specs::convert::FromSpecImpl<u16> for LangID {
    open spec fn obeys_from_spec() -> bool {
        true
    }

    open spec fn from_spec(v: u16) -> LangID {
        lang_of_code(v)
    }
}

impl From<LangID> for u16 {
    fn from(id: LangID) -> (r: u16) {
        id.code()
    }
}

impl vstd::std_specs::convert::FromSpecImpl<LangID> for u16 {
    open spec fn obeys_from_spec() -> bool {
        true
    }

    open spec fn from_spec(v: LangID) -> u16 {
        lang_code(v)
    }
}

/// Every language is read back from its own code.
pub proof fn lemma_lang_code_roundtrip(l: LangID)
    ensures
        lang_of_code(lang_code(l)) == l,
{
}

} // verus!
