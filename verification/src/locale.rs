//! The locales that translations are kept for.
use vstd::prelude::*;
use crate::text::{lowercase, str_eq, to_lowercase};

verus! {

/// The number of locales.
pub const LOCALE_COUNT: usize = 128;

/// Supported locales for translations.
#[derive(Clone, Copy, Debug, PartialEq, Eq, Hash, Structural)]
pub enum Locale {
    AfZa,
    ArSa,
    AstEs,
    AzAz,
    BaRu,
    Bar,
    BeBy,
    BgBg,
    BrFr,
    Brb,
    BsBa,
    CaEs,
    CsCz,
    CyGb,
    DaDk,
    DeAt,
    DeCh,
    DeDe,
    ElGr,
    EnAu,
    EnCa,
    EnGb,
    EnNz,
    EnPt,
    EnUd,
    EnUs,
    Enp,
    Enws,
    EoUy,
    EsAr,
    EsCl,
    EsEc,
    EsEs,
    EsMx,
    EsUy,
    EsVe,
    Esan,
    EtEe,
    EuEs,
    FaIr,
    FiFi,
    FilPh,
    FoFo,
    FrCa,
    FrFr,
    FraDe,
    FurIt,
    FyNl,
    GaIe,
    GdGb,
    GlEs,
    HawUs,
    HeIl,
    HiIn,
    HrHr,
    HuHu,
    HyAm,
    IdId,
    IgNg,
    IoEn,
    IsIs,
    Isv,
    ItIt,
    JaJp,
    JboEn,
    KaGe,
    KkKz,
    KnIn,
    KoKr,
    Ksh,
    KwGb,
    LaLa,
    LbLu,
    LiLi,
    Lmo,
    LoLa,
    LolUs,
    LtLt,
    LvLv,
    Lzh,
    MkMk,
    MnMn,
    MsMy,
    MtMt,
    Nah,
    NdsDe,
    NlBe,
    NlNl,
    NnNo,
    NoNo,
    OcFr,
    Ovd,
    PlPl,
    PtBr,
    PtPt,
    QyaAa,
    RoRo,
    Rpr,
    RuRu,
    RyUa,
    SahSah,
    SeNo,
    SkSk,
    SlSi,
    SoSo,
    SqAl,
    SrCs,
    SrSp,
    SvSe,
    Sxu,
    Szl,
    TaIn,
    ThTh,
    TlPh,
    TlhAa,
    Tok,
    TrTr,
    TtRu,
    UkUa,
    ValEs,
    VecIt,
    ViVn,
    YiDe,
    YoNg,
    ZhCn,
    ZhHk,
    ZhTw,
    ZlmArab,
}

/// The position of a locale in declaration order.
pub open spec fn locale_index(l: Locale) -> int {
    match l {
        Locale::AfZa => 0,
        Locale::ArSa => 1,
        Locale::AstEs => 2,
        Locale::AzAz => 3,
        Locale::BaRu => 4,
        Locale::Bar => 5,
        Locale::BeBy => 6,
        Locale::BgBg => 7,
        Locale::BrFr => 8,
        Locale::Brb => 9,
        Locale::BsBa => 10,
        Locale::CaEs => 11,
        Locale::CsCz => 12,
        Locale::CyGb => 13,
        Locale::DaDk => 14,
        Locale::DeAt => 15,
        Locale::DeCh => 16,
        Locale::DeDe => 17,
        Locale::ElGr => 18,
        Locale::EnAu => 19,
        Locale::EnCa => 20,
        Locale::EnGb => 21,
        Locale::EnNz => 22,
        Locale::EnPt => 23,
        Locale::EnUd => 24,
        Locale::EnUs => 25,
        Locale::Enp => 26,
        Locale::Enws => 27,
        Locale::EoUy => 28,
        Locale::EsAr => 29,
        Locale::EsCl => 30,
        Locale::EsEc => 31,
        Locale::EsEs => 32,
        Locale::EsMx => 33,
        Locale::EsUy => 34,
        Locale::EsVe => 35,
        Locale::Esan => 36,
        Locale::EtEe => 37,
        Locale::EuEs => 38,
        Locale::FaIr => 39,
        Locale::FiFi => 40,
        Locale::FilPh => 41,
        Locale::FoFo => 42,
        Locale::FrCa => 43,
        Locale::FrFr => 44,
        Locale::FraDe => 45,
        Locale::FurIt => 46,
        Locale::FyNl => 47,
        Locale::GaIe => 48,
        Locale::GdGb => 49,
        Locale::GlEs => 50,
        Locale::HawUs => 51,
        Locale::HeIl => 52,
        Locale::HiIn => 53,
        Locale::HrHr => 54,
        Locale::HuHu => 55,
        Locale::HyAm => 56,
        Locale::IdId => 57,
        Locale::IgNg => 58,
        Locale::IoEn => 59,
        Locale::IsIs => 60,
        Locale::Isv => 61,
        Locale::ItIt => 62,
        Locale::JaJp => 63,
        Locale::JboEn => 64,
        Locale::KaGe => 65,
        Locale::KkKz => 66,
        Locale::KnIn => 67,
        Locale::KoKr => 68,
        Locale::Ksh => 69,
        Locale::KwGb => 70,
        Locale::LaLa => 71,
        Locale::LbLu => 72,
        Locale::LiLi => 73,
        Locale::Lmo => 74,
        Locale::LoLa => 75,
        Locale::LolUs => 76,
        Locale::LtLt => 77,
        Locale::LvLv => 78,
        Locale::Lzh => 79,
        Locale::MkMk => 80,
        Locale::MnMn => 81,
        Locale::MsMy => 82,
        Locale::MtMt => 83,
        Locale::Nah => 84,
        Locale::NdsDe => 85,
        Locale::NlBe => 86,
        Locale::NlNl => 87,
        Locale::NnNo => 88,
        Locale::NoNo => 89,
        Locale::OcFr => 90,
        Locale::Ovd => 91,
        Locale::PlPl => 92,
        Locale::PtBr => 93,
        Locale::PtPt => 94,
        Locale::QyaAa => 95,
        Locale::RoRo => 96,
        Locale::Rpr => 97,
        Locale::RuRu => 98,
        Locale::RyUa => 99,
        Locale::SahSah => 100,
        Locale::SeNo => 101,
        Locale::SkSk => 102,
        Locale::SlSi => 103,
        Locale::SoSo => 104,
        Locale::SqAl => 105,
        Locale::SrCs => 106,
        Locale::SrSp => 107,
        Locale::SvSe => 108,
        Locale::Sxu => 109,
        Locale::Szl => 110,
        Locale::TaIn => 111,
        Locale::ThTh => 112,
        Locale::TlPh => 113,
        Locale::TlhAa => 114,
        Locale::Tok => 115,
        Locale::TrTr => 116,
        Locale::TtRu => 117,
        Locale::UkUa => 118,
        Locale::ValEs => 119,
        Locale::VecIt => 120,
        Locale::ViVn => 121,
        Locale::YiDe => 122,
        Locale::YoNg => 123,
        Locale::ZhCn => 124,
        Locale::ZhHk => 125,
        Locale::ZhTw => 126,
        Locale::ZlmArab => 127,
    }
}

/// The locale at a position in declaration order (`EnUs` past the end).
pub open spec fn locale_at(i: int) -> Locale {
    if i == 0 { Locale::AfZa }
    else if i == 1 { Locale::ArSa }
    else if i == 2 { Locale::AstEs }
    else if i == 3 { Locale::AzAz }
    else if i == 4 { Locale::BaRu }
    else if i == 5 { Locale::Bar }
    else if i == 6 { Locale::BeBy }
    else if i == 7 { Locale::BgBg }
    else if i == 8 { Locale::BrFr }
    else if i == 9 { Locale::Brb }
    else if i == 10 { Locale::BsBa }
    else if i == 11 { Locale::CaEs }
    else if i == 12 { Locale::CsCz }
    else if i == 13 { Locale::CyGb }
    else if i == 14 { Locale::DaDk }
    else if i == 15 { Locale::DeAt }
    else if i == 16 { Locale::DeCh }
    else if i == 17 { Locale::DeDe }
    else if i == 18 { Locale::ElGr }
    else if i == 19 { Locale::EnAu }
    else if i == 20 { Locale::EnCa }
    else if i == 21 { Locale::EnGb }
    else if i == 22 { Locale::EnNz }
    else if i == 23 { Locale::EnPt }
    else if i == 24 { Locale::EnUd }
    else if i == 25 { Locale::EnUs }
    else if i == 26 { Locale::Enp }
    else if i == 27 { Locale::Enws }
    else if i == 28 { Locale::EoUy }
    else if i == 29 { Locale::EsAr }
    else if i == 30 { Locale::EsCl }
    else if i == 31 { Locale::EsEc }
    else if i == 32 { Locale::EsEs }
    else if i == 33 { Locale::EsMx }
    else if i == 34 { Locale::EsUy }
    else if i == 35 { Locale::EsVe }
    else if i == 36 { Locale::Esan }
    else if i == 37 { Locale::EtEe }
    else if i == 38 { Locale::EuEs }
    else if i == 39 { Locale::FaIr }
    else if i == 40 { Locale::FiFi }
    else if i == 41 { Locale::FilPh }
    else if i == 42 { Locale::FoFo }
    else if i == 43 { Locale::FrCa }
    else if i == 44 { Locale::FrFr }
    else if i == 45 { Locale::FraDe }
    else if i == 46 { Locale::FurIt }
    else if i == 47 { Locale::FyNl }
    else if i == 48 { Locale::GaIe }
    else if i == 49 { Locale::GdGb }
    else if i == 50 { Locale::GlEs }
    else if i == 51 { Locale::HawUs }
    else if i == 52 { Locale::HeIl }
    else if i == 53 { Locale::HiIn }
    else if i == 54 { Locale::HrHr }
    else if i == 55 { Locale::HuHu }
    else if i == 56 { Locale::HyAm }
    else if i == 57 { Locale::IdId }
    else if i == 58 { Locale::IgNg }
    else if i == 59 { Locale::IoEn }
    else if i == 60 { Locale::IsIs }
    else if i == 61 { Locale::Isv }
    else if i == 62 { Locale::ItIt }
    else if i == 63 { Locale::JaJp }
    else if i == 64 { Locale::JboEn }
    else if i == 65 { Locale::KaGe }
    else if i == 66 { Locale::KkKz }
    else if i == 67 { Locale::KnIn }
    else if i == 68 { Locale::KoKr }
    else if i == 69 { Locale::Ksh }
    else if i == 70 { Locale::KwGb }
    else if i == 71 { Locale::LaLa }
    else if i == 72 { Locale::LbLu }
    else if i == 73 { Locale::LiLi }
    else if i == 74 { Locale::Lmo }
    else if i == 75 { Locale::LoLa }
    else if i == 76 { Locale::LolUs }
    else if i == 77 { Locale::LtLt }
    else if i == 78 { Locale::LvLv }
    else if i == 79 { Locale::Lzh }
    else if i == 80 { Locale::MkMk }
    else if i == 81 { Locale::MnMn }
    else if i == 82 { Locale::MsMy }
    else if i == 83 { Locale::MtMt }
    else if i == 84 { Locale::Nah }
    else if i == 85 { Locale::NdsDe }
    else if i == 86 { Locale::NlBe }
    else if i == 87 { Locale::NlNl }
    else if i == 88 { Locale::NnNo }
    else if i == 89 { Locale::NoNo }
    else if i == 90 { Locale::OcFr }
    else if i == 91 { Locale::Ovd }
    else if i == 92 { Locale::PlPl }
    else if i == 93 { Locale::PtBr }
    else if i == 94 { Locale::PtPt }
    else if i == 95 { Locale::QyaAa }
    else if i == 96 { Locale::RoRo }
    else if i == 97 { Locale::Rpr }
    else if i == 98 { Locale::RuRu }
    else if i == 99 { Locale::RyUa }
    else if i == 100 { Locale::SahSah }
    else if i == 101 { Locale::SeNo }
    else if i == 102 { Locale::SkSk }
    else if i == 103 { Locale::SlSi }
    else if i == 104 { Locale::SoSo }
    else if i == 105 { Locale::SqAl }
    else if i == 106 { Locale::SrCs }
    else if i == 107 { Locale::SrSp }
    else if i == 108 { Locale::SvSe }
    else if i == 109 { Locale::Sxu }
    else if i == 110 { Locale::Szl }
    else if i == 111 { Locale::TaIn }
    else if i == 112 { Locale::ThTh }
    else if i == 113 { Locale::TlPh }
    else if i == 114 { Locale::TlhAa }
    else if i == 115 { Locale::Tok }
    else if i == 116 { Locale::TrTr }
    else if i == 117 { Locale::TtRu }
    else if i == 118 { Locale::UkUa }
    else if i == 119 { Locale::ValEs }
    else if i == 120 { Locale::VecIt }
    else if i == 121 { Locale::ViVn }
    else if i == 122 { Locale::YiDe }
    else if i == 123 { Locale::YoNg }
    else if i == 124 { Locale::ZhCn }
    else if i == 125 { Locale::ZhHk }
    else if i == 126 { Locale::ZhTw }
    else if i == 127 { Locale::ZlmArab }
    else { Locale::EnUs }
}

/// The lowercase name of a locale, such as `en_us`.
pub open spec fn locale_name(l: Locale) -> Seq<char> {
    match l {
        Locale::AfZa => "af_za"@,
        Locale::ArSa => "ar_sa"@,
        Locale::AstEs => "ast_es"@,
        Locale::AzAz => "az_az"@,
        Locale::BaRu => "ba_ru"@,
        Locale::Bar => "bar"@,
        Locale::BeBy => "be_by"@,
        Locale::BgBg => "bg_bg"@,
        Locale::BrFr => "br_fr"@,
        Locale::Brb => "brb"@,
        Locale::BsBa => "bs_ba"@,
        Locale::CaEs => "ca_es"@,
        Locale::CsCz => "cs_cz"@,
        Locale::CyGb => "cy_gb"@,
        Locale::DaDk => "da_dk"@,
        Locale::DeAt => "de_at"@,
        Locale::DeCh => "de_ch"@,
        Locale::DeDe => "de_de"@,
        Locale::ElGr => "el_gr"@,
        Locale::EnAu => "en_au"@,
        Locale::EnCa => "en_ca"@,
        Locale::EnGb => "en_gb"@,
        Locale::EnNz => "en_nz"@,
        Locale::EnPt => "en_pt"@,
        Locale::EnUd => "en_ud"@,
        Locale::EnUs => "en_us"@,
        Locale::Enp => "enp"@,
        Locale::Enws => "enws"@,
        Locale::EoUy => "eo_uy"@,
        Locale::EsAr => "es_ar"@,
        Locale::EsCl => "es_cl"@,
        Locale::EsEc => "es_ec"@,
        Locale::EsEs => "es_es"@,
        Locale::EsMx => "es_mx"@,
        Locale::EsUy => "es_uy"@,
        Locale::EsVe => "es_ve"@,
        Locale::Esan => "esan"@,
        Locale::EtEe => "et_ee"@,
        Locale::EuEs => "eu_es"@,
        Locale::FaIr => "fa_ir"@,
        Locale::FiFi => "fi_fi"@,
        Locale::FilPh => "fil_ph"@,
        Locale::FoFo => "fo_fo"@,
        Locale::FrCa => "fr_ca"@,
        Locale::FrFr => "fr_fr"@,
        Locale::FraDe => "fra_de"@,
        Locale::FurIt => "fur_it"@,
        Locale::FyNl => "fy_nl"@,
        Locale::GaIe => "ga_ie"@,
        Locale::GdGb => "gd_gb"@,
        Locale::GlEs => "gl_es"@,
        Locale::HawUs => "haw_us"@,
        Locale::HeIl => "he_il"@,
        Locale::HiIn => "hi_in"@,
        Locale::HrHr => "hr_hr"@,
        Locale::HuHu => "hu_hu"@,
        Locale::HyAm => "hy_am"@,
        Locale::IdId => "id_id"@,
        Locale::IgNg => "ig_ng"@,
        Locale::IoEn => "io_en"@,
        Locale::IsIs => "is_is"@,
        Locale::Isv => "isv"@,
        Locale::ItIt => "it_it"@,
        Locale::JaJp => "ja_jp"@,
        Locale::JboEn => "jbo_en"@,
        Locale::KaGe => "ka_ge"@,
        Locale::KkKz => "kk_kz"@,
        Locale::KnIn => "kn_in"@,
        Locale::KoKr => "ko_kr"@,
        Locale::Ksh => "ksh"@,
        Locale::KwGb => "kw_gb"@,
        Locale::LaLa => "la_la"@,
        Locale::LbLu => "lb_lu"@,
        Locale::LiLi => "li_li"@,
        Locale::Lmo => "lmo"@,
        Locale::LoLa => "lo_la"@,
        Locale::LolUs => "lol_us"@,
        Locale::LtLt => "lt_lt"@,
        Locale::LvLv => "lv_lv"@,
        Locale::Lzh => "lzh"@,
        Locale::MkMk => "mk_mk"@,
        Locale::MnMn => "mn_mn"@,
        Locale::MsMy => "ms_my"@,
        Locale::MtMt => "mt_mt"@,
        Locale::Nah => "nah"@,
        Locale::NdsDe => "nds_de"@,
        Locale::NlBe => "nl_be"@,
        Locale::NlNl => "nl_nl"@,
        Locale::NnNo => "nn_no"@,
        Locale::NoNo => "no_no"@,
        Locale::OcFr => "oc_fr"@,
        Locale::Ovd => "ovd"@,
        Locale::PlPl => "pl_pl"@,
        Locale::PtBr => "pt_br"@,
        Locale::PtPt => "pt_pt"@,
        Locale::QyaAa => "qya_aa"@,
        Locale::RoRo => "ro_ro"@,
        Locale::Rpr => "rpr"@,
        Locale::RuRu => "ru_ru"@,
        Locale::RyUa => "ry_ua"@,
        Locale::SahSah => "sah_sah"@,
        Locale::SeNo => "se_no"@,
        Locale::SkSk => "sk_sk"@,
        Locale::SlSi => "sl_si"@,
        Locale::SoSo => "so_so"@,
        Locale::SqAl => "sq_al"@,
        Locale::SrCs => "sr_cs"@,
        Locale::SrSp => "sr_sp"@,
        Locale::SvSe => "sv_se"@,
        Locale::Sxu => "sxu"@,
        Locale::Szl => "szl"@,
        Locale::TaIn => "ta_in"@,
        Locale::ThTh => "th_th"@,
        Locale::TlPh => "tl_ph"@,
        Locale::TlhAa => "tlh_aa"@,
        Locale::Tok => "tok"@,
        Locale::TrTr => "tr_tr"@,
        Locale::TtRu => "tt_ru"@,
        Locale::UkUa => "uk_ua"@,
        Locale::ValEs => "val_es"@,
        Locale::VecIt => "vec_it"@,
        Locale::ViVn => "vi_vn"@,
        Locale::YiDe => "yi_de"@,
        Locale::YoNg => "yo_ng"@,
        Locale::ZhCn => "zh_cn"@,
        Locale::ZhHk => "zh_hk"@,
        Locale::ZhTw => "zh_tw"@,
        Locale::ZlmArab => "zlm_arab"@,
    }
}

/// The first locale, in declaration order from position `i`, whose name is
/// `name`; `EnUs` when there is none.
pub open spec fn locale_named_from(name: Seq<char>, i: int) -> Locale
    decreases LOCALE_COUNT - i,
{
    if i < 0 || i >= LOCALE_COUNT {
        Locale::EnUs
    } else if locale_name(locale_at(i)) == name {
        locale_at(i)
    } else {
        locale_named_from(name, i + 1)
    }
}

/// The locale that a name denotes: the one whose name is the lowercased
/// text, and `EnUs` for any text that names none.
pub open spec fn locale_for_text(text: Seq<char>) -> Locale {
    locale_named_from(lowercase(text), 0)
}

/// Position and locale correspond one to one.
pub proof fn lemma_locale_index(l: Locale)
    ensures
        0 <= locale_index(l) < LOCALE_COUNT,
        locale_at(locale_index(l)) == l,
{
}

/// Each locale is named by the lowercase, underscore-separated form of its
/// language and region, as clients send it: `ja_jp` is Japanese (Japan),
/// `ko_kr` Korean (Korea), and so on for every locale.
pub proof fn law_locale_names()
    ensures
        locale_name(Locale::AfZa) == "af_za"@,
        locale_name(Locale::ArSa) == "ar_sa"@,
        locale_name(Locale::AstEs) == "ast_es"@,
        locale_name(Locale::AzAz) == "az_az"@,
        locale_name(Locale::BaRu) == "ba_ru"@,
        locale_name(Locale::Bar) == "bar"@,
        locale_name(Locale::BeBy) == "be_by"@,
        locale_name(Locale::BgBg) == "bg_bg"@,
        locale_name(Locale::BrFr) == "br_fr"@,
        locale_name(Locale::Brb) == "brb"@,
        locale_name(Locale::BsBa) == "bs_ba"@,
        locale_name(Locale::CaEs) == "ca_es"@,
        locale_name(Locale::CsCz) == "cs_cz"@,
        locale_name(Locale::CyGb) == "cy_gb"@,
        locale_name(Locale::DaDk) == "da_dk"@,
        locale_name(Locale::DeAt) == "de_at"@,
        locale_name(Locale::DeCh) == "de_ch"@,
        locale_name(Locale::DeDe) == "de_de"@,
        locale_name(Locale::ElGr) == "el_gr"@,
        locale_name(Locale::EnAu) == "en_au"@,
        locale_name(Locale::EnCa) == "en_ca"@,
        locale_name(Locale::EnGb) == "en_gb"@,
        locale_name(Locale::EnNz) == "en_nz"@,
        locale_name(Locale::EnPt) == "en_pt"@,
        locale_name(Locale::EnUd) == "en_ud"@,
        locale_name(Locale::Enp) == "enp"@,
        locale_name(Locale::Enws) == "enws"@,
        locale_name(Locale::EoUy) == "eo_uy"@,
        locale_name(Locale::EsAr) == "es_ar"@,
        locale_name(Locale::EsCl) == "es_cl"@,
        locale_name(Locale::EsEc) == "es_ec"@,
        locale_name(Locale::EsEs) == "es_es"@,
        locale_name(Locale::EsMx) == "es_mx"@,
        locale_name(Locale::EsUy) == "es_uy"@,
        locale_name(Locale::EsVe) == "es_ve"@,
        locale_name(Locale::Esan) == "esan"@,
        locale_name(Locale::EtEe) == "et_ee"@,
        locale_name(Locale::EuEs) == "eu_es"@,
        locale_name(Locale::FaIr) == "fa_ir"@,
        locale_name(Locale::FiFi) == "fi_fi"@,
        locale_name(Locale::FilPh) == "fil_ph"@,
        locale_name(Locale::FoFo) == "fo_fo"@,
        locale_name(Locale::FrCa) == "fr_ca"@,
        locale_name(Locale::FrFr) == "fr_fr"@,
        locale_name(Locale::FraDe) == "fra_de"@,
        locale_name(Locale::FurIt) == "fur_it"@,
        locale_name(Locale::FyNl) == "fy_nl"@,
        locale_name(Locale::GaIe) == "ga_ie"@,
        locale_name(Locale::GdGb) == "gd_gb"@,
        locale_name(Locale::GlEs) == "gl_es"@,
        locale_name(Locale::HawUs) == "haw_us"@,
        locale_name(Locale::HeIl) == "he_il"@,
        locale_name(Locale::HiIn) == "hi_in"@,
        locale_name(Locale::HrHr) == "hr_hr"@,
        locale_name(Locale::HuHu) == "hu_hu"@,
        locale_name(Locale::HyAm) == "hy_am"@,
        locale_name(Locale::IdId) == "id_id"@,
        locale_name(Locale::IgNg) == "ig_ng"@,
        locale_name(Locale::IoEn) == "io_en"@,
        locale_name(Locale::IsIs) == "is_is"@,
        locale_name(Locale::Isv) == "isv"@,
        locale_name(Locale::ItIt) == "it_it"@,
        locale_name(Locale::JaJp) == "ja_jp"@,
        locale_name(Locale::JboEn) == "jbo_en"@,
        locale_name(Locale::KaGe) == "ka_ge"@,
        locale_name(Locale::KkKz) == "kk_kz"@,
        locale_name(Locale::KnIn) == "kn_in"@,
        locale_name(Locale::KoKr) == "ko_kr"@,
        locale_name(Locale::Ksh) == "ksh"@,
        locale_name(Locale::KwGb) == "kw_gb"@,
        locale_name(Locale::LaLa) == "la_la"@,
        locale_name(Locale::LbLu) == "lb_lu"@,
        locale_name(Locale::LiLi) == "li_li"@,
        locale_name(Locale::Lmo) == "lmo"@,
        locale_name(Locale::LoLa) == "lo_la"@,
        locale_name(Locale::LolUs) == "lol_us"@,
        locale_name(Locale::LtLt) == "lt_lt"@,
        locale_name(Locale::LvLv) == "lv_lv"@,
        locale_name(Locale::Lzh) == "lzh"@,
        locale_name(Locale::MkMk) == "mk_mk"@,
        locale_name(Locale::MnMn) == "mn_mn"@,
        locale_name(Locale::MsMy) == "ms_my"@,
        locale_name(Locale::MtMt) == "mt_mt"@,
        locale_name(Locale::Nah) == "nah"@,
        locale_name(Locale::NdsDe) == "nds_de"@,
        locale_name(Locale::NlBe) == "nl_be"@,
        locale_name(Locale::NlNl) == "nl_nl"@,
        locale_name(Locale::NnNo) == "nn_no"@,
        locale_name(Locale::NoNo) == "no_no"@,
        locale_name(Locale::OcFr) == "oc_fr"@,
        locale_name(Locale::Ovd) == "ovd"@,
        locale_name(Locale::PlPl) == "pl_pl"@,
        locale_name(Locale::PtBr) == "pt_br"@,
        locale_name(Locale::PtPt) == "pt_pt"@,
        locale_name(Locale::QyaAa) == "qya_aa"@,
        locale_name(Locale::RoRo) == "ro_ro"@,
        locale_name(Locale::Rpr) == "rpr"@,
        locale_name(Locale::RuRu) == "ru_ru"@,
        locale_name(Locale::RyUa) == "ry_ua"@,
        locale_name(Locale::SahSah) == "sah_sah"@,
        locale_name(Locale::SeNo) == "se_no"@,
        locale_name(Locale::SkSk) == "sk_sk"@,
        locale_name(Locale::SlSi) == "sl_si"@,
        locale_name(Locale::SoSo) == "so_so"@,
        locale_name(Locale::SqAl) == "sq_al"@,
        locale_name(Locale::SrCs) == "sr_cs"@,
        locale_name(Locale::SrSp) == "sr_sp"@,
        locale_name(Locale::SvSe) == "sv_se"@,
        locale_name(Locale::Sxu) == "sxu"@,
        locale_name(Locale::Szl) == "szl"@,
        locale_name(Locale::TaIn) == "ta_in"@,
        locale_name(Locale::ThTh) == "th_th"@,
        locale_name(Locale::TlPh) == "tl_ph"@,
        locale_name(Locale::TlhAa) == "tlh_aa"@,
        locale_name(Locale::Tok) == "tok"@,
        locale_name(Locale::TrTr) == "tr_tr"@,
        locale_name(Locale::TtRu) == "tt_ru"@,
        locale_name(Locale::UkUa) == "uk_ua"@,
        locale_name(Locale::ValEs) == "val_es"@,
        locale_name(Locale::VecIt) == "vec_it"@,
        locale_name(Locale::ViVn) == "vi_vn"@,
        locale_name(Locale::YiDe) == "yi_de"@,
        locale_name(Locale::YoNg) == "yo_ng"@,
        locale_name(Locale::ZhCn) == "zh_cn"@,
        locale_name(Locale::ZhHk) == "zh_hk"@,
        locale_name(Locale::ZhTw) == "zh_tw"@,
        locale_name(Locale::ZlmArab) == "zlm_arab"@,
        locale_name(Locale::EnUs) == "en_us"@,
{
}

/// The search from position `i` finds a locale with the name, when one from
/// `i` on has it, and `EnUs` otherwise.
proof fn lemma_named_from(name: Seq<char>, i: int)
    requires
        0 <= i <= LOCALE_COUNT,
    ensures
        (exists|j: int| i <= j < LOCALE_COUNT && #[trigger] locale_name(locale_at(j)) == name)
            ==> locale_name(locale_named_from(name, i)) == name,
        !(exists|j: int| i <= j < LOCALE_COUNT && #[trigger] locale_name(locale_at(j)) == name)
            ==> locale_named_from(name, i) == Locale::EnUs,
    decreases LOCALE_COUNT - i,
{
    if i < LOCALE_COUNT {
        lemma_named_from(name, i + 1);
        if locale_name(locale_at(i)) != name {
            if exists|j: int| i <= j < LOCALE_COUNT && #[trigger] locale_name(locale_at(j)) == name {
                let j = choose|j: int| i <= j < LOCALE_COUNT && #[trigger] locale_name(locale_at(j)) == name;
                assert(j != i);
                assert(i + 1 <= j < LOCALE_COUNT && locale_name(locale_at(j)) == name);
            }
        }
    }
}

/// Parsing a name gives a locale with that name whenever some locale has
/// it, and `EnUs` for any other name.
pub proof fn law_parse_finds_the_named_locale(name: Seq<char>)
    ensures
        (exists|l: Locale| #[trigger] locale_name(l) == name) ==> locale_name(locale_named_from(name, 0)) == name,
        !(exists|l: Locale| #[trigger] locale_name(l) == name) ==> locale_named_from(name, 0) == Locale::EnUs,
{
    lemma_named_from(name, 0);
    if exists|l: Locale| #[trigger] locale_name(l) == name {
        let l = choose|l: Locale| #[trigger] locale_name(l) == name;
        lemma_locale_index(l);
        assert(0 <= locale_index(l) < LOCALE_COUNT && locale_name(locale_at(locale_index(l))) == name);
    } else {
        assert forall|j: int| 0 <= j < LOCALE_COUNT implies #[trigger] locale_name(locale_at(j)) != name by {
            if locale_name(locale_at(j)) == name {
                assert(locale_name(locale_at(j)) == name);
            }
        }
    }
}

impl Locale {
    /// The number of locales.
    pub const COUNT: usize = 128;

    /// The position of this locale in declaration order.
    pub fn index(self) -> (i: usize)
        ensures
            i == locale_index(self),
            i < LOCALE_COUNT,
    {
        match self {
            Locale::AfZa => 0,
            Locale::ArSa => 1,
            Locale::AstEs => 2,
            Locale::AzAz => 3,
            Locale::BaRu => 4,
            Locale::Bar => 5,
            Locale::BeBy => 6,
            Locale::BgBg => 7,
            Locale::BrFr => 8,
            Locale::Brb => 9,
            Locale::BsBa => 10,
            Locale::CaEs => 11,
            Locale::CsCz => 12,
            Locale::CyGb => 13,
            Locale::DaDk => 14,
            Locale::DeAt => 15,
            Locale::DeCh => 16,
            Locale::DeDe => 17,
            Locale::ElGr => 18,
            Locale::EnAu => 19,
            Locale::EnCa => 20,
            Locale::EnGb => 21,
            Locale::EnNz => 22,
            Locale::EnPt => 23,
            Locale::EnUd => 24,
            Locale::EnUs => 25,
            Locale::Enp => 26,
            Locale::Enws => 27,
            Locale::EoUy => 28,
            Locale::EsAr => 29,
            Locale::EsCl => 30,
            Locale::EsEc => 31,
            Locale::EsEs => 32,
            Locale::EsMx => 33,
            Locale::EsUy => 34,
            Locale::EsVe => 35,
            Locale::Esan => 36,
            Locale::EtEe => 37,
            Locale::EuEs => 38,
            Locale::FaIr => 39,
            Locale::FiFi => 40,
            Locale::FilPh => 41,
            Locale::FoFo => 42,
            Locale::FrCa => 43,
            Locale::FrFr => 44,
            Locale::FraDe => 45,
            Locale::FurIt => 46,
            Locale::FyNl => 47,
            Locale::GaIe => 48,
            Locale::GdGb => 49,
            Locale::GlEs => 50,
            Locale::HawUs => 51,
            Locale::HeIl => 52,
            Locale::HiIn => 53,
            Locale::HrHr => 54,
            Locale::HuHu => 55,
            Locale::HyAm => 56,
            Locale::IdId => 57,
            Locale::IgNg => 58,
            Locale::IoEn => 59,
            Locale::IsIs => 60,
            Locale::Isv => 61,
            Locale::ItIt => 62,
            Locale::JaJp => 63,
            Locale::JboEn => 64,
            Locale::KaGe => 65,
            Locale::KkKz => 66,
            Locale::KnIn => 67,
            Locale::KoKr => 68,
            Locale::Ksh => 69,
            Locale::KwGb => 70,
            Locale::LaLa => 71,
            Locale::LbLu => 72,
            Locale::LiLi => 73,
            Locale::Lmo => 74,
            Locale::LoLa => 75,
            Locale::LolUs => 76,
            Locale::LtLt => 77,
            Locale::LvLv => 78,
            Locale::Lzh => 79,
            Locale::MkMk => 80,
            Locale::MnMn => 81,
            Locale::MsMy => 82,
            Locale::MtMt => 83,
            Locale::Nah => 84,
            Locale::NdsDe => 85,
            Locale::NlBe => 86,
            Locale::NlNl => 87,
            Locale::NnNo => 88,
            Locale::NoNo => 89,
            Locale::OcFr => 90,
            Locale::Ovd => 91,
            Locale::PlPl => 92,
            Locale::PtBr => 93,
            Locale::PtPt => 94,
            Locale::QyaAa => 95,
            Locale::RoRo => 96,
            Locale::Rpr => 97,
            Locale::RuRu => 98,
            Locale::RyUa => 99,
            Locale::SahSah => 100,
            Locale::SeNo => 101,
            Locale::SkSk => 102,
            Locale::SlSi => 103,
            Locale::SoSo => 104,
            Locale::SqAl => 105,
            Locale::SrCs => 106,
            Locale::SrSp => 107,
            Locale::SvSe => 108,
            Locale::Sxu => 109,
            Locale::Szl => 110,
            Locale::TaIn => 111,
            Locale::ThTh => 112,
            Locale::TlPh => 113,
            Locale::TlhAa => 114,
            Locale::Tok => 115,
            Locale::TrTr => 116,
            Locale::TtRu => 117,
            Locale::UkUa => 118,
            Locale::ValEs => 119,
            Locale::VecIt => 120,
            Locale::ViVn => 121,
            Locale::YiDe => 122,
            Locale::YoNg => 123,
            Locale::ZhCn => 124,
            Locale::ZhHk => 125,
            Locale::ZhTw => 126,
            Locale::ZlmArab => 127,
        }
    }

    /// The locale at position `i` in declaration order.
    pub fn from_index(i: usize) -> (l: Locale)
        requires
            i < LOCALE_COUNT,
        ensures
            l == locale_at(i as int),
            locale_index(l) == i,
    {
        match i {
            0 => Locale::AfZa,
            1 => Locale::ArSa,
            2 => Locale::AstEs,
            3 => Locale::AzAz,
            4 => Locale::BaRu,
            5 => Locale::Bar,
            6 => Locale::BeBy,
            7 => Locale::BgBg,
            8 => Locale::BrFr,
            9 => Locale::Brb,
            10 => Locale::BsBa,
            11 => Locale::CaEs,
            12 => Locale::CsCz,
            13 => Locale::CyGb,
            14 => Locale::DaDk,
            15 => Locale::DeAt,
            16 => Locale::DeCh,
            17 => Locale::DeDe,
            18 => Locale::ElGr,
            19 => Locale::EnAu,
            20 => Locale::EnCa,
            21 => Locale::EnGb,
            22 => Locale::EnNz,
            23 => Locale::EnPt,
            24 => Locale::EnUd,
            25 => Locale::EnUs,
            26 => Locale::Enp,
            27 => Locale::Enws,
            28 => Locale::EoUy,
            29 => Locale::EsAr,
            30 => Locale::EsCl,
            31 => Locale::EsEc,
            32 => Locale::EsEs,
            33 => Locale::EsMx,
            34 => Locale::EsUy,
            35 => Locale::EsVe,
            36 => Locale::Esan,
            37 => Locale::EtEe,
            38 => Locale::EuEs,
            39 => Locale::FaIr,
            40 => Locale::FiFi,
            41 => Locale::FilPh,
            42 => Locale::FoFo,
            43 => Locale::FrCa,
            44 => Locale::FrFr,
            45 => Locale::FraDe,
            46 => Locale::FurIt,
            47 => Locale::FyNl,
            48 => Locale::GaIe,
            49 => Locale::GdGb,
            50 => Locale::GlEs,
            51 => Locale::HawUs,
            52 => Locale::HeIl,
            53 => Locale::HiIn,
            54 => Locale::HrHr,
            55 => Locale::HuHu,
            56 => Locale::HyAm,
            57 => Locale::IdId,
            58 => Locale::IgNg,
            59 => Locale::IoEn,
            60 => Locale::IsIs,
            61 => Locale::Isv,
            62 => Locale::ItIt,
            63 => Locale::JaJp,
            64 => Locale::JboEn,
            65 => Locale::KaGe,
            66 => Locale::KkKz,
            67 => Locale::KnIn,
            68 => Locale::KoKr,
            69 => Locale::Ksh,
            70 => Locale::KwGb,
            71 => Locale::LaLa,
            72 => Locale::LbLu,
            73 => Locale::LiLi,
            74 => Locale::Lmo,
            75 => Locale::LoLa,
            76 => Locale::LolUs,
            77 => Locale::LtLt,
            78 => Locale::LvLv,
            79 => Locale::Lzh,
            80 => Locale::MkMk,
            81 => Locale::MnMn,
            82 => Locale::MsMy,
            83 => Locale::MtMt,
            84 => Locale::Nah,
            85 => Locale::NdsDe,
            86 => Locale::NlBe,
            87 => Locale::NlNl,
            88 => Locale::NnNo,
            89 => Locale::NoNo,
            90 => Locale::OcFr,
            91 => Locale::Ovd,
            92 => Locale::PlPl,
            93 => Locale::PtBr,
            94 => Locale::PtPt,
            95 => Locale::QyaAa,
            96 => Locale::RoRo,
            97 => Locale::Rpr,
            98 => Locale::RuRu,
            99 => Locale::RyUa,
            100 => Locale::SahSah,
            101 => Locale::SeNo,
            102 => Locale::SkSk,
            103 => Locale::SlSi,
            104 => Locale::SoSo,
            105 => Locale::SqAl,
            106 => Locale::SrCs,
            107 => Locale::SrSp,
            108 => Locale::SvSe,
            109 => Locale::Sxu,
            110 => Locale::Szl,
            111 => Locale::TaIn,
            112 => Locale::ThTh,
            113 => Locale::TlPh,
            114 => Locale::TlhAa,
            115 => Locale::Tok,
            116 => Locale::TrTr,
            117 => Locale::TtRu,
            118 => Locale::UkUa,
            119 => Locale::ValEs,
            120 => Locale::VecIt,
            121 => Locale::ViVn,
            122 => Locale::YiDe,
            123 => Locale::YoNg,
            124 => Locale::ZhCn,
            125 => Locale::ZhHk,
            126 => Locale::ZhTw,
            127 => Locale::ZlmArab,
            _ => Locale::EnUs,
        }
    }

    /// The lowercase name of this locale, such as `en_us`.
    pub fn name(self) -> (s: &'static str)
        ensures
            s@ == locale_name(self),
    {
        match self {
            Locale::AfZa => "af_za",
            Locale::ArSa => "ar_sa",
            Locale::AstEs => "ast_es",
            Locale::AzAz => "az_az",
            Locale::BaRu => "ba_ru",
            Locale::Bar => "bar",
            Locale::BeBy => "be_by",
            Locale::BgBg => "bg_bg",
            Locale::BrFr => "br_fr",
            Locale::Brb => "brb",
            Locale::BsBa => "bs_ba",
            Locale::CaEs => "ca_es",
            Locale::CsCz => "cs_cz",
            Locale::CyGb => "cy_gb",
            Locale::DaDk => "da_dk",
            Locale::DeAt => "de_at",
            Locale::DeCh => "de_ch",
            Locale::DeDe => "de_de",
            Locale::ElGr => "el_gr",
            Locale::EnAu => "en_au",
            Locale::EnCa => "en_ca",
            Locale::EnGb => "en_gb",
            Locale::EnNz => "en_nz",
            Locale::EnPt => "en_pt",
            Locale::EnUd => "en_ud",
            Locale::EnUs => "en_us",
            Locale::Enp => "enp",
            Locale::Enws => "enws",
            Locale::EoUy => "eo_uy",
            Locale::EsAr => "es_ar",
            Locale::EsCl => "es_cl",
            Locale::EsEc => "es_ec",
            Locale::EsEs => "es_es",
            Locale::EsMx => "es_mx",
            Locale::EsUy => "es_uy",
            Locale::EsVe => "es_ve",
            Locale::Esan => "esan",
            Locale::EtEe => "et_ee",
            Locale::EuEs => "eu_es",
            Locale::FaIr => "fa_ir",
            Locale::FiFi => "fi_fi",
            Locale::FilPh => "fil_ph",
            Locale::FoFo => "fo_fo",
            Locale::FrCa => "fr_ca",
            Locale::FrFr => "fr_fr",
            Locale::FraDe => "fra_de",
            Locale::FurIt => "fur_it",
            Locale::FyNl => "fy_nl",
            Locale::GaIe => "ga_ie",
            Locale::GdGb => "gd_gb",
            Locale::GlEs => "gl_es",
            Locale::HawUs => "haw_us",
            Locale::HeIl => "he_il",
            Locale::HiIn => "hi_in",
            Locale::HrHr => "hr_hr",
            Locale::HuHu => "hu_hu",
            Locale::HyAm => "hy_am",
            Locale::IdId => "id_id",
            Locale::IgNg => "ig_ng",
            Locale::IoEn => "io_en",
            Locale::IsIs => "is_is",
            Locale::Isv => "isv",
            Locale::ItIt => "it_it",
            Locale::JaJp => "ja_jp",
            Locale::JboEn => "jbo_en",
            Locale::KaGe => "ka_ge",
            Locale::KkKz => "kk_kz",
            Locale::KnIn => "kn_in",
            Locale::KoKr => "ko_kr",
            Locale::Ksh => "ksh",
            Locale::KwGb => "kw_gb",
            Locale::LaLa => "la_la",
            Locale::LbLu => "lb_lu",
            Locale::LiLi => "li_li",
            Locale::Lmo => "lmo",
            Locale::LoLa => "lo_la",
            Locale::LolUs => "lol_us",
            Locale::LtLt => "lt_lt",
            Locale::LvLv => "lv_lv",
            Locale::Lzh => "lzh",
            Locale::MkMk => "mk_mk",
            Locale::MnMn => "mn_mn",
            Locale::MsMy => "ms_my",
            Locale::MtMt => "mt_mt",
            Locale::Nah => "nah",
            Locale::NdsDe => "nds_de",
            Locale::NlBe => "nl_be",
            Locale::NlNl => "nl_nl",
            Locale::NnNo => "nn_no",
            Locale::NoNo => "no_no",
            Locale::OcFr => "oc_fr",
            Locale::Ovd => "ovd",
            Locale::PlPl => "pl_pl",
            Locale::PtBr => "pt_br",
            Locale::PtPt => "pt_pt",
            Locale::QyaAa => "qya_aa",
            Locale::RoRo => "ro_ro",
            Locale::Rpr => "rpr",
            Locale::RuRu => "ru_ru",
            Locale::RyUa => "ry_ua",
            Locale::SahSah => "sah_sah",
            Locale::SeNo => "se_no",
            Locale::SkSk => "sk_sk",
            Locale::SlSi => "sl_si",
            Locale::SoSo => "so_so",
            Locale::SqAl => "sq_al",
            Locale::SrCs => "sr_cs",
            Locale::SrSp => "sr_sp",
            Locale::SvSe => "sv_se",
            Locale::Sxu => "sxu",
            Locale::Szl => "szl",
            Locale::TaIn => "ta_in",
            Locale::ThTh => "th_th",
            Locale::TlPh => "tl_ph",
            Locale::TlhAa => "tlh_aa",
            Locale::Tok => "tok",
            Locale::TrTr => "tr_tr",
            Locale::TtRu => "tt_ru",
            Locale::UkUa => "uk_ua",
            Locale::ValEs => "val_es",
            Locale::VecIt => "vec_it",
            Locale::ViVn => "vi_vn",
            Locale::YiDe => "yi_de",
            Locale::YoNg => "yo_ng",
            Locale::ZhCn => "zh_cn",
            Locale::ZhHk => "zh_hk",
            Locale::ZhTw => "zh_tw",
            Locale::ZlmArab => "zlm_arab",
        }
    }

    /// The locale that `text` names, compared without regard to case;
    /// `EnUs` when it names none.
    pub fn from_name(text: &str) -> (l: Locale)
        ensures
            l == locale_for_text(text@),
    {
        let lower = to_lowercase(text);
        let mut i: usize = 0;
        while i < LOCALE_COUNT
            invariant
                i <= LOCALE_COUNT,
                lower@ == lowercase(text@),
                locale_named_from(lower@, 0) == locale_named_from(lower@, i as int),
            decreases LOCALE_COUNT - i,
        {
            let candidate = Locale::from_index(i);
            if str_eq(lower.as_str(), candidate.name()) {
                return candidate;
            }
            i = i + 1;
        }
        Locale::EnUs
    }
}

impl core::str::FromStr for Locale {
    type Err = ();

    fn from_str(s: &str) -> (r: Result<Self, Self::Err>)
        ensures
            r == Ok::<Locale, ()>(locale_for_text(s@)),
    {
        Ok(Locale::from_name(s))
    }
}

} // verus!
