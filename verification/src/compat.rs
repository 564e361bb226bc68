//! Compatibility levels: the ordered enumeration of engine versions a map
//! script can target, the header aliases that select them, and the builtin
//! vocabulary text bundled for each level.
//!
//! The builtin `#const`/`#define` vocabulary of a level is derived by
//! parsing, with the ordinary tokenizer and parser, the definition texts of
//! every level up to and including it. Deriving it cumulatively makes
//! gating monotone: a symbol available at some level stays available at
//! every higher one.

use vstd::prelude::*;
use crate::bytes::str_bytes;
use crate::parser::spec_parse;
use crate::parser::AtomV;
use crate::parser::Warning;
use crate::registry::LEVEL_ALL;
use crate::registry::LEVEL_CONQUERORS;
use crate::registry::LEVEL_HD_EDITION;
use crate::registry::LEVEL_USERPATCH14;
use crate::registry::LEVEL_USERPATCH15;
use crate::registry::LEVEL_WOLOLOKINGDOMS;
use crate::registry::LEVEL_DEFINITIVE_EDITION;

verus! {

/// File identifier under which the bundled definition texts are parsed.
pub const DEFS_FILE_ID: u32 = 0xFFFF_FFFF;

/// The target compatibility for a map script, ordered from the most
/// restrictive vocabulary to the most permissive.
#[derive(Debug, Clone, Copy, PartialEq, Eq, Structural, PartialOrd)]
pub enum Compatibility {
    /// Be maximally compatible: accept only what every engine understands.
    All,
    /// The Conquerors.
    Conquerors,
    /// HD Edition (assumes all DLCs).
    HDEdition,
    /// UserPatch 1.4, accepting the features it added.
    UserPatch14,
    /// UserPatch 1.5, accepting the features it added.
    UserPatch15,
    /// WololoKingdoms: UserPatch 1.5 plus HD-DLC-derived constants.
    WololoKingdoms,
    /// Definitive Edition.
    DefinitiveEdition,
}

impl Compatibility {
    /// Numeric rank used by gating comparisons.
    pub open spec fn spec_level(self) -> u8 {
        match self {
            Compatibility::All => LEVEL_ALL,
            Compatibility::Conquerors => LEVEL_CONQUERORS,
            Compatibility::HDEdition => LEVEL_HD_EDITION,
            Compatibility::UserPatch14 => LEVEL_USERPATCH14,
            Compatibility::UserPatch15 => LEVEL_USERPATCH15,
            Compatibility::WololoKingdoms => LEVEL_WOLOLOKINGDOMS,
            Compatibility::DefinitiveEdition => LEVEL_DEFINITIVE_EDITION,
        }
    }

    #[verifier::when_used_as_spec(spec_level)]
    pub fn level(self) -> (r: u8)
        ensures
            r == self.spec_level(),
    {
        match self {
            Compatibility::All => LEVEL_ALL,
            Compatibility::Conquerors => LEVEL_CONQUERORS,
            Compatibility::HDEdition => LEVEL_HD_EDITION,
            Compatibility::UserPatch14 => LEVEL_USERPATCH14,
            Compatibility::UserPatch15 => LEVEL_USERPATCH15,
            Compatibility::WololoKingdoms => LEVEL_WOLOLOKINGDOMS,
            Compatibility::DefinitiveEdition => LEVEL_DEFINITIVE_EDITION,
        }
    }
}

impl Default for Compatibility {
    /// The default target is the Conquerors.
    fn default() -> (r: Compatibility)
        ensures
            r == Compatibility::Conquerors,
    {
        Compatibility::Conquerors
    }
}

/// The compatibility level a header-directive value selects. The value is
/// expected lowercased and trimmed; an unrecognized value selects nothing
/// (and the directive is silently ignored).
pub open spec fn spec_compat_alias(v: Seq<u8>) -> Option<Compatibility> {
    if v == str_bytes("hd edition") || v == str_bytes("hd") {
        Some(Compatibility::HDEdition)
    } else if v == str_bytes("conquerors") || v == str_bytes("aoc") {
        Some(Compatibility::Conquerors)
    } else if v == str_bytes("userpatch 1.5") || v == str_bytes("up 1.5") {
        Some(Compatibility::UserPatch15)
    } else if v == str_bytes("userpatch 1.4") || v == str_bytes("up 1.4") || v == str_bytes(
        "userpatch",
    ) || v == str_bytes("up") {
        Some(Compatibility::UserPatch14)
    } else if v == str_bytes("wololokingdoms") || v == str_bytes("wk") {
        Some(Compatibility::WololoKingdoms)
    } else if v == str_bytes("definitive edition") || v == str_bytes("de") {
        Some(Compatibility::DefinitiveEdition)
    } else {
        None
    }
}

pub fn compat_alias(v: &[u8]) -> (r: Option<Compatibility>)
    ensures
        r == spec_compat_alias(v@),
{
    if crate::bytes::eq_str(v, "hd edition") || crate::bytes::eq_str(v, "hd") {
        Some(Compatibility::HDEdition)
    } else if crate::bytes::eq_str(v, "conquerors") || crate::bytes::eq_str(v, "aoc") {
        Some(Compatibility::Conquerors)
    } else if crate::bytes::eq_str(v, "userpatch 1.5") || crate::bytes::eq_str(v, "up 1.5") {
        Some(Compatibility::UserPatch15)
    } else if crate::bytes::eq_str(v, "userpatch 1.4") || crate::bytes::eq_str(v, "up 1.4")
        || crate::bytes::eq_str(v, "userpatch") || crate::bytes::eq_str(v, "up") {
        Some(Compatibility::UserPatch14)
    } else if crate::bytes::eq_str(v, "wololokingdoms") || crate::bytes::eq_str(v, "wk") {
        Some(Compatibility::WololoKingdoms)
    } else if crate::bytes::eq_str(v, "definitive edition") || crate::bytes::eq_str(v, "de") {
        Some(Compatibility::DefinitiveEdition)
    } else {
        None
    }
}

/// The bundled definition text that each level adds on top of the levels
/// below it.
pub open spec fn spec_defs_chars(level: int) -> Seq<char> {
    if level == LEVEL_ALL as int {
        "#const GRASS 0
#const WATER 1
#const BEACH 2
#const DIRT 3
#const SHALLOW 4
#const LEAVES 5
#const DESERT 6
#const FOREST 10
#const SNOW 32
#const ICE 35
#const PALM_DESERT 13
#const JUNGLE 17
#const BAMBOO 18
#const PINE_FOREST 19
#const GRASS2 12
#const GRASS3 9
#const DIRT2 27
#const DIRT3 11
#const ROAD 24
#const ROAD2 25
#const GOLD 66
#const STONE 102
#const FORAGE 59
#const RELIC 285
#const SHEEP 594
#const DEER 65
#const BOAR 48
#const WOLF 126
#const VILLAGER 83
#const SCOUT 448
#const TOWN_CENTER 109
"@
    } else if level == LEVEL_CONQUERORS as int {
        ""@
    } else if level == LEVEL_HD_EDITION as int {
        "#const DLC_SAVANNAH 41
#const DLC_DIRT4 42
#const DLC_DRYROAD 43
#const DLC_MOSS 44
#const DLC_JUNGLEGRASS 60
#const DLC_JUNGLEROAD 61
#const DLC_JUNGLELEAVES 62
#const DLC_WATER4 57
#const DLC_WATER5 58
"@
    } else if level == LEVEL_USERPATCH14 as int {
        "#define UP_AVAILABLE
"@
    } else if level == LEVEL_USERPATCH15 as int {
        "#define UP_EXTENSION
#const AMOUNT_STARTING_FOOD 91
#const AMOUNT_STARTING_WOOD 92
#const AMOUNT_STARTING_STONE 93
#const AMOUNT_STARTING_GOLD 94
#const SET_ATTRIBUTE 0
#const MOD_RESOURCE 1
#const ATTR_DISABLE 103
#const ATTR_ENABLE 104
#const ATTR_FORCE 105
#const ATTR_SET_TIME 17
"@
    } else if level == LEVEL_WOLOLOKINGDOMS as int {
        "#const WK_AVAILABLE 1
#const DLC_BLUEWATER 63
#const DLC_GRAVEL 70
"@
    } else if level == LEVEL_DEFINITIVE_EDITION as int {
        "#define DE_AVAILABLE
#const DLC_ROCKBEACH 109
#const DLC_ICEBEACH 37
#const DLC_SNOWYGRASS 71
#const DLC_MANGROVESHALLOW 54
"@
    } else {
        ""@
    }
}

/// The bundled definition text of one level, as source text.
pub fn defs_source(level: u8) -> (r: &'static str)
    ensures
        r@ == spec_defs_chars(level as int),
{
    if level == LEVEL_ALL {
        "#const GRASS 0
#const WATER 1
#const BEACH 2
#const DIRT 3
#const SHALLOW 4
#const LEAVES 5
#const DESERT 6
#const FOREST 10
#const SNOW 32
#const ICE 35
#const PALM_DESERT 13
#const JUNGLE 17
#const BAMBOO 18
#const PINE_FOREST 19
#const GRASS2 12
#const GRASS3 9
#const DIRT2 27
#const DIRT3 11
#const ROAD 24
#const ROAD2 25
#const GOLD 66
#const STONE 102
#const FORAGE 59
#const RELIC 285
#const SHEEP 594
#const DEER 65
#const BOAR 48
#const WOLF 126
#const VILLAGER 83
#const SCOUT 448
#const TOWN_CENTER 109
"
    } else if level == LEVEL_CONQUERORS {
        ""
    } else if level == LEVEL_HD_EDITION {
        "#const DLC_SAVANNAH 41
#const DLC_DIRT4 42
#const DLC_DRYROAD 43
#const DLC_MOSS 44
#const DLC_JUNGLEGRASS 60
#const DLC_JUNGLEROAD 61
#const DLC_JUNGLELEAVES 62
#const DLC_WATER4 57
#const DLC_WATER5 58
"
    } else if level == LEVEL_USERPATCH14 {
        "#define UP_AVAILABLE
"
    } else if level == LEVEL_USERPATCH15 {
        "#define UP_EXTENSION
#const AMOUNT_STARTING_FOOD 91
#const AMOUNT_STARTING_WOOD 92
#const AMOUNT_STARTING_STONE 93
#const AMOUNT_STARTING_GOLD 94
#const SET_ATTRIBUTE 0
#const MOD_RESOURCE 1
#const ATTR_DISABLE 103
#const ATTR_ENABLE 104
#const ATTR_FORCE 105
#const ATTR_SET_TIME 17
"
    } else if level == LEVEL_WOLOLOKINGDOMS {
        "#const WK_AVAILABLE 1
#const DLC_BLUEWATER 63
#const DLC_GRAVEL 70
"
    } else if level == LEVEL_DEFINITIVE_EDITION {
        "#define DE_AVAILABLE
#const DLC_ROCKBEACH 109
#const DLC_ICEBEACH 37
#const DLC_SNOWYGRASS 71
#const DLC_MANGROVESHALLOW 54
"
    } else {
        ""
    }
}

/// The bytes of one level's definition text.
pub open spec fn spec_defs_bytes(level: int) -> Seq<u8> {
    vstd::utf8::encode_utf8(spec_defs_chars(level))
}

/// The `#const` names among a parsed atom stream, from position `k` on.
pub open spec fn const_names_from(items: Seq<(AtomV, Seq<Warning>)>, k: int) -> Set<Seq<u8>>
    decreases items.len() - k,
{
    if k < 0 || k >= items.len() {
        Set::empty()
    } else {
        let rest = const_names_from(items, k + 1);
        match items[k].0 {
            AtomV::Const(_, name, _) => rest.insert(name.value),
            _ => rest,
        }
    }
}

/// The `#define` names among a parsed atom stream, from position `k` on.
pub open spec fn define_names_from(items: Seq<(AtomV, Seq<Warning>)>, k: int) -> Set<Seq<u8>>
    decreases items.len() - k,
{
    if k < 0 || k >= items.len() {
        Set::empty()
    } else {
        let rest = define_names_from(items, k + 1);
        match items[k].0 {
            AtomV::Define(_, name) => rest.insert(name.value),
            _ => rest,
        }
    }
}

/// Builtin `#const` vocabulary of every level up to and including `level`.
pub open spec fn builtin_consts_upto(level: int) -> Set<Seq<u8>>
    decreases level + 1,
{
    if level < 0 {
        Set::empty()
    } else {
        builtin_consts_upto(level - 1).union(
            const_names_from(spec_parse(spec_defs_bytes(level), DEFS_FILE_ID), 0),
        )
    }
}

/// Builtin `#define` vocabulary of every level up to and including `level`.
pub open spec fn builtin_defines_upto(level: int) -> Set<Seq<u8>>
    decreases level + 1,
{
    if level < 0 {
        Set::empty()
    } else {
        builtin_defines_upto(level - 1).union(
            define_names_from(spec_parse(spec_defs_bytes(level), DEFS_FILE_ID), 0),
        )
    }
}

/// Gating monotonicity of the builtin vocabulary: everything available at
/// a level is available at every higher level, because each level's
/// vocabulary is derived from its own definition text and every text
/// below it.
pub proof fn lemma_builtin_monotone(l1: int, l2: int)
    requires
        l1 <= l2,
    ensures
        builtin_consts_upto(l1).subset_of(builtin_consts_upto(l2)),
        builtin_defines_upto(l1).subset_of(builtin_defines_upto(l2)),
    decreases l2 - l1,
{
    if l1 < l2 {
        lemma_builtin_monotone(l1, l2 - 1);
    }
}

/// A symbol outside every level's definition text is builtin nowhere; in
/// particular, a symbol first introduced at some level is absent at every
/// lower one.
pub proof fn lemma_builtin_absent_below(name: Seq<u8>, level: int, intro: int)
    requires
        level < intro,
        forall|l: int|
            0 <= l <= level ==> !const_names_from(
                #[trigger] spec_parse(spec_defs_bytes(l), DEFS_FILE_ID),
                0,
            ).contains(name),
    ensures
        !builtin_consts_upto(level).contains(name),
    decreases level + 1,
{
    if level >= 0 {
        lemma_builtin_absent_below(name, level - 1, intro);
    }
}

} // verus!
